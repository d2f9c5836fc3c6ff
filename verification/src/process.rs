//! The child-handle state machine: pid and cached exit status, and the
//! decisions `wait`, `try_wait` and `kill` take over them.  The wait and
//! signal syscalls themselves are carried out by the caller, which feeds
//! their raw results back in.

use vstd::prelude::*;

use crate::error::SandboxError;

verus! {

/// The abstract value of a child handle: its pid and the cached raw exit
/// status, if a terminal exit has been observed.
pub struct ChildModel {
    pub pid: i32,
    pub status: Option<i32>,
}

/// Lifecycle state of one spawned child.  The status, once cached, never
/// changes: repeated waits keep answering it and signalling is refused.
#[derive(Clone, Copy, Debug)]
pub struct ChildState {
    pid: i32,
    status: Option<i32>,
}

impl View for ChildState {
    type V = ChildModel;

    closed spec fn view(&self) -> ChildModel {
        ChildModel { pid: self.pid, status: self.status }
    }
}

/// What a blocking or non-blocking wait answers without consulting the
/// kernel: the cached status, if any.
pub open spec fn spec_cached_status(m: ChildModel) -> Option<i32> {
    m.status
}

/// Whether a kill is permitted: only while no terminal exit is cached.
pub open spec fn spec_kill_allowed(m: ChildModel) -> bool {
    m.status is None
}

impl ChildState {
    /// A freshly spawned child: no exit observed yet.
    pub fn new(pid: i32) -> (r: Self)
        ensures
            r@.pid == pid,
            r@.status is None,
    {
        ChildState { pid, status: None }
    }

    /// The process id, as callers outside the library see it.
    pub fn id(&self) -> (r: u32)
        ensures
            r == self@.pid as u32,
    {
        self.pid as u32
    }

    /// The pid to pass to the wait syscall.
    pub fn pid(&self) -> (r: i32)
        ensures
            r == self@.pid,
    {
        self.pid
    }

    /// What `wait` answers before blocking: the caller first closes the
    /// child's stdin (so a peer reading it sees end of input), then returns
    /// the cached status if one is present, and only otherwise blocks in the
    /// wait syscall.
    pub fn wait_decision(&self) -> (r: Option<i32>)
        ensures
            r == spec_cached_status(self@),
    {
        self.status
    }

    /// Caches the raw status a successful wait syscall reported.  A status
    /// cached earlier is kept: the first observed exit is the exit.
    pub fn record_exit(&mut self, raw_status: i32)
        ensures
            final(self)@.pid == old(self)@.pid,
            old(self)@.status is None ==> final(self)@.status == Some(raw_status),
            old(self)@.status matches Some(s) ==> final(self)@.status == Some(s),
    {
        if self.status.is_none() {
            self.status = Some(raw_status);
        }
    }

    /// Digests a non-blocking wait.  A status cached earlier is answered
    /// unchanged; otherwise the syscall answering pid zero means the child
    /// still runs and nothing is cached, and any other pid carries a
    /// terminal status, which is cached and answered.
    pub fn absorb_try_wait(&mut self, reported_pid: i32, raw_status: i32) -> (r: Option<i32>)
        ensures
            final(self)@.pid == old(self)@.pid,
            old(self)@.status matches Some(s) ==> r == Some(s) && final(self)@.status == Some(s),
            old(self)@.status is None && reported_pid == 0 ==> r is None && final(self)@.status
                is None,
            old(self)@.status is None && reported_pid != 0 ==> (r == Some(raw_status)
                && final(self)@.status == Some(raw_status)),
    {
        if let Some(cached) = self.status {
            Some(cached)
        } else if reported_pid == 0 {
            None
        } else {
            self.status = Some(raw_status);
            Some(raw_status)
        }
    }

    /// Decides a kill: a child whose exit status is already cached must not
    /// be signalled — its pid may have been reused — so the request is
    /// refused as invalid; otherwise the pid to signal is returned.
    pub fn kill_decision(&self) -> (r: Result<i32, SandboxError>)
        ensures
            spec_kill_allowed(self@) ==> r == Ok::<i32, SandboxError>(self@.pid),
            !spec_kill_allowed(self@) ==> r == Err::<i32, SandboxError>(SandboxError::AlreadyExited),
    {
        if self.status.is_some() {
            Err(SandboxError::AlreadyExited)
        } else {
            Ok(self.pid)
        }
    }
}

/// Law: once a terminal exit is cached, every later `wait` and `try_wait`
/// answers that same status without consulting the kernel, and `kill` is
/// refused.
pub proof fn lemma_cached_status_stable(m: ChildModel, s: i32)
    requires
        m.status == Some(s),
    ensures
        spec_cached_status(m) == Some(s),
        !spec_kill_allowed(m),
{
}

} // verus!
