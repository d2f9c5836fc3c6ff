use bastille::{ChildState, SandboxError};

#[test]
fn fresh_child_has_no_cached_status() {
    let child = ChildState::new(4242);
    assert_eq!(child.id(), 4242);
    assert_eq!(child.pid(), 4242);
    assert_eq!(child.wait_decision(), None);
}

#[test]
fn wait_caches_and_repeats_the_same_status() {
    let mut child = ChildState::new(100);
    assert_eq!(child.wait_decision(), None);
    child.record_exit(0);
    assert_eq!(child.wait_decision(), Some(0));
    assert_eq!(child.wait_decision(), Some(0));
    let mut other = ChildState::new(101);
    other.record_exit(256);
    assert_eq!(other.wait_decision(), Some(256));
    assert_eq!(other.wait_decision(), Some(256));
}

#[test]
fn try_wait_running_then_exited() {
    let mut child = ChildState::new(55);
    assert_eq!(child.absorb_try_wait(0, 0), None);
    assert_eq!(child.wait_decision(), None);
    assert_eq!(child.absorb_try_wait(55, 9), Some(9));
    assert_eq!(child.wait_decision(), Some(9));
}

#[test]
fn first_observed_exit_is_kept() {
    let mut child = ChildState::new(66);
    child.record_exit(0);
    child.record_exit(9);
    assert_eq!(child.wait_decision(), Some(0));
    assert_eq!(child.absorb_try_wait(66, 9), Some(0));
    assert_eq!(child.wait_decision(), Some(0));
}

#[test]
fn kill_permitted_while_running() {
    let child = ChildState::new(77);
    assert_eq!(child.kill_decision(), Ok(77));
}

#[test]
fn kill_rejected_after_exit() {
    // Spawn, wait, kill: the wait caches a successful exit, after which the
    // kill must come back as invalid without any signal being sent.
    let mut child = ChildState::new(88);
    child.record_exit(0);
    assert_eq!(child.wait_decision(), Some(0));
    assert_eq!(child.kill_decision(), Err(SandboxError::AlreadyExited));
    // And again: the refusal is stable.
    assert_eq!(child.kill_decision(), Err(SandboxError::AlreadyExited));
}
