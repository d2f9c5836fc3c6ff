//! The sandbox configuration builder: a fluent accumulator of path
//! mappings, soft links, empty directories, identity overrides and the four
//! policy bits.

use vstd::prelude::*;

use crate::mapping::{Mapping, Mappings};

verus! {

/// The abstract value of a `Sandbox` configuration.
pub struct SandboxModel {
    pub mappings: Seq<Mapping>,
    pub soft_links: Seq<(String, String)>,
    pub directories: Seq<String>,
    pub uid: Option<u32>,
    pub gid: Option<u32>,
    pub allow_devices: bool,
    pub allow_local_sockets: bool,
    pub allow_network: bool,
    pub allow_sysctl: bool,
}

/// A declarative description of a sandbox: what of the host is visible
/// where, who the confined process runs as, and which parts of the kernel
/// surface stay reachable.  All policy bits default to off and the identity
/// defaults to the caller's real one at spawn time.
#[derive(Debug)]
pub struct Sandbox {
    mappings: Mappings,
    soft_links: Vec<(String, String)>,
    directories: Vec<String>,
    uid: Option<u32>,
    gid: Option<u32>,
    allow_devices: bool,
    allow_local_sockets: bool,
    allow_network: bool,
    allow_sysctl: bool,
}

impl View for Sandbox {
    type V = SandboxModel;

    closed spec fn view(&self) -> SandboxModel {
        SandboxModel {
            mappings: self.mappings@,
            soft_links: self.soft_links@,
            directories: self.directories@,
            uid: self.uid,
            gid: self.gid,
            allow_devices: self.allow_devices,
            allow_local_sockets: self.allow_local_sockets,
            allow_network: self.allow_network,
            allow_sysctl: self.allow_sysctl,
        }
    }
}

/// The configuration every build starts from: nothing mapped, nothing
/// linked, no identity override, every policy bit off.
pub open spec fn spec_default_sandbox() -> SandboxModel {
    SandboxModel {
        mappings: Seq::empty(),
        soft_links: Seq::empty(),
        directories: Seq::empty(),
        uid: None,
        gid: None,
        allow_devices: false,
        allow_local_sockets: false,
        allow_network: false,
        allow_sysctl: false,
    }
}

pub open spec fn spec_with_mount(m: SandboxModel, item: Mapping) -> SandboxModel {
    SandboxModel { mappings: m.mappings.push(item), ..m }
}

pub open spec fn spec_with_mounts(m: SandboxModel, items: Seq<Mapping>) -> SandboxModel {
    SandboxModel { mappings: m.mappings + items, ..m }
}

pub open spec fn spec_with_mounts_cleared(m: SandboxModel) -> SandboxModel {
    SandboxModel { mappings: Seq::empty(), ..m }
}

pub open spec fn spec_with_soft_link(m: SandboxModel, src: String, dest: String) -> SandboxModel {
    SandboxModel { soft_links: m.soft_links.push((src, dest)), ..m }
}

pub open spec fn spec_with_soft_links(
    m: SandboxModel,
    entries: Seq<(String, String)>,
) -> SandboxModel {
    SandboxModel { soft_links: m.soft_links + entries, ..m }
}

/// Directories form a set: a path already declared (by value) is not
/// declared again.
pub open spec fn spec_with_directory(m: SandboxModel, path: String) -> SandboxModel {
    if exists|i: int| 0 <= i < m.directories.len() && #[trigger] m.directories[i]@ == path@ {
        m
    } else {
        SandboxModel { directories: m.directories.push(path), ..m }
    }
}

pub open spec fn spec_with_directories(m: SandboxModel, paths: Seq<String>) -> SandboxModel
    decreases paths.len(),
{
    if paths.len() == 0 {
        m
    } else {
        spec_with_directories(spec_with_directory(m, paths[0]), paths.drop_first())
    }
}

pub open spec fn spec_with_uid(m: SandboxModel, value: u32) -> SandboxModel {
    SandboxModel { uid: Some(value), ..m }
}

pub open spec fn spec_with_gid(m: SandboxModel, value: u32) -> SandboxModel {
    SandboxModel { gid: Some(value), ..m }
}

pub open spec fn spec_with_allow_devices(m: SandboxModel, enabled: bool) -> SandboxModel {
    SandboxModel { allow_devices: enabled, ..m }
}

pub open spec fn spec_with_allow_local_sockets(m: SandboxModel, enabled: bool) -> SandboxModel {
    SandboxModel { allow_local_sockets: enabled, ..m }
}

pub open spec fn spec_with_allow_network(m: SandboxModel, enabled: bool) -> SandboxModel {
    SandboxModel { allow_network: enabled, ..m }
}

pub open spec fn spec_with_allow_sysctl(m: SandboxModel, enabled: bool) -> SandboxModel {
    SandboxModel { allow_sysctl: enabled, ..m }
}

impl Sandbox {
    /// The default configuration; see `spec_default_sandbox`.
    pub fn new() -> (r: Self)
        ensures
            r@ == spec_default_sandbox(),
    {
        Sandbox {
            mappings: Mappings::default(),
            soft_links: Vec::new(),
            directories: Vec::new(),
            uid: None,
            gid: None,
            allow_devices: false,
            allow_local_sockets: false,
            allow_network: false,
            allow_sysctl: false,
        }
    }

    /// Declares one mapping; mappings stack in declaration order.
    pub fn mount(&mut self, mapping: Mapping) -> (r: &mut Self)
        ensures
            (*r)@ == spec_with_mount(old(self)@, mapping),
            *final(self) == *final(r),
    {
        self.mappings.push(mapping);
        self
    }

    /// Declares each given mapping, in order.
    pub fn mounts(&mut self, mappings: Vec<Mapping>) -> (r: &mut Self)
        ensures
            (*r)@ == spec_with_mounts(old(self)@, mappings@),
            *final(self) == *final(r),
    {
        self.mappings.extend(mappings);
        self
    }

    /// Withdraws every mapping declared so far.
    pub fn mounts_clear(&mut self) -> (r: &mut Self)
        ensures
            (*r)@ == spec_with_mounts_cleared(old(self)@),
            *final(self) == *final(r),
    {
        self.mappings.clear();
        proof {
            assert((*self)@.mappings =~= Seq::<Mapping>::empty());
        }
        self
    }

    /// Declares a symbolic link: `dest`, read relative to the sandbox root,
    /// will point at `src`, written verbatim.
    pub fn soft_link(&mut self, src: String, dest: String) -> (r: &mut Self)
        ensures
            (*r)@ == spec_with_soft_link(old(self)@, src, dest),
            *final(self) == *final(r),
    {
        self.soft_links.push((src, dest));
        self
    }

    /// Declares each given symbolic link, in order.
    pub fn soft_links(&mut self, entries: Vec<(String, String)>) -> (r: &mut Self)
        ensures
            (*r)@ == spec_with_soft_links(old(self)@, entries@),
            *final(self) == *final(r),
    {
        let mut rest = entries;
        while rest.len() > 0
            invariant
                self@.soft_links + rest@ == old(self)@.soft_links + entries@,
                self@ == (SandboxModel { soft_links: self@.soft_links, ..old(self)@ }),
            decreases rest.len(),
        {
            let entry = rest.remove(0);
            self.soft_links.push(entry);
            proof {
                assert(self@.soft_links + rest@ =~= old(self)@.soft_links + entries@);
            }
        }
        proof {
            assert(self@.soft_links =~= self@.soft_links + rest@);
        }
        self
    }

    fn push_directory(&mut self, path: String)
        ensures
            final(self)@ == spec_with_directory(old(self)@, path),
    {
        let mut idx: usize = 0;
        while idx < self.directories.len()
            invariant
                0 <= idx <= self.directories.len(),
                *self == *old(self),
                forall|i: int| 0 <= i < idx ==> #[trigger] self.directories[i]@ != path@,
            decreases self.directories.len() - idx,
        {
            if self.directories[idx] == path {
                return ;
            }
            idx = idx + 1;
        }
        self.directories.push(path);
    }

    /// Declares an empty directory to create inside the sandbox; declaring
    /// the same path twice has no further effect.
    pub fn directory(&mut self, path: String) -> (r: &mut Self)
        ensures
            (*r)@ == spec_with_directory(old(self)@, path),
            *final(self) == *final(r),
    {
        self.push_directory(path);
        self
    }

    /// Declares each given directory, in order, skipping duplicates.
    pub fn directories(&mut self, paths: Vec<String>) -> (r: &mut Self)
        ensures
            (*r)@ == spec_with_directories(old(self)@, paths@),
            *final(self) == *final(r),
    {
        let mut rest = paths;
        while rest.len() > 0
            invariant
                spec_with_directories(self@, rest@) == spec_with_directories(old(self)@, paths@),
            decreases rest.len(),
        {
            let ghost prev = rest@;
            let entry = rest.remove(0);
            proof {
                assert(rest@ =~= prev.drop_first());
            }
            self.push_directory(entry);
        }
        self
    }

    /// Overrides the uid the confined process will run as.
    pub fn uid(&mut self, value: u32) -> (r: &mut Self)
        ensures
            (*r)@ == spec_with_uid(old(self)@, value),
            *final(self) == *final(r),
    {
        self.uid = Some(value);
        self
    }

    /// Overrides the gid the confined process will run as.
    pub fn gid(&mut self, value: u32) -> (r: &mut Self)
        ensures
            (*r)@ == spec_with_gid(old(self)@, value),
            *final(self) == *final(r),
    {
        self.gid = Some(value);
        self
    }

    /// Permits device nodes inside the sandbox.
    pub fn allow_devices(&mut self, enabled: bool) -> (r: &mut Self)
        ensures
            (*r)@ == spec_with_allow_devices(old(self)@, enabled),
            *final(self) == *final(r),
    {
        self.allow_devices = enabled;
        self
    }

    /// Permits local sockets inside the sandbox.
    pub fn allow_local_sockets(&mut self, enabled: bool) -> (r: &mut Self)
        ensures
            (*r)@ == spec_with_allow_local_sockets(old(self)@, enabled),
            *final(self) == *final(r),
    {
        self.allow_local_sockets = enabled;
        self
    }

    /// Keeps the host network reachable; when off, the sandbox gets a fresh
    /// network namespace with only loopback up.
    pub fn allow_network(&mut self, enabled: bool) -> (r: &mut Self)
        ensures
            (*r)@ == spec_with_allow_network(old(self)@, enabled),
            *final(self) == *final(r),
    {
        self.allow_network = enabled;
        self
    }

    /// Keeps the host process table and sysctl surface reachable; when off,
    /// the sandbox gets a fresh PID namespace.
    pub fn allow_sysctl(&mut self, enabled: bool) -> (r: &mut Self)
        ensures
            (*r)@ == spec_with_allow_sysctl(old(self)@, enabled),
            *final(self) == *final(r),
    {
        self.allow_sysctl = enabled;
        self
    }

    /// The declared mappings.
    pub fn get_mappings(&self) -> (r: &Mappings)
        ensures
            r@ == self@.mappings,
    {
        &self.mappings
    }

    /// The declared symbolic links.
    pub fn get_soft_links(&self) -> (r: &Vec<(String, String)>)
        ensures
            r@ == self@.soft_links,
    {
        &self.soft_links
    }

    /// The declared empty directories.
    pub fn get_directories(&self) -> (r: &Vec<String>)
        ensures
            r@ == self@.directories,
    {
        &self.directories
    }

    /// The uid override, if any.
    pub fn get_uid(&self) -> (r: Option<u32>)
        ensures
            r == self@.uid,
    {
        self.uid
    }

    /// The gid override, if any.
    pub fn get_gid(&self) -> (r: Option<u32>)
        ensures
            r == self@.gid,
    {
        self.gid
    }

    /// Whether device nodes are permitted.
    pub fn devices_allowed(&self) -> (r: bool)
        ensures
            r == self@.allow_devices,
    {
        self.allow_devices
    }

    /// Whether local sockets are permitted.
    pub fn local_sockets_allowed(&self) -> (r: bool)
        ensures
            r == self@.allow_local_sockets,
    {
        self.allow_local_sockets
    }

    /// Whether the host network stays reachable.
    pub fn network_allowed(&self) -> (r: bool)
        ensures
            r == self@.allow_network,
    {
        self.allow_network
    }

    /// Whether the host process table and sysctl surface stay reachable.
    pub fn sysctl_allowed(&self) -> (r: bool)
        ensures
            r == self@.allow_sysctl,
    {
        self.allow_sysctl
    }
}

/// No directory is declared twice (by value).
pub open spec fn spec_directories_unique(m: SandboxModel) -> bool {
    forall|i: int, j: int|
        0 <= i < j < m.directories.len() ==> (#[trigger] m.directories[i])@ != (
        #[trigger] m.directories[j])@
}

/// Law: the declared directories form a set — the default configuration
/// declares none, and declaring a directory never introduces a duplicate.
pub proof fn lemma_directories_stay_unique(m: SandboxModel, p: String)
    requires
        spec_directories_unique(m),
    ensures
        spec_directories_unique(spec_default_sandbox()),
        spec_directories_unique(spec_with_directory(m, p)),
{
    let after = spec_with_directory(m, p);
    if !(exists|i: int| 0 <= i < m.directories.len() && #[trigger] m.directories[i]@ == p@) {
        assert forall|i: int, j: int|
            0 <= i < j < after.directories.len() implies (#[trigger] after.directories[i])@ != (
        #[trigger] after.directories[j])@ by {
            if j == m.directories.len() {
                assert(after.directories[i] == m.directories[i]);
                assert(after.directories[j] == p);
            }
        }
    }
}

/// Law: repeating a value setter with the same value changes nothing — the
/// builder is idempotent in each of its scalar settings.
pub proof fn lemma_value_setters_idempotent(m: SandboxModel, u: u32, g: u32, b: bool)
    ensures
        spec_with_uid(spec_with_uid(m, u), u) == spec_with_uid(m, u),
        spec_with_gid(spec_with_gid(m, g), g) == spec_with_gid(m, g),
        spec_with_allow_devices(spec_with_allow_devices(m, b), b) == spec_with_allow_devices(m, b),
        spec_with_allow_local_sockets(spec_with_allow_local_sockets(m, b), b)
            == spec_with_allow_local_sockets(m, b),
        spec_with_allow_network(spec_with_allow_network(m, b), b) == spec_with_allow_network(m, b),
        spec_with_allow_sysctl(spec_with_allow_sysctl(m, b), b) == spec_with_allow_sysctl(m, b),
{
}

/// Law: declaring the same directory twice changes nothing.
pub proof fn lemma_directory_idempotent(m: SandboxModel, p: String)
    ensures
        spec_with_directory(spec_with_directory(m, p), p) == spec_with_directory(m, p),
{
    let once = spec_with_directory(m, p);
    if !(exists|i: int| 0 <= i < m.directories.len() && #[trigger] m.directories[i]@ == p@) {
        assert(once.directories[m.directories.len() as int]@ == p@);
    }
}

/// Law: value setters touching distinct settings commute — only the final
/// values matter, not the order of the calls.
pub proof fn lemma_value_setters_commute(m: SandboxModel, u: u32, g: u32, b1: bool, b2: bool)
    ensures
        spec_with_uid(spec_with_gid(m, g), u) == spec_with_gid(spec_with_uid(m, u), g),
        spec_with_allow_devices(spec_with_allow_network(m, b2), b1) == spec_with_allow_network(
            spec_with_allow_devices(m, b1),
            b2,
        ),
        spec_with_allow_devices(spec_with_allow_local_sockets(m, b2), b1)
            == spec_with_allow_local_sockets(spec_with_allow_devices(m, b1), b2),
        spec_with_allow_devices(spec_with_allow_sysctl(m, b2), b1) == spec_with_allow_sysctl(
            spec_with_allow_devices(m, b1),
            b2,
        ),
        spec_with_allow_local_sockets(spec_with_allow_network(m, b2), b1)
            == spec_with_allow_network(spec_with_allow_local_sockets(m, b1), b2),
        spec_with_allow_local_sockets(spec_with_allow_sysctl(m, b2), b1) == spec_with_allow_sysctl(
            spec_with_allow_local_sockets(m, b1),
            b2,
        ),
        spec_with_allow_network(spec_with_allow_sysctl(m, b2), b1) == spec_with_allow_sysctl(
            spec_with_allow_network(m, b1),
            b2,
        ),
        spec_with_uid(spec_with_allow_devices(m, b1), u) == spec_with_allow_devices(
            spec_with_uid(m, u),
            b1,
        ),
        spec_with_uid(spec_with_allow_network(m, b1), u) == spec_with_allow_network(
            spec_with_uid(m, u),
            b1,
        ),
        spec_with_uid(spec_with_allow_sysctl(m, b1), u) == spec_with_allow_sysctl(
            spec_with_uid(m, u),
            b1,
        ),
        spec_with_uid(spec_with_allow_local_sockets(m, b1), u) == spec_with_allow_local_sockets(
            spec_with_uid(m, u),
            b1,
        ),
        spec_with_gid(spec_with_allow_devices(m, b1), g) == spec_with_allow_devices(
            spec_with_gid(m, g),
            b1,
        ),
        spec_with_gid(spec_with_allow_network(m, b1), g) == spec_with_allow_network(
            spec_with_gid(m, g),
            b1,
        ),
        spec_with_gid(spec_with_allow_sysctl(m, b1), g) == spec_with_allow_sysctl(
            spec_with_gid(m, g),
            b1,
        ),
        spec_with_gid(spec_with_allow_local_sockets(m, b1), g) == spec_with_allow_local_sockets(
            spec_with_gid(m, g),
            b1,
        ),
{
}

/// Law: value setters commute with the declaration of mappings, links and
/// directories — policy and identity can be set before or after the
/// filesystem view is described.
pub proof fn lemma_value_setters_commute_with_declarations(
    m: SandboxModel,
    item: Mapping,
    src: String,
    dest: String,
    p: String,
    u: u32,
    b: bool,
)
    ensures
        spec_with_uid(spec_with_mount(m, item), u) == spec_with_mount(spec_with_uid(m, u), item),
        spec_with_uid(spec_with_soft_link(m, src, dest), u) == spec_with_soft_link(
            spec_with_uid(m, u),
            src,
            dest,
        ),
        spec_with_uid(spec_with_directory(m, p), u) == spec_with_directory(spec_with_uid(m, u), p),
        spec_with_allow_network(spec_with_mount(m, item), b) == spec_with_mount(
            spec_with_allow_network(m, b),
            item,
        ),
        spec_with_allow_network(spec_with_soft_link(m, src, dest), b) == spec_with_soft_link(
            spec_with_allow_network(m, b),
            src,
            dest,
        ),
        spec_with_allow_network(spec_with_directory(m, p), b) == spec_with_directory(
            spec_with_allow_network(m, b),
            p,
        ),
{
}

} // verus!
