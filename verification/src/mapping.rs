//! Host-to-sandbox path bindings and their validation.

use vstd::prelude::*;
use vstd::string::StringExecFns;

use crate::error::SandboxError;
use crate::path::{
    is_absolute, is_normalized, spec_is_absolute, spec_is_normalized, spec_is_valid_sandbox_path,
};

verus! {

/// The abstract value of a `Mapping`: both paths as character sequences and
/// the writability bit.
pub struct MappingModel {
    pub sandbox: Seq<char>,
    pub host: Seq<char>,
    pub writable: bool,
}

/// One path binding: `host` is exposed inside the sandbox at `sandbox`,
/// read-only unless `writable`.
#[derive(Debug, PartialEq, Eq, PartialOrd, Ord)]
pub struct Mapping {
    sandbox: String,
    host: String,
    writable: bool,
}

impl View for Mapping {
    type V = MappingModel;

    closed spec fn view(&self) -> MappingModel {
        MappingModel { sandbox: self.sandbox@, host: self.host@, writable: self.writable }
    }
}

/// Which validation rule a refused sandbox path broke; the offending path is
/// carried verbatim.
#[derive(Clone, Debug, PartialEq, Eq)]
pub enum ErrorKind {
    NotAbsolute(String),
    NotNormalized(String),
}

/// The error returned when a mapping's sandbox path is refused.
#[derive(Clone, Debug, PartialEq, Eq)]
pub struct MappingError(pub ErrorKind);

impl MappingError {
    /// The human-readable description of the refusal.
    pub fn message(&self) -> (r: String)
        ensures
            self.0 matches ErrorKind::NotAbsolute(p) ==> r@ == "mount path `"@ + p@
                + "` is not absolute"@,
            self.0 matches ErrorKind::NotNormalized(p) ==> r@ == "host path `"@ + p@
                + "` is not normalized"@,
    {
        match &self.0 {
            ErrorKind::NotAbsolute(p) => String::from_str("mount path `").concat(p.as_str()).concat(
                "` is not absolute",
            ),
            ErrorKind::NotNormalized(p) => String::from_str("host path `").concat(
                p.as_str(),
            ).concat("` is not normalized"),
        }
    }
}

impl Clone for Mapping {
    fn clone(&self) -> (r: Self)
        ensures
            r == *self,
    {
        Mapping { sandbox: self.sandbox.clone(), host: self.host.clone(), writable: self.writable }
    }
}

impl Mapping {
    /// A mapping is well formed when its sandbox path is absolute and
    /// normalized.
    pub open spec fn wf(&self) -> bool {
        spec_is_valid_sandbox_path(self@.sandbox)
    }

    /// Validates the sandbox path and builds the mapping.  The first broken
    /// rule — absoluteness before normalization — names the error.
    pub fn from_parts(sandbox: String, host: String, writable: bool) -> (r: Result<
        Mapping,
        MappingError,
    >)
        ensures
            spec_is_valid_sandbox_path(sandbox@) ==> (r matches Ok(m) && m@.sandbox == sandbox@
                && m@.host == host@ && m@.writable == writable && m.wf()),
            !spec_is_absolute(sandbox@) ==> (r matches Err(e) && e.0 matches
                ErrorKind::NotAbsolute(p) && p@ == sandbox@),
            spec_is_absolute(sandbox@) && !spec_is_normalized(sandbox@) ==> (r matches Err(e)
                && e.0 matches ErrorKind::NotNormalized(p) && p@ == sandbox@),
    {
        if !is_absolute(sandbox.as_str()) {
            return Err(MappingError(ErrorKind::NotAbsolute(sandbox)));
        }
        if !is_normalized(sandbox.as_str()) {
            return Err(MappingError(ErrorKind::NotNormalized(sandbox)));
        }
        Ok(Mapping { sandbox, host, writable })
    }

    /// The path at which the binding appears inside the sandbox.
    pub fn sandbox_path(&self) -> (r: &String)
        ensures
            r@ == self@.sandbox,
    {
        &self.sandbox
    }

    /// The host-side path being exposed.
    pub fn host_path(&self) -> (r: &String)
        ensures
            r@ == self@.host,
    {
        &self.host
    }

    /// Whether the binding is writable inside the sandbox.
    pub fn is_writable(&self) -> (r: bool)
        ensures
            r == self@.writable,
    {
        self.writable
    }
}

/// Law: every well-formed mapping carries a sandbox path that is absolute
/// and holds only ordinary components after the root marker.
pub proof fn lemma_wf_mapping_sandbox_path(m: &Mapping)
    requires
        m.wf(),
    ensures
        spec_is_absolute(m@.sandbox),
        spec_is_normalized(m@.sandbox),
{
}

/// An ordered list of mappings; later entries stack over earlier ones as
/// separate mounts and never replace them.
#[derive(Debug)]
pub struct Mappings(pub Vec<Mapping>);

impl View for Mappings {
    type V = Seq<Mapping>;

    open spec fn view(&self) -> Seq<Mapping> {
        self.0@
    }
}

impl Default for Mappings {
    /// The empty mapping list.
    fn default() -> (r: Self)
        ensures
            r@ == Seq::<Mapping>::empty(),
    {
        Mappings(Vec::new())
    }
}

impl Clone for Mappings {
    fn clone(&self) -> (r: Self)
        ensures
            r@ == self@,
    {
        let mut copy: Vec<Mapping> = Vec::new();
        let mut idx: usize = 0;
        while idx < self.0.len()
            invariant
                0 <= idx <= self.0.len(),
                copy@ =~= self.0@.subrange(0, idx as int),
            decreases self.0.len() - idx,
        {
            copy.push(self.0[idx].clone());
            proof {
                assert(copy@ =~= self.0@.subrange(0, idx + 1));
            }
            idx = idx + 1;
        }
        proof {
            assert(copy@ =~= self.0@);
        }
        Mappings(copy)
    }
}

/// Relies on `std::path::Path::canonicalize`: it returns the canonical,
/// absolute form of the path with every symbolic link resolved, by querying
/// the filesystem, and fails when the path is missing or unreadable.
#[verifier::external_body]
fn canonicalize_host(host: &String) -> (r: Result<String, SandboxError>)
    ensures
        r matches Ok(s) ==> spec_is_absolute(s@),
{
    match std::path::Path::new(host.as_str()).canonicalize() {
        Ok(resolved) => Ok(resolved.to_string_lossy().into_owned()),
        Err(err) => Err(SandboxError::Io(err.to_string())),
    }
}

impl Mappings {
    /// Appends one mapping at the end of the list.
    pub fn push(&mut self, item: Mapping)
        ensures
            final(self)@ == old(self)@.push(item),
    {
        self.0.push(item);
    }

    /// Removes every mapping.
    pub fn clear(&mut self)
        ensures
            final(self)@ == Seq::<Mapping>::empty(),
    {
        self.0.clear();
    }

    /// Appends every mapping of `items`, in order.
    pub fn extend(&mut self, items: Vec<Mapping>)
        ensures
            final(self)@ == old(self)@ + items@,
    {
        let mut rest = items;
        while rest.len() > 0
            invariant
                self@ + rest@ == old(self)@ + items@,
            decreases rest.len(),
        {
            let m = rest.remove(0);
            self.0.push(m);
            proof {
                assert(self@ + rest@ =~= old(self)@ + items@);
            }
        }
        proof {
            assert(final(self)@ =~= final(self)@ + rest@);
        }
    }

    /// Replaces each host path with its canonical form, all symbolic links
    /// expanded, and returns the new list; the first failure is returned
    /// instead.  Sandbox paths, order and writability are kept.
    pub fn resolve_symlinks(&self) -> (r: Result<Vec<Mapping>, SandboxError>)
        ensures
            r matches Ok(v) ==> {
                &&& v@.len() == self@.len()
                &&& forall|i: int|
                    0 <= i < v@.len() ==> {
                        &&& (#[trigger] v@[i])@.sandbox == self@[i]@.sandbox
                        &&& v@[i]@.writable == self@[i]@.writable
                        &&& spec_is_absolute(v@[i]@.host)
                        &&& (self@[i].wf() ==> v@[i].wf())
                    }
            },
            self@.len() == 0 ==> (r matches Ok(v) && v@.len() == 0),
            r is Err ==> self@.len() > 0,
    {
        let mut acc: Vec<Mapping> = Vec::new();
        let mut idx: usize = 0;
        while idx < self.0.len()
            invariant
                0 <= idx <= self.0.len(),
                acc@.len() == idx,
                forall|i: int|
                    0 <= i < idx ==> {
                        &&& (#[trigger] acc@[i])@.sandbox == self@[i]@.sandbox
                        &&& acc@[i]@.writable == self@[i]@.writable
                        &&& spec_is_absolute(acc@[i]@.host)
                        &&& (self@[i].wf() ==> acc@[i].wf())
                    },
            decreases self.0.len() - idx,
        {
            let entry = &self.0[idx];
            match canonicalize_host(&entry.host) {
                Ok(resolved) => {
                    acc.push(
                        Mapping {
                            sandbox: entry.sandbox.clone(),
                            host: resolved,
                            writable: entry.writable,
                        },
                    );
                },
                Err(err) => {
                    return Err(err);
                },
            }
            idx = idx + 1;
        }
        Ok(acc)
    }
}

} // verus!
