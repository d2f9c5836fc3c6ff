//! The path model: absoluteness, component normalization, rerooting and
//! component-wise prefixes, over paths held as strings.
//!
//! A sandbox-side path must be absolute and normalized: after the root
//! marker it may hold only ordinary component names.  Lone-dot components
//! count as pre-stripped and pass; empty components (a doubled or trailing
//! separator, that is a second root marker) and parent-directory components
//! are refused.

use vstd::prelude::*;
use vstd::string::StrSliceExecFns;
use vstd::string::StringExecFns;

verus! {

/// A path is absolute when it begins with the root marker.
pub open spec fn spec_is_absolute(s: Seq<char>) -> bool {
    s.len() > 0 && s[0] == '/'
}

/// `i..j` delimits one component of the absolute path `s`: on both sides it
/// touches a separator, the root marker or the end of the path, and it holds
/// no separator inside.
pub open spec fn component_range(s: Seq<char>, i: int, j: int) -> bool {
    &&& 1 <= i <= j <= s.len()
    &&& (i == 1 || s[i - 1] == '/')
    &&& (j == s.len() || s[j] == '/')
    &&& (forall|k: int| i <= k < j ==> s[k] != '/')
}

/// A component is refused when it is empty (an extra separator) or names the
/// parent directory.
pub open spec fn refused_component(p: Seq<char>) -> bool {
    p.len() == 0 || p == seq!['.', '.']
}

/// An absolute path is normalized when every component after the root marker
/// is an ordinary name.  The bare root is normalized.
pub open spec fn spec_is_normalized(s: Seq<char>) -> bool {
    s.len() == 1 || forall|i: int, j: int|
        #[trigger] component_range(s, i, j) ==> !refused_component(s.subrange(i, j))
}

/// A sandbox-side path is accepted when it is absolute and normalized.
pub open spec fn spec_is_valid_sandbox_path(s: Seq<char>) -> bool {
    spec_is_absolute(s) && spec_is_normalized(s)
}

/// Two component ranges that end at the same separator begin at the same
/// place.
proof fn lemma_component_start_unique(s: Seq<char>, i1: int, i2: int, j: int)
    requires
        component_range(s, i1, j),
        component_range(s, i2, j),
    ensures
        i1 == i2,
{
    if i1 < i2 {
        assert(s[i2 - 1] == '/');
        assert(i1 <= i2 - 1 < j);
        assert(s[i2 - 1] != '/');
    }
    if i2 < i1 {
        assert(s[i1 - 1] == '/');
        assert(i2 <= i1 - 1 < j);
        assert(s[i1 - 1] != '/');
    }
}

/// Decides whether the component of `s` delimited by `i..j` is refused.
fn component_refused(s: &str, i: usize, j: usize) -> (r: bool)
    requires
        i <= j <= s@.len(),
    ensures
        r == refused_component(s@.subrange(i as int, j as int)),
{
    let ghost p = s@.subrange(i as int, j as int);
    assert(p.len() == j - i);
    let len = j - i;
    if len == 0 {
        true
    } else if len == 2 {
        let c0 = s.get_char(i);
        let c1 = s.get_char(i + 1);
        if c0 == '.' && c1 == '.' {
            proof {
                assert(p =~= seq!['.', '.']);
            }
            true
        } else {
            proof {
                if p == seq!['.', '.'] {
                    assert(p[0] == '.' && p[1] == '.');
                }
            }
            false
        }
    } else {
        proof {
            if p == seq!['.', '.'] {
                assert(p.len() == 2);
            }
        }
        false
    }
}

/// Decides whether `s` is absolute.
pub fn is_absolute(s: &str) -> (r: bool)
    ensures
        r == spec_is_absolute(s@),
{
    let n = s.unicode_len();
    if n == 0 {
        false
    } else {
        s.get_char(0) == '/'
    }
}

/// Decides whether the absolute path `s` is normalized.
pub fn is_normalized(s: &str) -> (r: bool)
    requires
        spec_is_absolute(s@),
    ensures
        r == spec_is_normalized(s@),
{
    let n = s.unicode_len();
    if n == 1 {
        return true;
    }
    let mut pos: usize = 1;
    let mut start: usize = 1;
    while pos < n
        invariant
            spec_is_absolute(s@),
            n == s@.len(),
            n > 1,
            1 <= start <= pos <= n,
            start == 1 || s@[start - 1] == '/',
            forall|k: int| start <= k < pos ==> s@[k] != '/',
            forall|i: int, j: int|
                #[trigger] component_range(s@, i, j) && j < start ==> !refused_component(
                    s@.subrange(i, j),
                ),
        decreases n - pos,
    {
        if s.get_char(pos) == '/' {
            if component_refused(s, start, pos) {
                proof {
                    assert(component_range(s@, start as int, pos as int));
                }
                return false;
            }
            proof {
                assert forall|i: int, j: int|
                    #[trigger] component_range(s@, i, j) && j < pos + 1 implies !refused_component(
                    s@.subrange(i, j),
                ) by {
                    if j < start {
                    } else if j == pos {
                        assert(component_range(s@, start as int, pos as int));
                        lemma_component_start_unique(s@, i, start as int, j);
                    } else {
                        // a range cannot end strictly inside the current
                        // separator-free run
                        assert(start <= j < pos);
                        assert(s@[j] != '/');
                        assert(j == s@.len() || s@[j] == '/');
                    }
                }
            }
            start = pos + 1;
        }
        pos = pos + 1;
    }
    if component_refused(s, start, n) {
        proof {
            assert(component_range(s@, start as int, n as int));
        }
        return false;
    }
    proof {
        assert forall|i: int, j: int| #[trigger] component_range(s@, i, j) implies !refused_component(
            s@.subrange(i, j),
        ) by {
            if j == n {
                assert(component_range(s@, start as int, n as int));
                lemma_component_start_unique(s@, i, start as int, j);
            } else if j >= start {
                assert(s@[j] != '/');
                assert(j == s@.len() || s@[j] == '/');
            }
        }
    }
    true
}

/// `p` lies at or under `base`, component-wise: `p` extends `base` and the
/// extension begins at a component boundary.
pub open spec fn spec_path_starts_with(p: Seq<char>, base: Seq<char>) -> bool {
    &&& base.len() <= p.len()
    &&& p.subrange(0, base.len() as int) == base
    &&& (p.len() == base.len() || p[base.len() as int] == '/' || (base.len() > 0 && base[
        base.len() - 1
    ] == '/'))
}

/// Decides whether `p` lies at or under `base`, component-wise.
pub fn path_starts_with(p: &str, base: &str) -> (r: bool)
    ensures
        r == spec_path_starts_with(p@, base@),
{
    let np = p.unicode_len();
    let nb = base.unicode_len();
    if nb > np {
        return false;
    }
    let mut k: usize = 0;
    while k < nb
        invariant
            nb <= np,
            np == p@.len(),
            nb == base@.len(),
            0 <= k <= nb,
            forall|m: int| 0 <= m < k ==> p@[m] == base@[m],
        decreases nb - k,
    {
        if p.get_char(k) != base.get_char(k) {
            proof {
                if p@.subrange(0, nb as int) == base@ {
                    assert(p@.subrange(0, nb as int)[k as int] == base@[k as int]);
                }
            }
            return false;
        }
        k = k + 1;
    }
    proof {
        assert(p@.subrange(0, nb as int) =~= base@);
    }
    if np == nb {
        return true;
    }
    if base.unicode_len() > 0 && base.get_char(nb - 1) == '/' {
        return true;
    }
    p.get_char(nb) == '/'
}

/// Translates the absolute path `path` to live under `prefix`, as when a
/// host path is read through the old root or a sandbox path is created under
/// the new root.  A path that is not absolute is refused.
pub fn reroot_path(prefix: &str, path: &str) -> (r: Result<String, crate::error::SandboxError>)
    ensures
        spec_is_absolute(path@) ==> (r matches Ok(s) && s@ == prefix@ + path@),
        !spec_is_absolute(path@) ==> (r matches Err(e) && e matches
            crate::error::SandboxError::NotRooted(q) && q@ == path@),
{
    if is_absolute(path) {
        let joined = String::from_str(prefix).concat(path);
        Ok(joined)
    } else {
        Err(crate::error::SandboxError::NotRooted(String::from_str(path)))
    }
}

} // verus!
