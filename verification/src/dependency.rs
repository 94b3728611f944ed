//! Unresolved include names and their resolution against a search list.
//!
//! A dependency is the text between the delimiters of an `#include`
//! directive.  Resolving it walks an ordered list of directories; the first
//! directory that contains an entry of that name wins.  Whether a candidate
//! exists is a property of the disk at the moment of the probe, so the
//! probe's outcome itself carries no promise; the choice *over* the probe
//! outcomes — first hit wins, nothing found means no file — is the
//! library's own logic and is verified in [`Dependency::pick_first`].

use vstd::prelude::*;

verus! {

use crate::strutil::join_path;

/// An include name waiting to be resolved to a file.
#[derive(Debug, Clone)]
pub struct Dependency {
    pub name: String,
}

/// Index of the first successful probe, if any probe succeeded.
pub open spec fn first_hit(found: Seq<bool>) -> Option<int>
    decreases found.len(),
{
    if found.len() == 0 {
        None
    } else if found[0] {
        Some(0int)
    } else {
        match first_hit(found.skip(1)) {
            Some(j) => Some(j + 1),
            None => None,
        }
    }
}

proof fn lemma_first_hit_at(found: Seq<bool>, i: int)
    requires
        0 <= i < found.len(),
        found[i],
        forall|k: int| 0 <= k < i ==> !found[k],
    ensures
        first_hit(found) == Some(i),
    decreases i,
{
    if i > 0 {
        lemma_first_hit_at(found.skip(1), i - 1);
    }
}

proof fn lemma_first_hit_in_range(found: Seq<bool>)
    ensures
        first_hit(found) matches Some(j) ==> 0 <= j < found.len() && found[j],
    decreases found.len(),
{
    if found.len() > 0 && !found[0] {
        lemma_first_hit_in_range(found.skip(1));
    }
}

proof fn lemma_first_hit_none(found: Seq<bool>)
    requires
        forall|k: int| 0 <= k < found.len() ==> !found[k],
    ensures
        first_hit(found) is None,
    decreases found.len(),
{
    if found.len() > 0 {
        lemma_first_hit_none(found.skip(1));
    }
}

/// Relies on `std::path::Path::exists`: whether the path points at an
/// existing filesystem entity at the moment of the call.
#[verifier::external_body]
fn path_exists(path: &str) -> bool {
    std::path::Path::new(path).exists()
}

impl Dependency {
    /// Wrap an include name.
    pub fn new(name: String) -> (r: Dependency)
        ensures
            r.name == name,
    {
        Dependency { name }
    }

    /// Probe whether `<path>/<name>` exists on disk right now.
    pub fn is_exist_in(&self, path: &str) -> bool {
        let candidate = join_path(path, self.name.as_str());
        path_exists(candidate.as_str())
    }

    /// The resolution decision over the probe outcomes: the first directory
    /// whose probe succeeded wins, and nothing resolves exactly when every
    /// probe failed.
    pub fn pick_first(&self, directories_for_search: &Vec<String>, found: &Vec<bool>) -> (r: Option<
        String,
    >)
        requires
            found@.len() == directories_for_search@.len(),
        ensures
            match first_hit(found@) {
                Some(j) => r matches Some(p) && p@ == directories_for_search@[j]@ + seq!['/']
                    + self.name@,
                None => r is None,
            },
    {
        let n = directories_for_search.len();
        let mut i: usize = 0;
        while i < n
            invariant
                i <= n,
                n == directories_for_search@.len(),
                n == found@.len(),
                forall|k: int| 0 <= k < i ==> !found@[k],
            decreases n - i,
        {
            if found[i] {
                proof {
                    lemma_first_hit_at(found@, i as int);
                }
                let p = join_path(directories_for_search[i].as_str(), self.name.as_str());
                return Some(p);
            }
            i = i + 1;
        }
        proof {
            lemma_first_hit_none(found@);
        }
        None
    }

    /// Resolve the name against the search list: probe each directory once,
    /// in order, and let the verified chooser take the first hit.  Every
    /// returned path is `<dir>/<name>` for some directory of the list; which
    /// one — and whether any — depends on what is on disk when the probes
    /// run.
    pub fn get_file_from_path(&self, directories_for_search: &Vec<String>) -> (r: Option<String>)
        ensures
            r matches Some(p) ==> exists|i: int|
                0 <= i < directories_for_search@.len() && p@ == directories_for_search@[i]@
                    + seq!['/'] + self.name@,
    {
        let n = directories_for_search.len();
        let mut found: Vec<bool> = Vec::new();
        let mut i: usize = 0;
        while i < n
            invariant
                i <= n,
                n == directories_for_search@.len(),
                found@.len() == i,
            decreases n - i,
        {
            found.push(self.is_exist_in(directories_for_search[i].as_str()));
            i = i + 1;
        }
        let r = self.pick_first(directories_for_search, &found);
        proof {
            lemma_first_hit_in_range(found@);
        }
        r
    }
}

} // verus!
