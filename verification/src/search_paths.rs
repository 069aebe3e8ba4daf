//! The configured list of directories that are searched for icon themes.

use vstd::prelude::*;
use crate::strutil::{str_eq, strs_view};

verus! {

/// Enum that provides a list of directories to search for icons in.
#[derive(Clone, Debug)]
pub enum SearchPaths {
    /// The platform's own icon directories, as the caller reports them.
    System,
    /// A custom set of paths.
    Custom(Vec<String>),
}

/// The search roots a configuration stands for, given the platform's own
/// list.
pub open spec fn spec_roots(sp: SearchPaths, system: Seq<String>) -> Seq<Seq<char>> {
    match sp {
        SearchPaths::System => strs_view(system),
        SearchPaths::Custom(v) => strs_view(v@),
    }
}

/// Whether two configurations name the same directories.
pub open spec fn spec_paths_eq(a: SearchPaths, b: SearchPaths) -> bool {
    match (a, b) {
        (SearchPaths::System, SearchPaths::System) => true,
        (SearchPaths::Custom(x), SearchPaths::Custom(y)) => strs_view(x@) == strs_view(y@),
        _ => false,
    }
}

impl SearchPaths {
    /// Creates a custom `SearchPaths` from a list of directories.
    pub fn custom(paths: Vec<String>) -> (r: SearchPaths)
        ensures
            r matches SearchPaths::Custom(v) && strs_view(v@) == strs_view(paths@),
    {
        SearchPaths::Custom(paths)
    }

    /// The search roots this configuration stands for; `system` is the
    /// platform's own list, used by the `System` variant.
    pub fn paths<'a>(&'a self, system: &'a Vec<String>) -> (r: &'a Vec<String>)
        ensures
            strs_view(r@) == spec_roots(*self, system@),
    {
        match self {
            SearchPaths::System => system,
            SearchPaths::Custom(v) => v,
        }
    }

    /// Whether this configuration names the same directories as another.
    pub fn same_as(&self, other: &SearchPaths) -> (r: bool)
        ensures
            r == spec_paths_eq(*self, *other),
    {
        match (self, other) {
            (SearchPaths::System, SearchPaths::System) => true,
            (SearchPaths::Custom(x), SearchPaths::Custom(y)) => {
                let n: usize = x.len();
                if y.len() != n {
                    assert(strs_view(x@).len() != strs_view(y@).len());
                    return false;
                }
                let mut i: usize = 0;
                let mut same = true;
                while i < n
                    invariant
                        n == x@.len(),
                        n == y@.len(),
                        0 <= i <= n,
                        same == (forall|k: int|
                            0 <= k < i ==> strs_view(x@)[k] == strs_view(y@)[k]),
                    decreases n - i,
                {
                    if !str_eq(x[i].as_str(), y[i].as_str()) {
                        assert(strs_view(x@)[i as int] != strs_view(y@)[i as int]);
                        same = false;
                    }
                    i = i + 1;
                }
                if same {
                    assert(strs_view(x@) =~= strs_view(y@));
                } else {
                    assert(strs_view(x@) != strs_view(y@));
                }
                same
            },
            _ => false,
        }
    }
}

} // verus!
