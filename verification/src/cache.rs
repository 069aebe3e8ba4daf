//! The lazily-populated mapping from theme name to resolved theme chain.

use vstd::prelude::*;
use crate::icon_theme::IconThemeChain;
use crate::strutil::str_eq;

verus! {

/// The chain stored under a name: the first entry with that key.
pub open spec fn spec_cache_get(
    entries: Seq<(String, IconThemeChain)>,
    name: Seq<char>,
) -> Option<IconThemeChain>
    decreases entries.len(),
{
    if entries.len() == 0 {
        None
    } else if entries.first().0@ == name {
        Some(entries.first().1)
    } else {
        spec_cache_get(entries.drop_first(), name)
    }
}

/// Process-wide store of resolved theme chains, keyed by theme name,
/// append-only except on explicit invalidation.
#[derive(Clone, Debug)]
pub struct ThemeCache {
    entries: Vec<(String, IconThemeChain)>,
}

impl View for ThemeCache {
    type V = Seq<(String, IconThemeChain)>;

    closed spec fn view(&self) -> Seq<(String, IconThemeChain)> {
        self.entries@
    }
}

impl ThemeCache {
    /// An empty cache.
    pub fn new() -> (r: ThemeCache)
        ensures
            r@ =~= Seq::<(String, IconThemeChain)>::empty(),
    {
        ThemeCache { entries: Vec::new() }
    }

    /// The chain stored under a name, if any.
    pub fn get(&self, name: &str) -> (r: Option<&IconThemeChain>)
        ensures
            match r {
                Some(c) => spec_cache_get(self@, name@) == Some(*c),
                None => spec_cache_get(self@, name@) is None,
            },
    {
        let n: usize = self.entries.len();
        let mut i: usize = 0;
        assert(self@.subrange(0, n as int) =~= self@);
        while i < n
            invariant
                n == self.entries@.len(),
                0 <= i <= n,
                spec_cache_get(self@, name@) == spec_cache_get(
                    self@.subrange(i as int, n as int),
                    name@,
                ),
            decreases n - i,
        {
            proof {
                assert(self@.subrange(i as int, n as int).first() == self@[i as int]);
                assert(self@.subrange(i as int, n as int).drop_first() =~= self@.subrange(
                    i + 1,
                    n as int,
                ));
            }
            if str_eq(self.entries[i].0.as_str(), name) {
                return Some(&self.entries[i].1);
            }
            i = i + 1;
        }
        assert(self@.subrange(n as int, n as int).len() == 0);
        None
    }

    /// Whether a chain is stored under a name.
    pub fn contains_key(&self, name: &str) -> (r: bool)
        ensures
            r == (spec_cache_get(self@, name@) is Some),
    {
        match self.get(name) {
            Some(_) => true,
            None => false,
        }
    }

    /// Stores a chain under a name.
    pub fn insert(&mut self, name: String, chain: IconThemeChain)
        ensures
            final(self)@ == old(self)@.push((name, chain)),
    {
        self.entries.push((name, chain));
    }

    /// Discards every stored chain.
    pub fn clear(&mut self)
        ensures
            final(self)@ =~= Seq::<(String, IconThemeChain)>::empty(),
    {
        self.entries.clear();
    }
}

} // verus!
