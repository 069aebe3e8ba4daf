//! The central icon loader: configured names and search roots, the cache
//! of resolved theme chains, and the inheritance-graph lookup.

use vstd::prelude::*;
use vstd::set_lib::lemma_len_subset;
use vstd::seq_lib::seq_to_set_is_finite;
use crate::cache::{ThemeCache, spec_cache_get};
use crate::disk::{Disk, ThemeDirData};
use crate::error::{Error, ProviderError};
use crate::icon::{Icon, IconV, spec_icon_wf};
use crate::icon_theme::{IconThemeChain, spec_chain_find_icon, spec_chain_of,
    spec_chain_partial, spec_add_unique, spec_parents_contribution};
use crate::search_paths::{SearchPaths, spec_paths_eq, spec_roots};
use crate::strutil::{contains_str, lemma_contains_str_view, str_eq, strs_view};
use crate::theme_name_provider::{ThemeNameProvider, spec_provider_eq};

verus! {

/// The mathematical value of an [`IconLoader`].
pub ghost struct LoaderV {
    pub theme_name: Seq<char>,
    pub fallback_theme_name: Seq<char>,
    pub cache: Seq<(String, IconThemeChain)>,
    pub search_paths: SearchPaths,
    pub provider: ThemeNameProvider,
}

/// The central icon loader struct.
///
/// It lets you load named theme icons from system themes as well as custom
/// themes; what it reads from disk is handed in as a [`Disk`] value.
#[derive(Debug)]
pub struct IconLoader {
    theme_name: String,
    fallback_theme_name: String,
    theme_cache: ThemeCache,
    search_paths: SearchPaths,
    theme_name_provider: ThemeNameProvider,
}

impl View for IconLoader {
    type V = LoaderV;

    closed spec fn view(&self) -> LoaderV {
        LoaderV {
            theme_name: self.theme_name@,
            fallback_theme_name: self.fallback_theme_name@,
            cache: self.theme_cache@,
            search_paths: self.search_paths,
            provider: self.theme_name_provider,
        }
    }
}

/// Every cached chain is the one the disk and roots yield for its name:
/// what holds of a cache that was filled against this disk and these roots
/// and not invalidated since.
pub open spec fn cache_consistent(
    entries: Seq<(String, IconThemeChain)>,
    dirs: Seq<ThemeDirData>,
    roots: Seq<Seq<char>>,
) -> bool {
    forall|k: int|
        0 <= k < entries.len() ==> (#[trigger] entries[k]).1@ == spec_chain_of(
            dirs,
            entries[k].0@,
            roots,
        )
}

/// The loader's configuration, without the cache.
pub open spec fn spec_config_of(l: LoaderV) -> (Seq<char>, Seq<char>, SearchPaths,
    ThemeNameProvider) {
    (l.theme_name, l.fallback_theme_name, l.search_paths, l.provider)
}

/// In a consistent cache, whatever is found under a name is the chain the
/// disk yields for it.
proof fn lemma_cache_get_consistent(
    entries: Seq<(String, IconThemeChain)>,
    dirs: Seq<ThemeDirData>,
    roots: Seq<Seq<char>>,
    name: Seq<char>,
)
    requires
        cache_consistent(entries, dirs, roots),
    ensures
        match spec_cache_get(entries, name) {
            Some(c) => c@ == spec_chain_of(dirs, name, roots),
            None => true,
        },
    decreases entries.len(),
{
    if entries.len() > 0 && entries.first().0@ != name {
        assert forall|k: int| 0 <= k < entries.drop_first().len() implies (#[trigger] entries.drop_first()[k]).1@
            == spec_chain_of(dirs, entries.drop_first()[k].0@, roots) by {
            assert(entries.drop_first()[k] == entries[k + 1]);
        }
        lemma_cache_get_consistent(entries.drop_first(), dirs, roots, name);
    }
}

/// What a lookup finds after one entry is appended.
proof fn lemma_cache_get_push(
    entries: Seq<(String, IconThemeChain)>,
    e: (String, IconThemeChain),
    name: Seq<char>,
)
    ensures
        spec_cache_get(entries.push(e), name) == (match spec_cache_get(entries, name) {
            Some(c) => Some(c),
            None => if e.0@ == name {
                Some(e.1)
            } else {
                None
            },
        }),
    decreases entries.len(),
{
    let pushed = entries.push(e);
    if entries.len() == 0 {
        assert(pushed.first() == e);
        assert(pushed.drop_first() =~= Seq::<(String, IconThemeChain)>::empty());
        assert(spec_cache_get(pushed.drop_first(), name) is None);
        assert(spec_cache_get(entries, name) is None);
    } else {
        assert(pushed.first() == entries.first());
        assert(pushed.drop_first() =~= entries.drop_first().push(e));
        lemma_cache_get_push(entries.drop_first(), e, name);
        assert(spec_cache_get(pushed, name) == (if pushed.first().0@ == name {
            Some(pushed.first().1)
        } else {
            spec_cache_get(pushed.drop_first(), name)
        }));
        assert(spec_cache_get(entries, name) == (if entries.first().0@ == name {
            Some(entries.first().1)
        } else {
            spec_cache_get(entries.drop_first(), name)
        }));
    }
}

/// The parent names that any index on the disk declares, over all probed
/// theme directories.
pub open spec fn spec_disk_parent_names(dirs: Seq<ThemeDirData>) -> Seq<Seq<char>>
    decreases dirs.len(),
{
    if dirs.len() == 0 {
        Seq::empty()
    } else {
        spec_disk_parent_names(dirs.drop_last()) + spec_parents_contribution(dirs.last().source)
    }
}

/// The parent names held by the cached chains.
pub open spec fn spec_cache_parents(entries: Seq<(String, IconThemeChain)>) -> Set<Seq<char>>
    decreases entries.len(),
{
    if entries.len() == 0 {
        Set::empty()
    } else {
        spec_cache_parents(entries.drop_last()).union(entries.last().1@.parents.to_set())
    }
}

/// The theme names a traversal that starts from `queue` can ever reach:
/// the queue itself, whatever any index on the disk declares as a parent,
/// and the universal fallback.
pub open spec fn spec_universe(dirs: Seq<ThemeDirData>, queue: Seq<Seq<char>>) -> Set<Seq<char>> {
    queue.to_set().union(spec_disk_parent_names(dirs).to_set()).insert("hicolor"@)
}

proof fn lemma_concat_contains<T>(a: Seq<T>, b: Seq<T>, x: T)
    requires
        a.contains(x) || b.contains(x),
    ensures
        (a + b).contains(x),
{
    if a.contains(x) {
        let i = choose|i: int| 0 <= i < a.len() && a[i] == x;
        assert((a + b)[i] == x);
    } else {
        let i = choose|i: int| 0 <= i < b.len() && b[i] == x;
        assert((a + b)[a.len() + i] == x);
    }
}

/// Each probed directory's parent contribution is among the disk's parent
/// names.
proof fn lemma_entry_contribution_subset(dirs: Seq<ThemeDirData>, k: int)
    requires
        0 <= k < dirs.len(),
    ensures
        spec_parents_contribution(dirs[k].source).to_set().subset_of(
            spec_disk_parent_names(dirs).to_set(),
        ),
    decreases dirs.len(),
{
    let c = spec_parents_contribution(dirs[k].source);
    if k == dirs.len() - 1 {
        assert forall|x: Seq<char>| c.to_set().contains(x) implies spec_disk_parent_names(
            dirs,
        ).to_set().contains(x) by {
            lemma_concat_contains(
                spec_disk_parent_names(dirs.drop_last()),
                spec_parents_contribution(dirs.last().source),
                x,
            );
        }
    } else {
        assert(dirs.drop_last()[k] == dirs[k]);
        lemma_entry_contribution_subset(dirs.drop_last(), k);
        assert forall|x: Seq<char>| c.to_set().contains(x) implies spec_disk_parent_names(
            dirs,
        ).to_set().contains(x) by {
            lemma_concat_contains(
                spec_disk_parent_names(dirs.drop_last()),
                spec_parents_contribution(dirs.last().source),
                x,
            );
        }
    }
}

/// The source found for a probed directory is one of the recorded entries,
/// unless nothing was recorded.
proof fn lemma_source_for_entry(dirs: Seq<ThemeDirData>, root: Seq<char>, name: Seq<char>)
    ensures
        crate::disk::spec_source_for(dirs, root, name) == crate::disk::IndexSource::NotADirectory
            || exists|k: int|
            0 <= k < dirs.len() && (#[trigger] dirs[k]).source == crate::disk::spec_source_for(
                dirs,
                root,
                name,
            ),
    decreases dirs.len(),
{
    if dirs.len() > 0 {
        if dirs.first().root@ == root && dirs.first().theme@ == name {
            assert(dirs[0].source == crate::disk::spec_source_for(dirs, root, name));
        } else {
            lemma_source_for_entry(dirs.drop_first(), root, name);
            let s = crate::disk::spec_source_for(dirs.drop_first(), root, name);
            if s != crate::disk::IndexSource::NotADirectory {
                let k = choose|k: int|
                    0 <= k < dirs.drop_first().len() && (#[trigger] dirs.drop_first()[k]).source
                        == s;
                assert(dirs[k + 1] == dirs.drop_first()[k]);
            }
        }
    }
}

/// What a found source contributes is among the disk's parent names.
proof fn lemma_source_contribution_subset(dirs: Seq<ThemeDirData>, root: Seq<char>, name: Seq<char>)
    ensures
        spec_parents_contribution(crate::disk::spec_source_for(dirs, root, name)).to_set().subset_of(
            spec_disk_parent_names(dirs).to_set(),
        ),
{
    lemma_source_for_entry(dirs, root, name);
    let s = crate::disk::spec_source_for(dirs, root, name);
    if s == crate::disk::IndexSource::NotADirectory {
        assert(spec_parents_contribution(s) =~= Seq::<Seq<char>>::empty());
    } else {
        let k = choose|k: int| 0 <= k < dirs.len() && (#[trigger] dirs[k]).source == s;
        lemma_entry_contribution_subset(dirs, k);
    }
}

/// Deduplicated accumulation adds nothing new.
proof fn lemma_add_unique_subset(acc: Seq<Seq<char>>, names: Seq<Seq<char>>)
    ensures
        spec_add_unique(acc, names).to_set().subset_of(acc.to_set().union(names.to_set())),
    decreases names.len(),
{
    if names.len() > 0 {
        lemma_add_unique_subset(acc, names.drop_last());
        let prev = spec_add_unique(acc, names.drop_last());
        assert forall|x: Seq<char>| spec_add_unique(acc, names).to_set().contains(x) implies
            acc.to_set().union(names.to_set()).contains(x) by {
            if prev.contains(x) {
                assert(prev.to_set().contains(x));
                if names.drop_last().contains(x) {
                    let i = choose|i: int| 0 <= i < names.drop_last().len() && names.drop_last()[i]
                        == x;
                    assert(names[i] == x);
                }
            } else {
                assert(x == names.last());
                assert(names.contains(x));
            }
        }
    }
}

/// The pooled parents of a chain stay among the disk's parent names.
proof fn lemma_chain_partial_parents_subset(
    dirs: Seq<ThemeDirData>,
    name: Seq<char>,
    roots: Seq<Seq<char>>,
)
    ensures
        spec_chain_partial(dirs, name, roots).1.to_set().subset_of(
            spec_disk_parent_names(dirs).to_set(),
        ),
    decreases roots.len(),
{
    if roots.len() > 0 {
        lemma_chain_partial_parents_subset(dirs, name, roots.drop_last());
        let prev = spec_chain_partial(dirs, name, roots.drop_last());
        let added_names = spec_parents_contribution(
            crate::disk::spec_source_for(dirs, roots.last(), name),
        );
        lemma_add_unique_subset(prev.1, added_names);
        lemma_source_contribution_subset(dirs, roots.last(), name);
    }
}

/// A chain's parent list stays among the disk's parent names, plus the
/// universal fallback.
proof fn lemma_chain_parents_subset(dirs: Seq<ThemeDirData>, name: Seq<char>, roots: Seq<Seq<char>>)
    ensures
        spec_chain_of(dirs, name, roots).parents.to_set().subset_of(
            spec_disk_parent_names(dirs).to_set().insert("hicolor"@),
        ),
{
    broadcast use vstd::seq_lib::group_seq_properties;
    broadcast use vstd::set::group_set_axioms;

    lemma_chain_partial_parents_subset(dirs, name, roots);
    let pair = spec_chain_partial(dirs, name, roots);
    if !pair.1.contains("hicolor"@) {
        pair.1.lemma_push_to_set_commute("hicolor"@);
    }
}

/// A cached chain's parents are among the cache's pooled parent names.
proof fn lemma_cache_entry_parents(entries: Seq<(String, IconThemeChain)>, k: int)
    requires
        0 <= k < entries.len(),
    ensures
        entries[k].1@.parents.to_set().subset_of(spec_cache_parents(entries)),
    decreases entries.len(),
{
    if k < entries.len() - 1 {
        assert(entries.drop_last()[k] == entries[k]);
        lemma_cache_entry_parents(entries.drop_last(), k);
    }
}

/// What the cache hands out under a name is one of its entries.
proof fn lemma_cache_get_entry(entries: Seq<(String, IconThemeChain)>, name: Seq<char>)
    ensures
        match spec_cache_get(entries, name) {
            Some(c) => exists|k: int| 0 <= k < entries.len() && (#[trigger] entries[k]).1 == c,
            None => true,
        },
    decreases entries.len(),
{
    if entries.len() > 0 {
        if entries.first().0@ == name {
            assert(entries[0].1 == entries.first().1);
        } else {
            lemma_cache_get_entry(entries.drop_first(), name);
            match spec_cache_get(entries.drop_first(), name) {
                Some(c) => {
                    let k = choose|k: int|
                        0 <= k < entries.drop_first().len() && (#[trigger] entries.drop_first()[
                            k]).1 == c;
                    assert(entries[k + 1] == entries.drop_first()[k]);
                },
                None => {
                },
            }
        }
    }
}

proof fn lemma_cache_parents_finite(entries: Seq<(String, IconThemeChain)>)
    ensures
        spec_cache_parents(entries).finite(),
    decreases entries.len(),
{
    broadcast use seq_to_set_is_finite;
    broadcast use vstd::set::group_set_axioms;

    if entries.len() > 0 {
        lemma_cache_parents_finite(entries.drop_last());
    }
}

/// The cycle-safe walk of the inheritance graph: pop the queue front; a
/// name already seen is discarded; an empty name finds nothing; otherwise
/// the first theme whose chain holds files for the icon wins, and a
/// chain without a match pushes its parents onto the queue front.
pub open spec fn spec_traverse(
    dirs: Seq<ThemeDirData>,
    files: Seq<String>,
    roots: Seq<Seq<char>>,
    queue: Seq<Seq<char>>,
    seen: Set<Seq<char>>,
    icon: Seq<char>,
) -> Option<IconV>
    decreases spec_universe(dirs, queue).difference(seen).len(), queue.len(),
        via spec_traverse_dec
{
    if queue.len() == 0 {
        None
    } else {
        let head = queue.first();
        let rest = queue.drop_first();
        if seen.contains(head) || head.len() == 0 {
            spec_traverse(dirs, files, roots, rest, seen, icon)
        } else {
            let chain = spec_chain_of(dirs, head, roots);
            match spec_chain_find_icon(chain, icon, files) {
                Some(iv) => Some(iv),
                None => spec_traverse(
                    dirs,
                    files,
                    roots,
                    chain.parents + rest,
                    seen.insert(head),
                    icon,
                ),
            }
        }
    }
}

#[via_fn]
proof fn spec_traverse_dec(
    dirs: Seq<ThemeDirData>,
    files: Seq<String>,
    roots: Seq<Seq<char>>,
    queue: Seq<Seq<char>>,
    seen: Set<Seq<char>>,
    icon: Seq<char>,
) {
    broadcast use seq_to_set_is_finite;
    broadcast use vstd::set::group_set_axioms;

    if queue.len() > 0 {
        let head = queue.first();
        let rest = queue.drop_first();
        let u = spec_universe(dirs, queue);
        let ur = spec_universe(dirs, rest);
        assert(u.finite());
        assert forall|x: Seq<char>| ur.contains(x) implies u.contains(x) by {
            if rest.to_set().contains(x) {
                let i = choose|i: int| 0 <= i < rest.len() && rest[i] == x;
                assert(queue[i + 1] == x);
            }
        }
        lemma_len_subset(ur.difference(seen), u.difference(seen));
        if !(seen.contains(head) || head.len() == 0) {
            let chain = spec_chain_of(dirs, head, roots);
            if spec_chain_find_icon(chain, icon, files) is None {
                let q2 = chain.parents + rest;
                let u2 = spec_universe(dirs, q2);
                let s2 = seen.insert(head);
                lemma_chain_parents_subset(dirs, head, roots);
                assert forall|x: Seq<char>| u2.contains(x) implies u.contains(x) by {
                    if q2.to_set().contains(x) {
                        let i = choose|i: int| 0 <= i < q2.len() && q2[i] == x;
                        if i < chain.parents.len() {
                            assert(chain.parents.to_set().contains(x));
                        } else {
                            assert(queue[i - chain.parents.len() + 1] == x);
                        }
                    }
                }
                assert(queue[0] == head);
                assert(u.contains(head));
                assert(u.difference(seen).contains(head));
                assert(u2.difference(s2).subset_of(u.difference(seen).remove(head)));
                lemma_len_subset(u2.difference(s2), u.difference(seen).remove(head));
                assert(u.difference(seen).remove(head).len() == u.difference(seen).len() - 1);
            }
        }
    }
}

/// Every chain's parent list names the universal fallback.
proof fn lemma_chain_has_hicolor(dirs: Seq<ThemeDirData>, name: Seq<char>, roots: Seq<Seq<char>>)
    ensures
        spec_chain_of(dirs, name, roots).parents.contains("hicolor"@),
{
    let pair = spec_chain_partial(dirs, name, roots);
    if !pair.1.contains("hicolor"@) {
        assert(pair.1.push("hicolor"@)[pair.1.len() as int] == "hicolor"@);
    }
}

/// The walk cannot end empty-handed while an unseen, non-empty name is
/// still queued and the universal fallback theme itself holds the icon:
/// every processed theme queues `hicolor` among its parents, and when
/// `hicolor` is processed the icon is found. In particular, cyclic
/// `Inherits` declarations can delay but not prevent the fallback.
pub proof fn lemma_traverse_finds_fallback(
    dirs: Seq<ThemeDirData>,
    files: Seq<String>,
    roots: Seq<Seq<char>>,
    queue: Seq<Seq<char>>,
    seen: Set<Seq<char>>,
    icon: Seq<char>,
)
    requires
        spec_chain_find_icon(spec_chain_of(dirs, "hicolor"@, roots), icon, files) is Some,
        !seen.contains("hicolor"@),
        exists|i: int| 0 <= i < queue.len() && (#[trigger] queue[i]).len() > 0 && !seen.contains(
            queue[i],
        ),
    ensures
        spec_traverse(dirs, files, roots, queue, seen, icon) is Some,
    decreases spec_universe(dirs, queue).difference(seen).len(), queue.len(),
{
    broadcast use seq_to_set_is_finite;
    broadcast use vstd::set::group_set_axioms;

    let wi = choose|i: int|
        0 <= i < queue.len() && (#[trigger] queue[i]).len() > 0 && !seen.contains(queue[i]);
    let head = queue.first();
    let rest = queue.drop_first();
    let u = spec_universe(dirs, queue);
    let ur = spec_universe(dirs, rest);
    assert(u.finite());
    assert forall|x: Seq<char>| ur.contains(x) implies u.contains(x) by {
        if rest.to_set().contains(x) {
            let i = choose|i: int| 0 <= i < rest.len() && rest[i] == x;
            assert(queue[i + 1] == x);
        }
    }
    lemma_len_subset(ur.difference(seen), u.difference(seen));
    if seen.contains(head) || head.len() == 0 {
        assert(wi > 0);
        assert(rest[wi - 1] == queue[wi]);
        lemma_traverse_finds_fallback(dirs, files, roots, rest, seen, icon);
    } else {
        let chain = spec_chain_of(dirs, head, roots);
        match spec_chain_find_icon(chain, icon, files) {
            Some(_) => {
            },
            None => {
                assert(head != "hicolor"@);
                let q2 = chain.parents + rest;
                let s2 = seen.insert(head);
                let u2 = spec_universe(dirs, q2);
                lemma_chain_parents_subset(dirs, head, roots);
                assert forall|x: Seq<char>| u2.contains(x) implies u.contains(x) by {
                    if q2.to_set().contains(x) {
                        let i = choose|i: int| 0 <= i < q2.len() && q2[i] == x;
                        if i < chain.parents.len() {
                            assert(chain.parents.to_set().contains(x));
                        } else {
                            assert(queue[i - chain.parents.len() + 1] == x);
                        }
                    }
                }
                assert(queue[0] == head);
                assert(u.contains(head));
                assert(u.difference(seen).contains(head));
                assert(u2.difference(s2).subset_of(u.difference(seen).remove(head)));
                lemma_len_subset(u2.difference(s2), u.difference(seen).remove(head));
                assert(u.difference(seen).remove(head).len() == u.difference(seen).len() - 1);
                lemma_chain_has_hicolor(dirs, head, roots);
                let hi = choose|i: int| 0 <= i < chain.parents.len() && chain.parents[i]
                    == "hicolor"@;
                assert(q2[hi] == "hicolor"@);
                reveal_strlit("hicolor");
                assert("hicolor"@.len() > 0);
                assert(!s2.contains("hicolor"@));
                lemma_traverse_finds_fallback(dirs, files, roots, q2, s2, icon);
            },
        }
    }
}

/// A lookup whose icon the universal fallback theme holds succeeds, for
/// any primary and fallback theme names and any `Inherits` declarations,
/// cyclic ones included.
pub proof fn lemma_lookup_reaches_fallback(
    dirs: Seq<ThemeDirData>,
    files: Seq<String>,
    roots: Seq<Seq<char>>,
    primary: Seq<char>,
    fallback: Seq<char>,
    icon: Seq<char>,
)
    requires
        icon.len() > 0,
        primary.len() > 0,
        spec_chain_find_icon(spec_chain_of(dirs, "hicolor"@, roots), icon, files) is Some,
    ensures
        spec_lookup(dirs, files, roots, primary, fallback, icon) is Some,
{
    reveal_strlit("hicolor");
    let queue = seq![primary, fallback];
    assert(queue[0] == primary);
    lemma_traverse_finds_fallback(dirs, files, roots, queue, Set::empty(), icon);
}

/// An empty cache is consistent with any disk and any roots: after an
/// invalidation — as a change of search roots performs — every later
/// query is exact with respect to the roots then in force, never stale.
pub proof fn lemma_fresh_cache_consistent(dirs: Seq<ThemeDirData>, roots: Seq<Seq<char>>)
    ensures
        cache_consistent(Seq::<(String, IconThemeChain)>::empty(), dirs, roots),
{
}

/// What a lookup yields: the walk seeded with the primary and the fallback
/// theme name; an empty icon name finds nothing.
pub open spec fn spec_lookup(
    dirs: Seq<ThemeDirData>,
    files: Seq<String>,
    roots: Seq<Seq<char>>,
    primary: Seq<char>,
    fallback: Seq<char>,
    icon: Seq<char>,
) -> Option<IconV> {
    if icon.len() == 0 {
        None
    } else {
        spec_traverse(dirs, files, roots, seq![primary, fallback], Set::empty(), icon)
    }
}

impl IconLoader {
    /// Creates a new `IconLoader` with default settings: the `hicolor`
    /// theme, system search roots, an empty cache.
    pub fn new() -> (r: IconLoader)
        ensures
            r@.theme_name == "hicolor"@,
            r@.fallback_theme_name == "hicolor"@,
            r@.cache.len() == 0,
            r@.search_paths is System,
            r@.provider matches ThemeNameProvider::User(s) && s@ == "hicolor"@,
    {
        IconLoader {
            theme_name: "hicolor".to_owned(),
            fallback_theme_name: "hicolor".to_owned(),
            theme_cache: ThemeCache::new(),
            search_paths: SearchPaths::System,
            theme_name_provider: ThemeNameProvider::User("hicolor".to_owned()),
        }
    }

    /// Returns the currently used theme name.
    pub fn theme_name(&self) -> (r: &str)
        ensures
            r@ == self@.theme_name,
    {
        self.theme_name.as_str()
    }

    /// Returns the currently used fallback theme name.
    pub fn fallback_theme_name(&self) -> (r: &str)
        ensures
            r@ == self@.fallback_theme_name,
    {
        self.fallback_theme_name.as_str()
    }

    /// Returns the configured search-path choice.
    pub fn search_paths(&self) -> (r: &SearchPaths)
        ensures
            *r == self@.search_paths,
    {
        &self.search_paths
    }

    /// Sets the paths where to search for icon themes; a change discards
    /// the whole cache, which was built against the old roots.
    pub fn set_search_paths(&mut self, search_paths: SearchPaths)
        ensures
            spec_paths_eq(old(self)@.search_paths, search_paths) ==> *final(self) == *old(self),
            !spec_paths_eq(old(self)@.search_paths, search_paths) ==> final(self)@ == (LoaderV {
                search_paths: search_paths,
                cache: Seq::<(String, IconThemeChain)>::empty(),
                ..old(self)@
            }),
    {
        if self.search_paths.same_as(&search_paths) {
            return ;
        }
        self.search_paths = search_paths;
        self.theme_cache.clear();
        assert(self@.cache =~= Seq::<(String, IconThemeChain)>::empty());
    }

    /// Sets the way in which the used theme name is determined; the update
    /// itself happens when the provider's outcome is handed to
    /// [`IconLoader::update_theme_name`].
    pub fn set_theme_name_provider(&mut self, provider: ThemeNameProvider)
        ensures
            spec_provider_eq(old(self)@.provider, provider) ==> *final(self) == *old(self),
            !spec_provider_eq(old(self)@.provider, provider) ==> final(self)@ == (LoaderV {
                provider: provider,
                ..old(self)@
            }),
    {
        if self.theme_name_provider.same_as(&provider) {
            return ;
        }
        self.theme_name_provider = provider;
    }

    /// Sets a new fallback theme name; a change discards the cache.
    pub fn set_fallback_theme_name(&mut self, fallback_theme_name: String)
        ensures
            old(self)@.fallback_theme_name == fallback_theme_name@ ==> *final(self) == *old(self),
            old(self)@.fallback_theme_name != fallback_theme_name@ ==> final(self)@ == (LoaderV {
                fallback_theme_name: fallback_theme_name@,
                cache: Seq::<(String, IconThemeChain)>::empty(),
                ..old(self)@
            }),
    {
        if str_eq(self.fallback_theme_name.as_str(), fallback_theme_name.as_str()) {
            return ;
        }
        self.fallback_theme_name = fallback_theme_name;
        self.theme_cache.clear();
        assert(self@.cache =~= Seq::<(String, IconThemeChain)>::empty());
    }

    /// The chain for a theme name: the cached one where present, else the
    /// one the disk yields, which is then stored.
    fn load_themes(&mut self, theme_name: &str, disk: &Disk) -> (r: &IconThemeChain)
        ensures
            spec_config_of(final(self)@) == spec_config_of(old(self)@),
            match spec_cache_get(old(self)@.cache, theme_name@) {
                Some(c) => *r == c && final(self)@.cache == old(self)@.cache,
                None => r@ == spec_chain_of(
                    disk.theme_dirs@,
                    theme_name@,
                    spec_roots(old(self)@.search_paths, disk.system_paths@),
                ) && exists|e: (String, IconThemeChain)|
                    #![all_triggers]
                    e.0@ == theme_name@ && e.1 == *r && final(self)@.cache == old(self)@.cache.push(
                        e,
                    ),
            },
    {
        if !self.theme_cache.contains_key(theme_name) {
            let roots = self.search_paths.paths(&disk.system_paths);
            let chain = IconThemeChain::find(theme_name, roots, disk);
            let key = theme_name.to_owned();
            proof {
                lemma_cache_get_push(self@.cache, (key, chain), theme_name@);
            }
            self.theme_cache.insert(key, chain);
        }
        let r = self.theme_cache.get(theme_name);
        match r {
            Some(c) => c,
            None => {
                proof {
                    assert(false);
                }
                unreached()
            },
        }
    }

    /// Returns whether a theme with the name `theme_name` exists in the
    /// current search paths: some root holds a loadable index for it. An
    /// empty name never exists.
    pub fn theme_exists(&mut self, theme_name: &str, disk: &Disk) -> (r: bool)
        ensures
            spec_config_of(final(self)@) == spec_config_of(old(self)@),
            old(self)@.cache.len() <= final(self)@.cache.len() && final(self)@.cache.subrange(
                0,
                old(self)@.cache.len() as int,
            ) == old(self)@.cache,
            theme_name@.len() == 0 ==> r == false && *final(self) == *old(self),
            cache_consistent(
                old(self)@.cache,
                disk.theme_dirs@,
                spec_roots(old(self)@.search_paths, disk.system_paths@),
            ) ==> {
                &&& cache_consistent(
                    final(self)@.cache,
                    disk.theme_dirs@,
                    spec_roots(old(self)@.search_paths, disk.system_paths@),
                )
                &&& r == (theme_name@.len() > 0 && spec_chain_of(
                    disk.theme_dirs@,
                    theme_name@,
                    spec_roots(old(self)@.search_paths, disk.system_paths@),
                ).themes.len() > 0)
            },
    {
        if theme_name.is_empty() {
            return false;
        }
        let ghost dirs = disk.theme_dirs@;
        let ghost roots = spec_roots(self@.search_paths, disk.system_paths@);
        proof {
            if cache_consistent(self@.cache, dirs, roots) {
                lemma_cache_get_consistent(self@.cache, dirs, roots, theme_name@);
            }
        }
        let chain = self.load_themes(theme_name, disk);
        !chain.is_empty()
    }

    /// Loads the icon with the name `icon_name` from the current icon
    /// theme, walking the inheritance graph theme by theme — the current
    /// theme, its parents, the fallback theme, its parents — and returning
    /// the first match; cycles among parent declarations are broken by a
    /// seen-set. `None` where the whole graph holds no file for the name.
    pub fn load_icon(&mut self, icon_name: &str, disk: &Disk) -> (r: Option<Icon>)
        ensures
            spec_config_of(final(self)@) == spec_config_of(old(self)@),
            old(self)@.cache.len() <= final(self)@.cache.len() && final(self)@.cache.subrange(
                0,
                old(self)@.cache.len() as int,
            ) == old(self)@.cache,
            match r {
                Some(ic) => spec_icon_wf(ic@) && ic@.icon_name == icon_name@,
                None => true,
            },
            cache_consistent(
                old(self)@.cache,
                disk.theme_dirs@,
                spec_roots(old(self)@.search_paths, disk.system_paths@),
            ) ==> {
                &&& cache_consistent(
                    final(self)@.cache,
                    disk.theme_dirs@,
                    spec_roots(old(self)@.search_paths, disk.system_paths@),
                )
                &&& (match r {
                    Some(ic) => spec_lookup(
                        disk.theme_dirs@,
                        disk.files@,
                        spec_roots(old(self)@.search_paths, disk.system_paths@),
                        old(self)@.theme_name,
                        old(self)@.fallback_theme_name,
                        icon_name@,
                    ) == Some(ic@),
                    None => spec_lookup(
                        disk.theme_dirs@,
                        disk.files@,
                        spec_roots(old(self)@.search_paths, disk.system_paths@),
                        old(self)@.theme_name,
                        old(self)@.fallback_theme_name,
                        icon_name@,
                    ) is None,
                })
            },
    {
        broadcast use seq_to_set_is_finite;
        broadcast use vstd::set::group_set_axioms;

        let ghost dirs = disk.theme_dirs@;
        let ghost files = disk.files@;
        let ghost sp0 = self@.search_paths;
        let ghost tn0 = self@.theme_name;
        let ghost fb0 = self@.fallback_theme_name;
        let ghost pv0 = self@.provider;
        let ghost roots = spec_roots(sp0, disk.system_paths@);
        let ghost con0 = cache_consistent(self@.cache, dirs, roots);
        if icon_name.is_empty() {
            return None;
        }
        let mut queue: Vec<String> = Vec::new();
        queue.push(self.theme_name.clone());
        queue.push(self.fallback_theme_name.clone());
        let mut seen: Vec<String> = Vec::new();
        assert(strs_view(queue@) =~= seq![tn0, fb0]);
        let ghost target = spec_traverse(dirs, files, roots, seq![tn0, fb0], Set::empty(), icon_name@);
        let ghost u0 = spec_universe(dirs, strs_view(queue@)).union(spec_cache_parents(self@.cache));
        proof {
            assert(u0.finite()) by {
                lemma_cache_parents_finite(self@.cache);
            }
            assert(strs_view(seen@).to_set() =~= Set::<Seq<char>>::empty());
            assert(strs_view(queue@).to_set().subset_of(u0));
            assert(spec_disk_parent_names(dirs).to_set().subset_of(u0));
            assert(u0.contains("hicolor"@));
            assert(spec_cache_parents(self@.cache).subset_of(u0));
        }
        while queue.len() > 0
            invariant
                dirs == disk.theme_dirs@,
                files == disk.files@,
                icon_name@.len() > 0,
                self@.search_paths == sp0,
                self@.theme_name == tn0,
                self@.fallback_theme_name == fb0,
                self@.provider == pv0,
                roots == spec_roots(sp0, disk.system_paths@),
                tn0 == old(self)@.theme_name,
                fb0 == old(self)@.fallback_theme_name,
                sp0 == old(self)@.search_paths,
                pv0 == old(self)@.provider,
                target == spec_traverse(dirs, files, roots, seq![tn0, fb0], Set::empty(), icon_name@),
                u0.finite(),
                strs_view(queue@).to_set().subset_of(u0),
                spec_cache_parents(self@.cache).subset_of(u0),
                spec_disk_parent_names(dirs).to_set().subset_of(u0),
                u0.contains("hicolor"@),
                con0 == cache_consistent(old(self)@.cache, dirs, roots),
                old(self)@.cache.len() <= self@.cache.len() && self@.cache.subrange(
                    0,
                    old(self)@.cache.len() as int,
                ) == old(self)@.cache,
                con0 ==> cache_consistent(self@.cache, dirs, roots),
                con0 ==> spec_traverse(
                    dirs,
                    files,
                    roots,
                    strs_view(queue@),
                    strs_view(seen@).to_set(),
                    icon_name@,
                ) == target,
            decreases u0.difference(strs_view(seen@).to_set()).len(), queue@.len(),
        {
            broadcast use seq_to_set_is_finite;
            broadcast use vstd::set::group_set_axioms;

            let ghost q_before = strs_view(queue@);
            let ghost seen_sq = strs_view(seen@);
            let ghost s_before = seen_sq.to_set();
            let head: String = queue.remove(0);
            proof {
                assert(head@ == q_before.first());
                assert(strs_view(queue@) =~= q_before.drop_first());
                assert forall|x: Seq<char>| strs_view(queue@).to_set().contains(x) implies
                    u0.contains(x) by {
                    let i = choose|i: int|
                        0 <= i < strs_view(queue@).len() && strs_view(queue@)[i] == x;
                    assert(q_before[i + 1] == x);
                }
                lemma_contains_str_view(seen@, head@);
            }
            if contains_str(&seen, head.as_str()) {
            } else if head.as_str().is_empty() {
            } else {
                seen.push(head.clone());
                proof {
                    assert(strs_view(seen@) =~= seen_sq.push(head@));
                    seen_sq.lemma_push_to_set_commute(head@);
                    assert(strs_view(seen@).to_set() =~= s_before.insert(head@));
                    if con0 {
                        lemma_cache_get_consistent(self@.cache, dirs, roots, head@);
                    }
                    lemma_cache_get_entry(self@.cache, head@);
                }
                let ghost cache_before = self@.cache;
                let chain = self.load_themes(head.as_str(), disk);
                let ghost chv = chain@;
                let found = chain.find_icon(icon_name, disk);
                let parents_vec = chain.clone_parents();
                proof {
                    // The chain's parents stay inside the fixed universe.
                    match spec_cache_get(cache_before, head@) {
                        Some(c) => {
                            let k = choose|k: int|
                                0 <= k < cache_before.len() && (#[trigger] cache_before[k]).1 == c;
                            lemma_cache_entry_parents(cache_before, k);
                            assert(chv.parents.to_set().subset_of(u0));
                        },
                        None => {
                            lemma_chain_parents_subset(dirs, head@, roots);
                            assert(chv.parents.to_set().subset_of(u0));
                            // The cache grew by one consistent entry.
                            let e = choose|e: (String, IconThemeChain)|
                                #![all_triggers]
                                e.0@ == head@ && e.1 == *chain && self@.cache == cache_before.push(
                                    e,
                                );
                            assert(self@.cache.drop_last() =~= cache_before);
                            assert(self@.cache.subrange(0, old(self)@.cache.len() as int)
                                =~= cache_before.subrange(0, old(self)@.cache.len() as int));
                            assert(spec_cache_parents(self@.cache) == spec_cache_parents(
                                cache_before,
                            ).union(e.1@.parents.to_set()));
                            if con0 {
                                assert forall|k: int| 0 <= k < self@.cache.len() implies (
                                #[trigger] self@.cache[k]).1@ == spec_chain_of(
                                    dirs,
                                    self@.cache[k].0@,
                                    roots,
                                ) by {
                                    if k < cache_before.len() {
                                        assert(self@.cache[k] == cache_before[k]);
                                    } else {
                                        assert(self@.cache[k] == e);
                                    }
                                }
                            }
                        },
                    }
                    if con0 {
                        assert(chv == spec_chain_of(dirs, head@, roots));
                    }
                }
                match found {
                    Some(icon) => {
                        proof {
                            assert(spec_icon_wf(icon@));
                            assert(icon@.icon_name == icon_name@);
                            if con0 {
                                assert(spec_traverse(dirs, files, roots, q_before, s_before,
                                    icon_name@) == Some(icon@));
                            }
                        }
                        return Some(icon);
                    },
                    None => {
                        let mut new_queue = parents_vec;
                        new_queue.append(&mut queue);
                        queue = new_queue;
                        proof {
                            assert(strs_view(queue@) =~= chv.parents + q_before.drop_first());
                            assert forall|x: Seq<char>| strs_view(queue@).to_set().contains(x)
                                implies u0.contains(x) by {
                                let i = choose|i: int|
                                    0 <= i < strs_view(queue@).len() && strs_view(queue@)[i] == x;
                                if i < chv.parents.len() {
                                    assert(chv.parents.to_set().contains(x));
                                } else {
                                    assert(q_before.drop_first()[i - chv.parents.len()] == x);
                                    assert(q_before[i - chv.parents.len() + 1] == x);
                                    assert(q_before.to_set().contains(x));
                                }
                            }
                            // The measure shrinks: one more name is seen.
                            assert(q_before.to_set().contains(head@));
                            assert(u0.difference(s_before).contains(head@));
                            assert(u0.difference(strs_view(seen@).to_set()).subset_of(
                                u0.difference(s_before).remove(head@),
                            ));
                            lemma_len_subset(
                                u0.difference(strs_view(seen@).to_set()),
                                u0.difference(s_before).remove(head@),
                            );
                        }
                    },
                }
            }
        }
        proof {
            if con0 {
                assert(strs_view(queue@).len() == 0);
                assert(target is None);
            }
        }
        None
    }

    /// Queries the outcome of the configured theme-name provider: a
    /// provider failure is wrapped; a name equal to the current one
    /// changes nothing; a name whose theme exists becomes the current
    /// theme name; any other name is refused.
    pub fn update_theme_name(&mut self, provided: Result<String, ProviderError>, disk: &Disk) -> (r:
        Result<(), Error>)
        ensures
            final(self)@.fallback_theme_name == old(self)@.fallback_theme_name,
            final(self)@.search_paths == old(self)@.search_paths,
            final(self)@.provider == old(self)@.provider,
            old(self)@.cache.len() <= final(self)@.cache.len() && final(self)@.cache.subrange(
                0,
                old(self)@.cache.len() as int,
            ) == old(self)@.cache,
            match provided {
                Err(e) => r matches Err(Error::ThemeNameProvider { source }) && source == e
                    && *final(self) == *old(self),
                Ok(name) => {
                    &&& (final(self)@.theme_name == old(self)@.theme_name
                        || final(self)@.theme_name == name@)
                    &&& (cache_consistent(
                        old(self)@.cache,
                        disk.theme_dirs@,
                        spec_roots(old(self)@.search_paths, disk.system_paths@),
                    ) ==> {
                        let exists_theme = name@.len() > 0 && spec_chain_of(
                            disk.theme_dirs@,
                            name@,
                            spec_roots(old(self)@.search_paths, disk.system_paths@),
                        ).themes.len() > 0;
                        if name@ == old(self)@.theme_name {
                            r is Ok && final(self)@.theme_name == old(self)@.theme_name
                        } else if exists_theme {
                            r is Ok && final(self)@.theme_name == name@
                        } else {
                            (r matches Err(Error::ThemeNotFound { theme_name }) && theme_name@
                                == name@) && final(self)@.theme_name == old(self)@.theme_name
                        }
                    })
                },
            },
    {
        match provided {
            Err(e) => Err(Error::ThemeNameProvider { source: e }),
            Ok(name) => {
                if str_eq(name.as_str(), self.theme_name.as_str()) {
                    Ok(())
                } else if self.theme_exists(name.as_str(), disk) {
                    self.theme_name = name;
                    Ok(())
                } else {
                    Err(Error::theme_not_found(name))
                }
            },
        }
    }
}

impl Default for IconLoader {
    /// The same loader as [`IconLoader::new`].
    fn default() -> (r: IconLoader)
        ensures
            r@.theme_name == "hicolor"@,
            r@.fallback_theme_name == "hicolor"@,
            r@.cache.len() == 0,
            r@.search_paths is System,
    {
        IconLoader::new()
    }
}

} // verus!
