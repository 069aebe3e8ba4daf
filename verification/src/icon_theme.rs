//! One theme's contribution at a single search root: the valid icon
//! directories its index file declares, plus the parent themes it inherits.

use vstd::prelude::*;
use crate::disk::{Disk, IndexSource};
use crate::error::ThemeError;
use crate::icon_dir::{DirInfoV, IconDir, props_view, spec_dir_of, spec_dir_valid};
use crate::icon::{Icon, IconV, spec_new_icon};
use crate::icon_file::{IconFile, IconFileType, IconFileV, files_view, spec_extension};
use crate::index_data::{ini_sections, parse_index_content, sections_view};
use crate::strutil::{contains_str, lemma_contains_str_view, spec_contains_str, spec_path_join,
    spec_split_trim, path_join, split_trim_commas, str_eq, strs_view};

verus! {

/// The mathematical value of an [`IconTheme`].
pub ghost struct ThemeV {
    pub content_dir: Seq<char>,
    pub key_list: Seq<DirInfoV>,
}

/// The parent names that the `Inherits` keys of one section's pairs
/// declare, in order, duplicates kept.
pub open spec fn spec_inherits_of_props(props: Seq<(Seq<char>, Seq<char>)>) -> Seq<Seq<char>>
    decreases props.len(),
{
    if props.len() == 0 {
        Seq::empty()
    } else {
        spec_inherits_of_props(props.drop_last()) + (if props.last().0 == "Inherits"@ {
            spec_split_trim(props.last().1)
        } else {
            Seq::empty()
        })
    }
}

/// The parent names one section declares: only sections named `Icon Theme`
/// declare any.
pub open spec fn spec_section_parents(
    sec: (Option<Seq<char>>, Seq<(Seq<char>, Seq<char>)>),
) -> Seq<Seq<char>> {
    if sec.0 == Some("Icon Theme"@) {
        spec_inherits_of_props(sec.1)
    } else {
        Seq::empty()
    }
}

/// The parent names a whole index declares, section by section.
pub open spec fn spec_sections_parent_names(
    secs: Seq<(Option<Seq<char>>, Seq<(Seq<char>, Seq<char>)>)>,
) -> Seq<Seq<char>>
    decreases secs.len(),
{
    if secs.len() == 0 {
        Seq::empty()
    } else {
        spec_sections_parent_names(secs.drop_last()) + spec_section_parents(secs.last())
    }
}

/// `acc` extended by each of `names` in order, skipping those already
/// present: first-seen order, deduplicated.
pub open spec fn spec_add_unique(acc: Seq<Seq<char>>, names: Seq<Seq<char>>) -> Seq<Seq<char>>
    decreases names.len(),
{
    if names.len() == 0 {
        acc
    } else {
        let prev = spec_add_unique(acc, names.drop_last());
        if prev.contains(names.last()) {
            prev
        } else {
            prev.push(names.last())
        }
    }
}

/// Adding a concatenation is adding one part after the other.
pub proof fn lemma_add_unique_concat(acc: Seq<Seq<char>>, a: Seq<Seq<char>>, b: Seq<Seq<char>>)
    ensures
        spec_add_unique(acc, a + b) == spec_add_unique(spec_add_unique(acc, a), b),
    decreases b.len(),
{
    if b.len() == 0 {
        assert(a + b =~= a);
    } else {
        lemma_add_unique_concat(acc, a, b.drop_last());
        assert((a + b).drop_last() =~= a + b.drop_last());
        assert((a + b).last() == b.last());
    }
}

/// The valid icon directories an index's sections declare: every section
/// other than `Icon Theme`, parsed as directory metadata, kept only when
/// valid.
pub open spec fn spec_dirs_of_sections(
    secs: Seq<(Option<Seq<char>>, Seq<(Seq<char>, Seq<char>)>)>,
) -> Seq<DirInfoV>
    decreases secs.len(),
{
    if secs.len() == 0 {
        Seq::empty()
    } else {
        spec_dirs_of_sections(secs.drop_last()) + spec_section_dirs(secs.last())
    }
}

/// The valid icon directories one section declares (none or one).
pub open spec fn spec_section_dirs(
    sec: (Option<Seq<char>>, Seq<(Seq<char>, Seq<char>)>),
) -> Seq<DirInfoV> {
    match sec.0 {
        Some(name) => if name == "Icon Theme"@ {
            Seq::empty()
        } else {
            let d = spec_dir_of(name, sec.1);
            if spec_dir_valid(d) {
                seq![d]
            } else {
                Seq::empty()
            }
        },
        None => Seq::empty(),
    }
}

/// What loading a theme index from the given source yields: the error the
/// source forces, or the directory list — empty directory lists are
/// themselves an error.
pub open spec fn spec_theme_of(content_dir: Seq<char>, source: IndexSource) -> Result<
    ThemeV,
    ThemeError,
> {
    match source {
        IndexSource::NotADirectory => Err(ThemeError::NotDirectory),
        IndexSource::NoIndexFile => Err(ThemeError::IndexThemeNotFound),
        IndexSource::Content(text) => match ini_sections(text@) {
            None => Err(ThemeError::ParseFailed),
            Some(secs) => {
                let dirs = spec_dirs_of_sections(secs);
                if dirs.len() == 0 {
                    Err(ThemeError::KeyListEmpty)
                } else {
                    Ok(ThemeV { content_dir, key_list: dirs })
                }
            },
        },
    }
}

/// The raw parent names a source contributes: all that its parsed sections
/// declare, even where the directory list then turns out empty; nothing
/// where there is no parsable index.
pub open spec fn spec_parents_contribution(source: IndexSource) -> Seq<Seq<char>> {
    match source {
        IndexSource::Content(text) => match ini_sections(text@) {
            Some(secs) => spec_sections_parent_names(secs),
            None => Seq::empty(),
        },
        _ => Seq::empty(),
    }
}

/// The views of a list of icon directories.
pub open spec fn dirs_view(v: Seq<IconDir>) -> Seq<DirInfoV> {
    Seq::new(v.len(), |i: int| v[i]@)
}

/// Appends each of `names` to `parents` unless already present.
fn add_parents(parents: &mut Vec<String>, names: &Vec<String>)
    ensures
        strs_view(final(parents)@) == spec_add_unique(
            strs_view(old(parents)@),
            strs_view(names@),
        ),
{
    let ghost acc0 = strs_view(old(parents)@);
    let ghost all = strs_view(names@);
    let n: usize = names.len();
    let mut k: usize = 0;
    assert(all.subrange(0, 0) =~= Seq::<Seq<char>>::empty());
    while k < n
        invariant
            n == names@.len(),
            0 <= k <= n,
            all == strs_view(names@),
            strs_view(parents@) == spec_add_unique(acc0, all.subrange(0, k as int)),
        decreases n - k,
    {
        let ghost prev = strs_view(parents@);
        assert(all.subrange(0, k + 1).drop_last() =~= all.subrange(0, k as int));
        assert(all.subrange(0, k + 1).last() == all[k as int]);
        let name: &String = &names[k];
        proof {
            lemma_contains_str_view(parents@, name@);
        }
        if !contains_str(parents, name.as_str()) {
            assert(!prev.contains(all[k as int]));
            parents.push(name.clone());
            assert(strs_view(parents@) =~= prev.push(name@));
        } else {
            assert(prev.contains(all[k as int]));
        }
        k = k + 1;
    }
    assert(all.subrange(0, n as int) =~= all);
}

/// One theme's index at one search root: its content directory and its
/// non-empty list of valid icon directories.
#[derive(Clone, Debug, PartialEq, Eq)]
pub struct IconTheme {
    /// The theme's content directory, `root/themeName`.
    pub content_dir: String,
    key_list: Vec<IconDir>,
}

impl View for IconTheme {
    type V = ThemeV;

    closed spec fn view(&self) -> ThemeV {
        ThemeV { content_dir: self.content_dir@, key_list: dirs_view(self.key_list@) }
    }
}

impl IconTheme {
    /// Loads a theme index from the recorded outcome of probing
    /// `content_dir`, adding the parents it declares to `parents` in
    /// first-seen order. Parents are kept even when the load then fails
    /// for want of valid directories.
    pub fn from_source(content_dir: String, source: &IndexSource, parents: &mut Vec<String>) -> (r:
        Result<IconTheme, ThemeError>)
        ensures
            match spec_theme_of(content_dir@, *source) {
                Ok(tv) => r matches Ok(t) && t@ == tv,
                Err(e) => r matches Err(e2) && e2 == e,
            },
            strs_view(final(parents)@) == spec_add_unique(
                strs_view(old(parents)@),
                spec_parents_contribution(*source),
            ),
    {
        let text = match source {
            IndexSource::NotADirectory => {
                return Err(ThemeError::NotDirectory);
            },
            IndexSource::NoIndexFile => {
                return Err(ThemeError::IndexThemeNotFound);
            },
            IndexSource::Content(text) => text,
        };
        let sections = match parse_index_content(text.as_str()) {
            None => {
                return Err(ThemeError::ParseFailed);
            },
            Some(sections) => sections,
        };
        let ghost secs = sections_view(sections@);
        let ghost acc0 = strs_view(old(parents)@);
        let mut key_list: Vec<IconDir> = Vec::new();
        let n: usize = sections.len();
        let mut i: usize = 0;
        assert(secs.subrange(0, 0) =~= Seq::<(Option<Seq<char>>, Seq<(Seq<char>, Seq<char>)>)>::empty());
        while i < n
            invariant
                n == sections@.len(),
                0 <= i <= n,
                secs == sections_view(sections@),
                strs_view(parents@) == spec_add_unique(
                    acc0,
                    spec_sections_parent_names(secs.subrange(0, i as int)),
                ),
                dirs_view(key_list@) == spec_dirs_of_sections(secs.subrange(0, i as int)),
            decreases n - i,
        {
            let ghost psec = spec_sections_parent_names(secs.subrange(0, i as int));
            let ghost dsec = spec_dirs_of_sections(secs.subrange(0, i as int));
            assert(secs.subrange(0, i + 1).drop_last() =~= secs.subrange(0, i as int));
            assert(secs.subrange(0, i + 1).last() == secs[i as int]);
            let section = &sections[i];
            match &section.name {
                Some(name) => {
                    if str_eq(name.as_str(), "Icon Theme") {
                        let ghost props = props_view(section.props@);
                        let m: usize = section.props.len();
                        let mut j: usize = 0;
                        assert(props.subrange(0, 0) =~= Seq::<(Seq<char>, Seq<char>)>::empty());
                        assert(strs_view(parents@) == spec_add_unique(
                            spec_add_unique(acc0, psec),
                            spec_inherits_of_props(props.subrange(0, 0)),
                        ));
                        while j < m
                            invariant
                                m == section.props@.len(),
                                0 <= j <= m,
                                props == props_view(section.props@),
                                strs_view(parents@) == spec_add_unique(
                                    spec_add_unique(acc0, psec),
                                    spec_inherits_of_props(props.subrange(0, j as int)),
                                ),
                            decreases m - j,
                        {
                            assert(props.subrange(0, j + 1).drop_last() =~= props.subrange(
                                0,
                                j as int,
                            ));
                            assert(props.subrange(0, j + 1).last() == props[j as int]);
                            let key: &String = &section.props[j].0;
                            let value: &String = &section.props[j].1;
                            if str_eq(key.as_str(), "Inherits") {
                                let parts = split_trim_commas(value.as_str());
                                proof {
                                    lemma_add_unique_concat(
                                        spec_add_unique(acc0, psec),
                                        spec_inherits_of_props(props.subrange(0, j as int)),
                                        spec_split_trim(value@),
                                    );
                                }
                                add_parents(parents, &parts);
                            } else {
                                assert(spec_inherits_of_props(props.subrange(0, j + 1))
                                    =~= spec_inherits_of_props(props.subrange(0, j as int))
                                    + Seq::<Seq<char>>::empty());
                                assert(spec_inherits_of_props(props.subrange(0, j as int))
                                    + Seq::<Seq<char>>::empty() =~= spec_inherits_of_props(
                                    props.subrange(0, j as int),
                                ));
                            }
                            j = j + 1;
                        }
                        proof {
                            assert(props.subrange(0, m as int) =~= props);
                            assert(spec_section_parents(secs[i as int]) == spec_inherits_of_props(
                                props,
                            ));
                            lemma_add_unique_concat(
                                acc0,
                                psec,
                                spec_section_parents(secs[i as int]),
                            );
                            assert(psec + spec_section_parents(secs[i as int])
                                =~= spec_sections_parent_names(secs.subrange(0, i + 1)));
                            assert(spec_dirs_of_sections(secs.subrange(0, i + 1)) =~= dsec);
                        }
                    } else {
                        let dir = IconDir::new(name.clone(), &section.props);
                        if dir.is_valid() {
                            key_list.push(dir);
                            assert(dirs_view(key_list@) =~= dsec.push(
                                spec_dir_of(name@, props_view(section.props@)),
                            ));
                        } else {
                            assert(spec_section_dirs(secs[i as int]) =~= Seq::<DirInfoV>::empty());
                        }
                        proof {
                            assert(spec_dirs_of_sections(secs.subrange(0, i + 1)) =~= dsec
                                + spec_section_dirs(secs[i as int]));
                            assert(spec_sections_parent_names(secs.subrange(0, i + 1)) =~= psec
                                + Seq::<Seq<char>>::empty());
                            assert(psec + Seq::<Seq<char>>::empty() =~= psec);
                        }
                    }
                },
                None => {
                    proof {
                        assert(spec_sections_parent_names(secs.subrange(0, i + 1)) =~= psec
                            + Seq::<Seq<char>>::empty());
                        assert(psec + Seq::<Seq<char>>::empty() =~= psec);
                        assert(spec_dirs_of_sections(secs.subrange(0, i + 1)) =~= dsec);
                    }
                },
            }
            i = i + 1;
        }
        assert(secs.subrange(0, n as int) =~= secs);
        if key_list.len() == 0 {
            return Err(ThemeError::KeyListEmpty);
        }
        Ok(IconTheme { content_dir, key_list })
    }

    /// The views of this theme's icon directories, for callers that walk
    /// them.
    pub fn dirs(&self) -> (r: &Vec<IconDir>)
        ensures
            dirs_view(r@) == self@.key_list,
    {
        &self.key_list
    }

    /// Gathers the files this theme holds for an icon name: for every icon
    /// directory, for each file type in priority order, the file that
    /// exists on disk.
    pub fn entries(&self, icon_name: &str, disk: &Disk) -> (r: Vec<IconFile>)
        ensures
            files_view(r@) == spec_entries(self@, icon_name@, disk.files@),
    {
        let mut out: Vec<IconFile> = Vec::new();
        if icon_name.is_empty() {
            assert(files_view(out@) =~= Seq::<IconFileV>::empty());
            return out;
        }
        let ghost dirs = self@.key_list;
        let n: usize = self.key_list.len();
        let mut i: usize = 0;
        assert(dirs.subrange(0, 0) =~= Seq::<DirInfoV>::empty());
        assert(files_view(out@) =~= Seq::<IconFileV>::empty());
        while i < n
            invariant
                n == self.key_list@.len(),
                0 <= i <= n,
                dirs == self@.key_list,
                dirs == dirs_view(self.key_list@),
                files_view(out@) == spec_entries_dirs(
                    self@.content_dir,
                    dirs.subrange(0, i as int),
                    icon_name@,
                    disk.files@,
                ),
            decreases n - i,
        {
            assert(dirs.subrange(0, i + 1).drop_last() =~= dirs.subrange(0, i as int));
            assert(dirs.subrange(0, i + 1).last() == dirs[i as int]);
            let ghost before = files_view(out@);
            let dir = &self.key_list[i];
            push_type_entry(&mut out, self.content_dir.as_str(), dir, icon_name, IconFileType::PNG,
                disk);
            push_type_entry(&mut out, self.content_dir.as_str(), dir, icon_name, IconFileType::SVG,
                disk);
            push_type_entry(&mut out, self.content_dir.as_str(), dir, icon_name, IconFileType::XPM,
                disk);
            proof {
                assert(files_view(out@) =~= before + spec_dir_entries(
                    self@.content_dir,
                    dirs[i as int],
                    icon_name@,
                    disk.files@,
                ));
            }
            i = i + 1;
        }
        assert(dirs.subrange(0, n as int) =~= dirs);
        out
    }
}

/// The on-disk path probed for an icon of one type in one directory:
/// `contentDir/dirPath/iconName.ext`.
pub open spec fn spec_icon_path(
    cd: Seq<char>,
    dir_path: Seq<char>,
    icon: Seq<char>,
    t: IconFileType,
) -> Seq<char> {
    spec_path_join(spec_path_join(cd, dir_path), icon) + seq!['.'] + spec_extension(t)
}

/// Builds the probed path of one icon file.
pub fn make_icon_path(cd: &str, dir_path: &str, icon: &str, t: IconFileType) -> (r: String)
    ensures
        r@ == spec_icon_path(cd@, dir_path@, icon@, t),
{
    let base = path_join(cd, dir_path);
    let mut r = path_join(base.as_str(), icon);
    r.append(".");
    r.append(t.extension());
    proof {
        reveal_strlit(".");
        assert(r@ =~= spec_icon_path(cd@, dir_path@, icon@, t));
    }
    r
}

/// The candidate file (none or one) of one file type in one directory.
pub open spec fn spec_type_entry(
    cd: Seq<char>,
    d: DirInfoV,
    icon: Seq<char>,
    files: Seq<String>,
    t: IconFileType,
) -> Seq<IconFileV> {
    let p = spec_icon_path(cd, d.path, icon, t);
    if spec_contains_str(files, p) {
        seq![IconFileV { dir_info: d, path: p, icon_type: t }]
    } else {
        Seq::empty()
    }
}

/// The candidate files of one directory, file types in priority order.
pub open spec fn spec_dir_entries(
    cd: Seq<char>,
    d: DirInfoV,
    icon: Seq<char>,
    files: Seq<String>,
) -> Seq<IconFileV> {
    spec_type_entry(cd, d, icon, files, IconFileType::PNG) + spec_type_entry(
        cd,
        d,
        icon,
        files,
        IconFileType::SVG,
    ) + spec_type_entry(cd, d, icon, files, IconFileType::XPM)
}

/// The candidate files of a list of directories, in directory order.
pub open spec fn spec_entries_dirs(
    cd: Seq<char>,
    dirs: Seq<DirInfoV>,
    icon: Seq<char>,
    files: Seq<String>,
) -> Seq<IconFileV>
    decreases dirs.len(),
{
    if dirs.len() == 0 {
        Seq::empty()
    } else {
        spec_entries_dirs(cd, dirs.drop_last(), icon, files) + spec_dir_entries(
            cd,
            dirs.last(),
            icon,
            files,
        )
    }
}

/// The candidate files of one theme for an icon name; an empty icon name
/// has none.
pub open spec fn spec_entries(t: ThemeV, icon: Seq<char>, files: Seq<String>) -> Seq<IconFileV> {
    if icon.len() == 0 {
        Seq::empty()
    } else {
        spec_entries_dirs(t.content_dir, t.key_list, icon, files)
    }
}

/// Appends the candidate file of one file type in one directory, if it
/// exists on disk.
fn push_type_entry(
    out: &mut Vec<IconFile>,
    cd: &str,
    dir: &IconDir,
    icon: &str,
    t: IconFileType,
    disk: &Disk,
)
    ensures
        files_view(final(out)@) == files_view(old(out)@) + spec_type_entry(
            cd@,
            dir@,
            icon@,
            disk.files@,
            t,
        ),
{
    let ghost prev = files_view(out@);
    let path = make_icon_path(cd, dir.path(), icon, t);
    if disk.file_exists(path.as_str()) {
        let ghost pv = path@;
        out.push(IconFile::new(dir.duplicate(), path, t));
        proof {
            assert(files_view(out@) =~= prev.push(
                IconFileV { dir_info: dir@, path: pv, icon_type: t },
            ));
            assert(prev.push(IconFileV { dir_info: dir@, path: pv, icon_type: t }) =~= prev
                + spec_type_entry(cd@, dir@, icon@, disk.files@, t));
        }
    } else {
        assert(files_view(out@) =~= prev + Seq::<IconFileV>::empty());
    }
}

/// The mathematical value of an [`IconThemeChain`].
pub ghost struct ChainV {
    pub name: Seq<char>,
    pub themes: Seq<ThemeV>,
    pub parents: Seq<Seq<char>>,
}

/// The views of a list of theme indices.
pub open spec fn themes_view(v: Seq<IconTheme>) -> Seq<ThemeV> {
    Seq::new(v.len(), |i: int| v[i]@)
}

/// The indices found and the raw parent accumulation over a prefix of the
/// search roots, in root order.
pub open spec fn spec_chain_partial(
    dirs: Seq<crate::disk::ThemeDirData>,
    name: Seq<char>,
    roots: Seq<Seq<char>>,
) -> (Seq<ThemeV>, Seq<Seq<char>>)
    decreases roots.len(),
{
    if roots.len() == 0 {
        (Seq::empty(), Seq::empty())
    } else {
        let prev = spec_chain_partial(dirs, name, roots.drop_last());
        let root = roots.last();
        let source = crate::disk::spec_source_for(dirs, root, name);
        let cd = spec_path_join(root, name);
        let themes = match spec_theme_of(cd, source) {
            Ok(tv) => prev.0.push(tv),
            Err(_) => prev.0,
        };
        (themes, spec_add_unique(prev.1, spec_parents_contribution(source)))
    }
}

/// The merged view of one theme name over all search roots: every index
/// found, in root order, and the deduplicated parent list with `hicolor`
/// appended where absent.
pub open spec fn spec_chain_of(
    dirs: Seq<crate::disk::ThemeDirData>,
    name: Seq<char>,
    roots: Seq<Seq<char>>,
) -> ChainV {
    let pair = spec_chain_partial(dirs, name, roots);
    let parents = if pair.1.contains("hicolor"@) {
        pair.1
    } else {
        pair.1.push("hicolor"@)
    };
    ChainV { name: name, themes: pair.0, parents: parents }
}

/// The candidate files of a list of theme indices, in stored order.
pub open spec fn spec_chain_entries(
    themes: Seq<ThemeV>,
    icon: Seq<char>,
    files: Seq<String>,
) -> Seq<IconFileV>
    decreases themes.len(),
{
    if themes.len() == 0 {
        Seq::empty()
    } else {
        spec_chain_entries(themes.drop_last(), icon, files) + spec_entries(
            themes.last(),
            icon,
            files,
        )
    }
}

/// What looking an icon up in a chain yields: nothing for an empty chain
/// or an empty candidate set, else the icon built from all candidates.
pub open spec fn spec_chain_find_icon(c: ChainV, icon: Seq<char>, files: Seq<String>) -> Option<
    IconV,
> {
    if c.themes.len() == 0 {
        None
    } else {
        let es = spec_chain_entries(c.themes, icon, files);
        if es.len() == 0 {
            None
        } else {
            spec_new_icon(icon, c.name, es)
        }
    }
}

/// The merged view, across all search roots, of every theme index sharing
/// one theme name, plus the deduplicated, `hicolor`-terminated parent list.
#[derive(Clone, Debug, PartialEq, Eq)]
pub struct IconThemeChain {
    name: String,
    themes: Vec<IconTheme>,
    parents: Vec<String>,
}

impl View for IconThemeChain {
    type V = ChainV;

    closed spec fn view(&self) -> ChainV {
        ChainV {
            name: self.name@,
            themes: themes_view(self.themes@),
            parents: strs_view(self.parents@),
        }
    }
}

impl IconThemeChain {
    /// Builds the chain for one theme name: each root is probed, failures
    /// are skipped, parents pool across roots in first-seen order, and
    /// `hicolor` is appended where no index declared it.
    pub fn find(theme_name: &str, search_paths: &Vec<String>, disk: &Disk) -> (r: IconThemeChain)
        ensures
            r@ == spec_chain_of(disk.theme_dirs@, theme_name@, strs_view(search_paths@)),
    {
        let ghost dirs = disk.theme_dirs@;
        let ghost roots = strs_view(search_paths@);
        let mut themes: Vec<IconTheme> = Vec::new();
        let mut parents: Vec<String> = Vec::new();
        let n: usize = search_paths.len();
        let mut i: usize = 0;
        assert(roots.subrange(0, 0) =~= Seq::<Seq<char>>::empty());
        assert(themes_view(themes@) =~= Seq::<ThemeV>::empty());
        assert(strs_view(parents@) =~= Seq::<Seq<char>>::empty());
        while i < n
            invariant
                n == search_paths@.len(),
                0 <= i <= n,
                dirs == disk.theme_dirs@,
                roots == strs_view(search_paths@),
                (themes_view(themes@), strs_view(parents@)) == spec_chain_partial(
                    dirs,
                    theme_name@,
                    roots.subrange(0, i as int),
                ),
            decreases n - i,
        {
            assert(roots.subrange(0, i + 1).drop_last() =~= roots.subrange(0, i as int));
            assert(roots.subrange(0, i + 1).last() == roots[i as int]);
            let ghost before = themes_view(themes@);
            let root: &String = &search_paths[i];
            let source = disk.source_for(root.as_str(), theme_name);
            let content_dir = path_join(root.as_str(), theme_name);
            match IconTheme::from_source(content_dir, source, &mut parents) {
                Ok(theme) => {
                    themes.push(theme);
                    assert(themes_view(themes@) =~= before.push(themes@.last()@));
                },
                Err(_) => {
                },
            }
            i = i + 1;
        }
        assert(roots.subrange(0, n as int) =~= roots);
        let ghost pair = spec_chain_partial(dirs, theme_name@, roots);
        proof {
            assert(themes_view(themes@) == pair.0);
            assert(strs_view(parents@) == pair.1);
            lemma_contains_str_view(parents@, "hicolor"@);
        }
        let ghost pp = strs_view(parents@);
        if !contains_str(&parents, "hicolor") {
            parents.push("hicolor".to_owned());
            assert(strs_view(parents@) =~= pp.push("hicolor"@));
        }
        let r = IconThemeChain { name: theme_name.to_owned(), themes, parents };
        proof {
            assert(r@.name == theme_name@);
            assert(r@.themes == pair.0);
            assert(r@.parents == spec_chain_of(dirs, theme_name@, roots).parents);
        }
        r
    }

    /// Looks the icon up in this chain: all candidate files of all indices,
    /// in stored order, merged into one icon; nothing where the chain is
    /// empty or no file exists.
    pub fn find_icon(&self, icon_name: &str, disk: &Disk) -> (r: Option<Icon>)
        ensures
            match spec_chain_find_icon(self@, icon_name@, disk.files@) {
                Some(iv) => r matches Some(ic) && ic@ == iv,
                None => r is None,
            },
    {
        if self.is_empty() {
            return None;
        }
        let ghost tv = self@.themes;
        let mut entries: Vec<IconFile> = Vec::new();
        let n: usize = self.themes.len();
        let mut i: usize = 0;
        assert(tv.subrange(0, 0) =~= Seq::<ThemeV>::empty());
        assert(files_view(entries@) =~= Seq::<IconFileV>::empty());
        while i < n
            invariant
                n == self.themes@.len(),
                0 <= i <= n,
                tv == themes_view(self.themes@),
                files_view(entries@) == spec_chain_entries(
                    tv.subrange(0, i as int),
                    icon_name@,
                    disk.files@,
                ),
            decreases n - i,
        {
            assert(tv.subrange(0, i + 1).drop_last() =~= tv.subrange(0, i as int));
            assert(tv.subrange(0, i + 1).last() == tv[i as int]);
            let ghost before = files_view(entries@);
            let mut found = self.themes[i].entries(icon_name, disk);
            let ghost fv = files_view(found@);
            entries.append(&mut found);
            assert(files_view(entries@) =~= before + fv);
            i = i + 1;
        }
        assert(tv.subrange(0, n as int) =~= tv);
        if entries.len() == 0 {
            return None;
        }
        Icon::new(icon_name.to_owned(), self.name.clone(), entries)
    }

    /// Whether no search root held an index for this theme name.
    pub fn is_empty(&self) -> (r: bool)
        ensures
            r == (self@.themes.len() == 0),
    {
        self.themes.len() == 0
    }

    /// The theme name this chain was built for.
    pub fn name(&self) -> (r: &str)
        ensures
            r@ == self@.name,
    {
        self.name.as_str()
    }

    /// The deduplicated parent-theme names, `hicolor` last where no index
    /// declared it.
    pub fn parents(&self) -> (r: &Vec<String>)
        ensures
            strs_view(r@) == self@.parents,
    {
        &self.parents
    }

    /// An owned copy of the parent-theme names.
    pub fn clone_parents(&self) -> (r: Vec<String>)
        ensures
            strs_view(r@) == self@.parents,
    {
        let mut out: Vec<String> = Vec::new();
        let n: usize = self.parents.len();
        let mut i: usize = 0;
        while i < n
            invariant
                n == self.parents@.len(),
                0 <= i <= n,
                out@.len() == i,
                forall|k: int| 0 <= k < i ==> out@[k]@ == self.parents@[k]@,
            decreases n - i,
        {
            out.push(self.parents[i].clone());
            i = i + 1;
        }
        assert(strs_view(out@) =~= strs_view(self.parents@));
        out
    }
}

} // verus!
