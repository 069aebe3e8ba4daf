//! The plain-data picture of the parts of the filesystem that resolution
//! reads: for each probed theme directory the outcome of looking for its
//! index file, the set of icon files that exist, and the system search
//! roots. Callers fill it in; the resolution logic is verified against it.

use vstd::prelude::*;
use crate::strutil::{contains_str, spec_contains_str, str_eq};

verus! {

/// What looking for `root/theme/index.theme` gave.
#[derive(Clone, Debug, PartialEq, Eq)]
pub enum IndexSource {
    /// `root/theme` is not a directory.
    NotADirectory,
    /// The directory exists but holds no `index.theme` file.
    NoIndexFile,
    /// The text of the `index.theme` file.
    Content(String),
}

/// The index-file outcome for one `root/theme` directory.
#[derive(Clone, Debug, PartialEq, Eq)]
pub struct ThemeDirData {
    pub root: String,
    pub theme: String,
    pub source: IndexSource,
}

/// Everything the resolution reads from disk, as plain data.
#[derive(Clone, Debug, PartialEq, Eq)]
pub struct Disk {
    /// One entry per probed `root/theme` directory.
    pub theme_dirs: Vec<ThemeDirData>,
    /// The paths of the icon files that exist.
    pub files: Vec<String>,
    /// The search roots the platform reports when no custom roots are set.
    pub system_paths: Vec<String>,
}

/// The index outcome recorded for `root/theme`: the first matching entry,
/// or `NotADirectory` where none was recorded.
pub open spec fn spec_source_for(
    dirs: Seq<ThemeDirData>,
    root: Seq<char>,
    theme: Seq<char>,
) -> IndexSource
    decreases dirs.len(),
{
    if dirs.len() == 0 {
        IndexSource::NotADirectory
    } else if dirs.first().root@ == root && dirs.first().theme@ == theme {
        dirs.first().source
    } else {
        spec_source_for(dirs.drop_first(), root, theme)
    }
}

impl Disk {
    /// The recorded index outcome for `root/theme`.
    pub fn source_for(&self, root: &str, theme: &str) -> (r: &IndexSource)
        ensures
            *r == spec_source_for(self.theme_dirs@, root@, theme@),
    {
        let n: usize = self.theme_dirs.len();
        let mut i: usize = 0;
        assert(self.theme_dirs@.subrange(0, n as int) =~= self.theme_dirs@);
        while i < n
            invariant
                n == self.theme_dirs@.len(),
                0 <= i <= n,
                spec_source_for(self.theme_dirs@, root@, theme@) == spec_source_for(
                    self.theme_dirs@.subrange(i as int, n as int),
                    root@,
                    theme@,
                ),
            decreases n - i,
        {
            let entry = &self.theme_dirs[i];
            proof {
                assert(self.theme_dirs@.subrange(i as int, n as int).first() == self.theme_dirs@[
                    i as int]);
                assert(self.theme_dirs@.subrange(i as int, n as int).drop_first()
                    =~= self.theme_dirs@.subrange(i + 1, n as int));
            }
            if str_eq(entry.root.as_str(), root) && str_eq(entry.theme.as_str(), theme) {
                return &entry.source;
            }
            i = i + 1;
        }
        proof {
            assert(self.theme_dirs@.subrange(n as int, n as int).len() == 0);
        }
        &IndexSource::NotADirectory
    }

    /// Whether an icon file with this path exists.
    pub fn file_exists(&self, path: &str) -> (r: bool)
        ensures
            r == spec_contains_str(self.files@, path@),
    {
        contains_str(&self.files, path)
    }
}

} // verus!
