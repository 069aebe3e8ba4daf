//! A resolved icon — its name, the theme it was found in, and its candidate
//! files — together with the best-fit file selection over those files.

use vstd::prelude::*;
use crate::icon_dir::{IconSizeType, spec_threshold};
use crate::icon_file::{IconFile, IconFileV, files_view};

verus! {

/// The mathematical value of an [`Icon`].
pub ghost struct IconV {
    pub icon_name: Seq<char>,
    pub theme_name: Seq<char>,
    pub files: Seq<IconFileV>,
}

/// An icon is well formed when none of its parts is empty.
pub open spec fn spec_icon_wf(v: IconV) -> bool {
    v.icon_name.len() > 0 && v.theme_name.len() > 0 && v.files.len() > 0
}

/// What constructing an icon yields: no icon at all where the name, the
/// theme name or the file list is empty.
pub open spec fn spec_new_icon(
    icon_name: Seq<char>,
    theme_name: Seq<char>,
    files: Seq<IconFileV>,
) -> Option<IconV> {
    if icon_name.len() == 0 || theme_name.len() == 0 || files.len() == 0 {
        None
    } else {
        Some(IconV { icon_name, theme_name, files })
    }
}

/// Struct containing information about a themed icon.
#[derive(Clone, Debug, Hash, PartialEq, Eq)]
pub struct Icon {
    pub icon_name: String,
    pub theme_name: String,
    pub files: Vec<IconFile>,
}

impl View for Icon {
    type V = IconV;

    open spec fn view(&self) -> IconV {
        IconV {
            icon_name: self.icon_name@,
            theme_name: self.theme_name@,
            files: files_view(self.files@),
        }
    }
}

/// Whether `mask[i]` is what `filter` may answer for `files[i]`, for every
/// candidate.
pub open spec fn mask_matches<F: Fn(&IconFile) -> bool>(
    filter: F,
    files: Seq<IconFile>,
    mask: Seq<bool>,
) -> bool {
    mask.len() == files.len() && (forall|i: int|
        0 <= i < files.len() ==> call_ensures(filter, (&files[i],), mask[i]))
}

/// The index of the first candidate accepted by the mask and the predicate,
/// among the first `n`.
pub open spec fn spec_first_where(
    files: Seq<IconFileV>,
    mask: Seq<bool>,
    pred: spec_fn(IconFileV) -> bool,
    n: int,
) -> Option<int>
    decreases n,
{
    if n <= 0 {
        None
    } else {
        match spec_first_where(files, mask, pred, n - 1) {
            Some(i) => Some(i),
            None => if mask[n - 1] && pred(files[n - 1]) {
                Some(n - 1)
            } else {
                None
            },
        }
    }
}

/// A match found early stays the result as the scan goes on.
proof fn lemma_first_where_extend(
    files: Seq<IconFileV>,
    mask: Seq<bool>,
    pred: spec_fn(IconFileV) -> bool,
    k: int,
    n: int,
)
    requires
        0 <= k <= n,
        spec_first_where(files, mask, pred, k) is Some,
    ensures
        spec_first_where(files, mask, pred, n) == spec_first_where(files, mask, pred, k),
    decreases n - k,
{
    if k < n {
        lemma_first_where_extend(files, mask, pred, k, n - 1);
    }
}

/// An exact directory-size match.
pub open spec fn pred_exact(size: u16) -> spec_fn(IconFileV) -> bool {
    |f: IconFileV| f.dir_info.size == size
}

/// A `Threshold` directory whose window `[size - threshold, size +
/// threshold]` holds the requested size.
pub open spec fn pred_window(size: u16) -> spec_fn(IconFileV) -> bool {
    |f: IconFileV|
        f.dir_info.size_type == IconSizeType::Threshold && f.dir_info.size - spec_threshold(
            f.dir_info,
        ) <= size as int <= f.dir_info.size + spec_threshold(f.dir_info)
}

/// Among the first `n` accepted candidates whose size is strictly greater
/// than requested, the earliest one of smallest size.
pub open spec fn spec_min_bigger_upto(
    files: Seq<IconFileV>,
    mask: Seq<bool>,
    size: u16,
    n: int,
) -> Option<int>
    decreases n,
{
    if n <= 0 {
        None
    } else {
        let prev = spec_min_bigger_upto(files, mask, size, n - 1);
        let i = n - 1;
        if mask[i] && files[i].dir_info.size > size {
            match prev {
                None => Some(i),
                Some(b) => if files[i].dir_info.size < files[b].dir_info.size {
                    Some(i)
                } else {
                    Some(b)
                },
            }
        } else {
            prev
        }
    }
}

/// Among the first `n` accepted candidates, the latest one of largest size.
pub open spec fn spec_max_upto(files: Seq<IconFileV>, mask: Seq<bool>, n: int) -> Option<int>
    decreases n,
{
    if n <= 0 {
        None
    } else {
        let prev = spec_max_upto(files, mask, n - 1);
        let i = n - 1;
        if mask[i] {
            match prev {
                None => Some(i),
                Some(b) => if files[i].dir_info.size >= files[b].dir_info.size {
                    Some(i)
                } else {
                    Some(b)
                },
            }
        } else {
            prev
        }
    }
}

/// The size-resolution procedure over the accepted candidates, first rule
/// that matches wins: exact size; a fitting threshold window; the smallest
/// size strictly greater than requested; the largest size available.
pub open spec fn spec_select(files: Seq<IconFileV>, mask: Seq<bool>, size: u16) -> Option<int> {
    let n = files.len() as int;
    match spec_first_where(files, mask, pred_exact(size), n) {
        Some(i) => Some(i),
        None => match spec_first_where(files, mask, pred_window(size), n) {
            Some(i) => Some(i),
            None => match spec_min_bigger_upto(files, mask, size, n) {
                Some(i) => Some(i),
                None => spec_max_upto(files, mask, n),
            },
        },
    }
}

/// The mask admitting exactly the candidates of one scale.
pub open spec fn scale_mask(files: Seq<IconFileV>, scale: u16) -> Seq<bool> {
    Seq::new(files.len(), |i: int| files[i].dir_info.scale == scale)
}

/// The mask admitting every candidate.
pub open spec fn true_mask(len: nat) -> Seq<bool> {
    Seq::new(len, |i: int| true)
}

/// The outer selection: size resolution at the requested scale; then at
/// scale 1 with the size scaled up; then with no scale restriction.
pub open spec fn spec_select_scaled(files: Seq<IconFileV>, size: u16, scale: u16) -> Option<int> {
    match spec_select(files, scale_mask(files, scale), size) {
        Some(i) => Some(i),
        None => match spec_select(
            files,
            scale_mask(files, 1),
            ((size as int) * (scale as int)) as u16,
        ) {
            Some(i) => Some(i),
            None => spec_select(files, true_mask(files.len()), size),
        },
    }
}

/// With every candidate admitted and at least one present, selection
/// cannot fail: the last pass returns the largest available size.
pub proof fn lemma_select_total(files: Seq<IconFileV>, mask: Seq<bool>, size: u16)
    requires
        mask.len() == files.len(),
        files.len() > 0,
        exists|i: int| 0 <= i < mask.len() && mask[i],
    ensures
        spec_select(files, mask, size) is Some,
{
    let i = choose|i: int| 0 <= i < mask.len() && mask[i];
    lemma_max_some(files, mask, i + 1, files.len() as int);
}

proof fn lemma_max_some(files: Seq<IconFileV>, mask: Seq<bool>, k: int, n: int)
    requires
        0 < k <= n,
        mask[k - 1],
    ensures
        spec_max_upto(files, mask, n) is Some,
    decreases n,
{
    if n > k {
        lemma_max_some(files, mask, k, n - 1);
    }
}

/// The size-resolution procedure, run over `files` restricted to the
/// candidates that `mask` admits.
pub fn select_index(files: &Vec<IconFile>, mask: &Vec<bool>, size: u16) -> (r: Option<usize>)
    requires
        mask@.len() == files@.len(),
    ensures
        match r {
            Some(i) => 0 <= i < files@.len() && spec_select(files_view(files@), mask@, size)
                == Some(i as int),
            None => spec_select(files_view(files@), mask@, size) is None,
        },
{
    let ghost fv = files_view(files@);
    let n: usize = files.len();
    // Pass one: an exact size match.
    let mut i: usize = 0;
    while i < n
        invariant
            n == files@.len(),
            mask@.len() == n,
            fv == files_view(files@),
            0 <= i <= n,
            spec_first_where(fv, mask@, pred_exact(size), i as int) is None,
        decreases n - i,
    {
        if mask[i] && files[i].size() == size {
            proof {
                lemma_first_where_extend(fv, mask@, pred_exact(size), i + 1, n as int);
            }
            return Some(i);
        }
        i = i + 1;
    }
    // Pass two: a threshold window that holds the requested size.
    let mut i: usize = 0;
    while i < n
        invariant
            n == files@.len(),
            mask@.len() == n,
            fv == files_view(files@),
            0 <= i <= n,
            spec_first_where(fv, mask@, pred_exact(size), n as int) is None,
            spec_first_where(fv, mask@, pred_window(size), i as int) is None,
        decreases n - i,
    {
        let f = &files[i];
        let fsize: u32 = f.size() as u32;
        let thr: u32 = f.threshold() as u32;
        if mask[i] && f.dir_type() == IconSizeType::Threshold && fsize <= size as u32 + thr
            && size as u32 <= fsize + thr {
            proof {
                lemma_first_where_extend(fv, mask@, pred_window(size), i + 1, n as int);
            }
            return Some(i);
        }
        i = i + 1;
    }
    // Pass three: the smallest size strictly greater than requested.
    let mut best: Option<usize> = None;
    let mut i: usize = 0;
    while i < n
        invariant
            n == files@.len(),
            mask@.len() == n,
            fv == files_view(files@),
            0 <= i <= n,
            match best {
                Some(b) => b < i && spec_min_bigger_upto(fv, mask@, size, i as int) == Some(
                    b as int,
                ),
                None => spec_min_bigger_upto(fv, mask@, size, i as int) is None,
            },
        decreases n - i,
    {
        if mask[i] && files[i].size() > size {
            match best {
                None => {
                    best = Some(i);
                },
                Some(b) => {
                    if files[i].size() < files[b].size() {
                        best = Some(i);
                    }
                },
            }
        }
        i = i + 1;
    }
    if let Some(b) = best {
        proof {
            assert(spec_first_where(fv, mask@, pred_exact(size), n as int) is None);
            assert(spec_first_where(fv, mask@, pred_window(size), n as int) is None);
        }
        return Some(b);
    }
    // Pass four: the largest size available.
    let mut best: Option<usize> = None;
    let mut i: usize = 0;
    while i < n
        invariant
            n == files@.len(),
            mask@.len() == n,
            fv == files_view(files@),
            0 <= i <= n,
            match best {
                Some(b) => b < i && spec_max_upto(fv, mask@, i as int) == Some(b as int),
                None => spec_max_upto(fv, mask@, i as int) is None,
            },
        decreases n - i,
    {
        if mask[i] {
            match best {
                None => {
                    best = Some(i);
                },
                Some(b) => {
                    if files[i].size() >= files[b].size() {
                        best = Some(i);
                    }
                },
            }
        }
        i = i + 1;
    }
    match best {
        Some(b) => Some(b),
        None => None,
    }
}

impl Icon {
    /// Builds an icon from its parts; yields nothing where the icon name,
    /// the theme name or the file list is empty.
    pub fn new(icon_name: String, theme_name: String, files: Vec<IconFile>) -> (r: Option<Icon>)
        ensures
            match spec_new_icon(icon_name@, theme_name@, files_view(files@)) {
                Some(iv) => r matches Some(ic) && ic@ == iv,
                None => r is None,
            },
    {
        if icon_name.as_str().is_empty() || theme_name.as_str().is_empty() || files.len() == 0 {
            None
        } else {
            Some(Icon { icon_name, theme_name, files })
        }
    }

    /// Returns the associated icon's name.
    pub fn icon_name(&self) -> (r: &str)
        ensures
            r@ == self@.icon_name,
    {
        self.icon_name.as_str()
    }

    /// Returns the associated icon's theme name.
    pub fn theme_name(&self) -> (r: &str)
        ensures
            r@ == self@.theme_name,
    {
        self.theme_name.as_str()
    }

    /// Returns the icon files found for the associated icon.
    pub fn files(&self) -> (r: &Vec<IconFile>)
        ensures
            files_view(r@) == self@.files,
    {
        &self.files
    }

    /// Returns the file of the associated icon that fits the given size
    /// best, preferring scale 1.
    pub fn file_for_size(&self, size: u16) -> (r: &IconFile)
        requires
            spec_icon_wf(self@),
        ensures
            exists|i: int|
                spec_select_scaled(self@.files, size, 1) == Some(i) && 0 <= i < self@.files.len()
                    && r@ == self@.files[i],
    {
        self.file_for_size_scaled(size, 1)
    }

    /// Returns the file of the associated icon that fits the given size and
    /// scale best: the best size at the requested scale; else the best file
    /// of size `size * scale` at scale 1; else the best size over all
    /// candidates.
    pub fn file_for_size_scaled(&self, size: u16, scale: u16) -> (r: &IconFile)
        requires
            spec_icon_wf(self@),
            size as int * scale as int <= u16::MAX as int,
        ensures
            exists|i: int|
                spec_select_scaled(self@.files, size, scale) == Some(i) && 0 <= i
                    < self@.files.len() && r@ == self@.files[i],
    {
        let ghost fv = self@.files;
        let n: usize = self.files.len();
        // The requested scale.
        let mut mask: Vec<bool> = Vec::new();
        let mut i: usize = 0;
        while i < n
            invariant
                n == self.files@.len(),
                fv == files_view(self.files@),
                0 <= i <= n,
                mask@.len() == i,
                forall|k: int| 0 <= k < i ==> mask@[k] == (fv[k].dir_info.scale == scale),
            decreases n - i,
        {
            mask.push(self.files[i].scale() == scale);
            i = i + 1;
        }
        assert(mask@ =~= scale_mask(fv, scale));
        if let Some(idx) = select_index(&self.files, &mask, size) {
            proof {
                assert(spec_select_scaled(fv, size, scale) == Some(idx as int));
                assert(fv[idx as int] == self.files@[idx as int]@);
                assert(exists|i: int|
                    spec_select_scaled(self@.files, size, scale) == Some(i) && 0 <= i
                        < self@.files.len() && self.files@[idx as int]@ == self@.files[i]);
            }
            return &self.files[idx];
        }
        // Scale 1, at the scaled-up size.
        let size2: u16 = size * scale;
        let mut mask1: Vec<bool> = Vec::new();
        let mut i: usize = 0;
        while i < n
            invariant
                n == self.files@.len(),
                fv == files_view(self.files@),
                0 <= i <= n,
                mask1@.len() == i,
                forall|k: int| 0 <= k < i ==> mask1@[k] == (fv[k].dir_info.scale == 1),
            decreases n - i,
        {
            mask1.push(self.files[i].scale() == 1);
            i = i + 1;
        }
        assert(mask1@ =~= scale_mask(fv, 1));
        if let Some(idx) = select_index(&self.files, &mask1, size2) {
            proof {
                assert(size2 == ((size as int) * (scale as int)) as u16);
                assert(spec_select_scaled(fv, size, scale) == Some(idx as int));
                assert(fv[idx as int] == self.files@[idx as int]@);
                assert(exists|i: int|
                    spec_select_scaled(self@.files, size, scale) == Some(i) && 0 <= i
                        < self@.files.len() && self.files@[idx as int]@ == self@.files[i]);
            }
            return &self.files[idx];
        }
        // No scale restriction.
        let mut maskt: Vec<bool> = Vec::new();
        let mut i: usize = 0;
        while i < n
            invariant
                0 <= i <= n,
                maskt@.len() == i,
                forall|k: int| 0 <= k < i ==> maskt@[k] == true,
            decreases n - i,
        {
            maskt.push(true);
            i = i + 1;
        }
        assert(maskt@ =~= true_mask(fv.len()));
        proof {
            assert(maskt@[0]);
            lemma_select_total(fv, maskt@, size);
        }
        let idx = select_index(&self.files, &maskt, size).unwrap();
        proof {
            assert(spec_select_scaled(fv, size, scale) == Some(idx as int));
            assert(fv[idx as int] == self.files@[idx as int]@);
            assert(exists|i: int|
                spec_select_scaled(self@.files, size, scale) == Some(i) && 0 <= i
                    < self@.files.len() && self.files@[idx as int]@ == self@.files[i]);
        }
        &self.files[idx]
    }

    /// Returns the best-fitting file among those the filter accepts, or
    /// nothing where it accepts none.
    pub fn file_for_size_filtered<F: Fn(&IconFile) -> bool>(&self, size: u16, filter: F) -> (r:
        Option<&IconFile>)
        requires
            forall|f: &IconFile| #[trigger] call_requires(filter, (f,)),
        ensures
            match r {
                Some(f) => exists|mask: Seq<bool>, i: int|
                    mask_matches(filter, self.files@, mask) && spec_select(self@.files, mask, size)
                        == Some(i) && 0 <= i < self@.files.len() && f@ == self@.files[i],
                None => exists|mask: Seq<bool>|
                    mask_matches(filter, self.files@, mask) && spec_select(self@.files, mask, size)
                        is None,
            },
    {
        let ghost fv = self@.files;
        let n: usize = self.files.len();
        let mut mask: Vec<bool> = Vec::new();
        let mut i: usize = 0;
        while i < n
            invariant
                n == self.files@.len(),
                fv == files_view(self.files@),
                0 <= i <= n,
                mask@.len() == i,
                forall|f: &IconFile| #[trigger] call_requires(filter, (f,)),
                forall|k: int|
                    0 <= k < i ==> call_ensures(filter, (&self.files[k],), #[trigger] mask@[k]),
            decreases n - i,
        {
            let accepted = filter(&self.files[i]);
            mask.push(accepted);
            i = i + 1;
        }
        assert(mask_matches(filter, self.files@, mask@));
        match select_index(&self.files, &mask, size) {
            Some(idx) => {
                proof {
                    assert(spec_select(fv, mask@, size) == Some(idx as int));
                    assert(fv[idx as int] == self.files@[idx as int]@);
                    assert(exists|m: Seq<bool>, i: int|
                        mask_matches(filter, self.files@, m) && spec_select(self@.files, m, size)
                            == Some(i) && 0 <= i < self@.files.len() && self.files@[idx as int]@
                            == self@.files[i]);
                }
                Some(&self.files[idx])
            },
            None => {
                proof {
                    assert(spec_select(fv, mask@, size) is None);
                }
                None
            },
        }
    }
}

} // verus!
