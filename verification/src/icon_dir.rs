//! Metadata of one size-bucket directory of an icon theme, parsed from one
//! section of the theme's index data.

use vstd::prelude::*;
use crate::strutil::{parse_u16, spec_parse_u16, str_eq};

verus! {

/// The size type of icons contained in an [`IconDir`].
#[derive(Clone, Copy, Hash, Debug, PartialEq, Eq, Structural)]
pub enum IconSizeType {
    /// Icons with a fixed size.
    Fixed,
    /// Scalable icons.
    Scalable,
    /// Icons with a fixed size and a threshold.
    Threshold,
}

/// What a size-type value in an index section means; anything unrecognized
/// falls back to `Threshold`.
pub open spec fn spec_size_type(s: Seq<char>) -> IconSizeType {
    if s == "Fixed"@ {
        IconSizeType::Fixed
    } else if s == "Scalable"@ {
        IconSizeType::Scalable
    } else {
        IconSizeType::Threshold
    }
}

impl IconSizeType {
    /// Reads a size type from its name in an index section.
    pub fn from_name(s: &str) -> (r: IconSizeType)
        ensures
            r == spec_size_type(s@),
    {
        if str_eq(s, "Fixed") {
            IconSizeType::Fixed
        } else if str_eq(s, "Scalable") {
            IconSizeType::Scalable
        } else {
            IconSizeType::Threshold
        }
    }
}

/// The mathematical value of an [`IconDir`].
pub ghost struct DirInfoV {
    pub path: Seq<char>,
    pub size: u16,
    pub scale: u16,
    pub context: Option<Seq<char>>,
    pub size_type: IconSizeType,
    pub max_size: Option<u16>,
    pub min_size: Option<u16>,
    pub threshold: Option<u16>,
}

/// Struct that holds information about a directory containing a set of icons
/// with a particular size.
#[derive(Clone, Debug, Hash, PartialEq, Eq)]
pub struct IconDir {
    path: String,
    size: u16,
    scale: u16,
    context: Option<String>,
    size_type: IconSizeType,
    max_size: Option<u16>,
    min_size: Option<u16>,
    threshold: Option<u16>,
}

impl View for IconDir {
    type V = DirInfoV;

    closed spec fn view(&self) -> DirInfoV {
        DirInfoV {
            path: self.path@,
            size: self.size,
            scale: self.scale,
            context: match self.context {
                Some(c) => Some(c@),
                None => None,
            },
            size_type: self.size_type,
            max_size: self.max_size,
            min_size: self.min_size,
            threshold: self.threshold,
        }
    }
}

/// The directory metadata before any key of its section is applied.
pub open spec fn spec_default_dir(path: Seq<char>) -> DirInfoV {
    DirInfoV {
        path: path,
        size: 0,
        scale: 1,
        context: None,
        size_type: IconSizeType::Threshold,
        max_size: None,
        min_size: None,
        threshold: None,
    }
}

/// One key-value pair applied to the metadata: recognized keys set their
/// field, an unparsable number leaves the field as it was, unknown keys are
/// ignored.
pub open spec fn spec_apply_prop(d: DirInfoV, key: Seq<char>, value: Seq<char>) -> DirInfoV {
    if key == "Size"@ {
        match spec_parse_u16(value) {
            Some(v) => DirInfoV { size: v, ..d },
            None => d,
        }
    } else if key == "Scale"@ {
        match spec_parse_u16(value) {
            Some(v) => DirInfoV { scale: v, ..d },
            None => d,
        }
    } else if key == "Context"@ {
        DirInfoV { context: Some(value), ..d }
    } else if key == "Type"@ {
        DirInfoV { size_type: spec_size_type(value), ..d }
    } else if key == "Threshold"@ {
        match spec_parse_u16(value) {
            Some(v) => DirInfoV { threshold: Some(v), ..d },
            None => d,
        }
    } else if key == "MinSize"@ {
        match spec_parse_u16(value) {
            Some(v) => DirInfoV { min_size: Some(v), ..d },
            None => d,
        }
    } else if key == "MaxSize"@ {
        match spec_parse_u16(value) {
            Some(v) => DirInfoV { max_size: Some(v), ..d },
            None => d,
        }
    } else {
        d
    }
}

/// The views of a sequence of key-value pairs.
pub open spec fn props_view(p: Seq<(String, String)>) -> Seq<(Seq<char>, Seq<char>)> {
    Seq::new(p.len(), |i: int| (p[i].0@, p[i].1@))
}

/// All pairs applied in order, later values overriding earlier ones.
pub open spec fn spec_dir_fold(d: DirInfoV, props: Seq<(Seq<char>, Seq<char>)>) -> DirInfoV
    decreases props.len(),
{
    if props.len() == 0 {
        d
    } else {
        spec_apply_prop(spec_dir_fold(d, props.drop_last()), props.last().0, props.last().1)
    }
}

/// The directory metadata a section with the given path and pairs yields.
pub open spec fn spec_dir_of(path: Seq<char>, props: Seq<(Seq<char>, Seq<char>)>) -> DirInfoV {
    spec_dir_fold(spec_default_dir(path), props)
}

impl IconDir {
    /// Parses the metadata of one index section; `path` is the section name,
    /// `properties` its key-value pairs in file order.
    pub fn new(path: String, properties: &Vec<(String, String)>) -> (r: IconDir)
        ensures
            r@ == spec_dir_of(path@, props_view(properties@)),
    {
        let ghost p0 = path@;
        let ghost props = props_view(properties@);
        let mut dir = IconDir {
            path,
            size: 0,
            scale: 1,
            context: None,
            size_type: IconSizeType::Threshold,
            max_size: None,
            min_size: None,
            threshold: None,
        };
        assert(props.subrange(0, 0) =~= Seq::<(Seq<char>, Seq<char>)>::empty());
        let n: usize = properties.len();
        let mut i: usize = 0;
        while i < n
            invariant
                n == properties@.len(),
                0 <= i <= n,
                props == props_view(properties@),
                dir@ == spec_dir_fold(spec_default_dir(p0), props.subrange(0, i as int)),
            decreases n - i,
        {
            let key: &String = &properties[i].0;
            let value: &String = &properties[i].1;
            if str_eq(key.as_str(), "Size") {
                if let Some(v) = parse_u16(value.as_str()) {
                    dir.size = v;
                }
            } else if str_eq(key.as_str(), "Scale") {
                if let Some(v) = parse_u16(value.as_str()) {
                    dir.scale = v;
                }
            } else if str_eq(key.as_str(), "Context") {
                dir.context = Some(value.clone());
            } else if str_eq(key.as_str(), "Type") {
                dir.size_type = IconSizeType::from_name(value.as_str());
            } else if str_eq(key.as_str(), "Threshold") {
                if let Some(v) = parse_u16(value.as_str()) {
                    dir.threshold = Some(v);
                }
            } else if str_eq(key.as_str(), "MinSize") {
                if let Some(v) = parse_u16(value.as_str()) {
                    dir.min_size = Some(v);
                }
            } else if str_eq(key.as_str(), "MaxSize") {
                if let Some(v) = parse_u16(value.as_str()) {
                    dir.max_size = Some(v);
                }
            }
            assert(props.subrange(0, i + 1).drop_last() =~= props.subrange(0, i as int));
            assert(props.subrange(0, i + 1).last() == props[i as int]);
            i = i + 1;
        }
        assert(props.subrange(0, n as int) =~= props);
        dir
    }

    /// Returns the path of this icon dir.
    pub fn path(&self) -> (r: &str)
        ensures
            r@ == self@.path,
    {
        self.path.as_str()
    }

    /// Returns the size of the icons contained.
    pub fn size(&self) -> (r: u16)
        ensures
            r == self@.size,
    {
        self.size
    }

    /// Returns the scale of the icons contained.
    pub fn scale(&self) -> (r: u16)
        ensures
            r == self@.scale,
    {
        self.scale
    }

    /// Returns the context of the icons contained.
    pub fn context(&self) -> (r: Option<&str>)
        ensures
            match r {
                Some(c) => self@.context == Some(c@),
                None => self@.context is None,
            },
    {
        match &self.context {
            Some(c) => Some(c.as_str()),
            None => None,
        }
    }

    /// Returns the type of icon sizes contained.
    pub fn size_type(&self) -> (r: IconSizeType)
        ensures
            r == self@.size_type,
    {
        self.size_type
    }

    /// Returns the max size of icons contained.
    pub fn max_size(&self) -> (r: u16)
        ensures
            r == spec_max_size(self@),
    {
        match self.max_size {
            Some(m) => m,
            None => self.size,
        }
    }

    /// Returns the min size of icons contained.
    pub fn min_size(&self) -> (r: u16)
        ensures
            r == spec_min_size(self@),
    {
        match self.min_size {
            Some(m) => m,
            None => self.size,
        }
    }

    /// Returns the threshold of icons contained.
    pub fn threshold(&self) -> (r: u16)
        ensures
            r == spec_threshold(self@),
    {
        match self.threshold {
            Some(t) => t,
            None => 2,
        }
    }

    /// A directory is usable only if its size was set to something non-zero.
    pub fn is_valid(&self) -> (r: bool)
        ensures
            r == spec_dir_valid(self@),
    {
        self.size != 0
    }

    /// An equal copy whose directory metadata the caller can own.
    pub fn duplicate(&self) -> (r: IconDir)
        ensures
            r == *self,
    {
        IconDir {
            path: self.path.clone(),
            size: self.size,
            scale: self.scale,
            context: match &self.context {
                Some(c) => Some(c.clone()),
                None => None,
            },
            size_type: self.size_type,
            max_size: self.max_size,
            min_size: self.min_size,
            threshold: self.threshold,
        }
    }
}

/// The effective maximum size: the declared one, else the nominal size.
pub open spec fn spec_max_size(d: DirInfoV) -> u16 {
    match d.max_size {
        Some(m) => m,
        None => d.size,
    }
}

/// The effective minimum size: the declared one, else the nominal size.
pub open spec fn spec_min_size(d: DirInfoV) -> u16 {
    match d.min_size {
        Some(m) => m,
        None => d.size,
    }
}

/// The effective threshold: the declared one, else 2.
pub open spec fn spec_threshold(d: DirInfoV) -> u16 {
    match d.threshold {
        Some(t) => t,
        None => 2,
    }
}

/// A directory entry is valid exactly when its size is non-zero.
pub open spec fn spec_dir_valid(d: DirInfoV) -> bool {
    d.size != 0
}

} // verus!
