//! A single icon file on disk: its path, its file type, and the metadata of
//! the size-bucket directory it lives in.

use vstd::prelude::*;
use crate::icon_dir::{DirInfoV, IconDir, IconSizeType, spec_max_size, spec_min_size,
    spec_threshold};

verus! {

/// Enum representing the different file types an icon can be.
#[derive(Clone, Copy, Debug, Hash, PartialEq, Eq, Structural)]
pub enum IconFileType {
    /// PNG file type
    PNG,
    /// SVG file type
    SVG,
    /// XPM file type
    XPM,
}

/// The fixed priority order in which file types are probed.
pub open spec fn spec_file_types() -> Seq<IconFileType> {
    seq![IconFileType::PNG, IconFileType::SVG, IconFileType::XPM]
}

/// The file-name extension of a file type.
pub open spec fn spec_extension(t: IconFileType) -> Seq<char> {
    match t {
        IconFileType::PNG => "png"@,
        IconFileType::SVG => "svg"@,
        IconFileType::XPM => "xpm"@,
    }
}

impl IconFileType {
    /// Every file type, in the priority order used when icons are gathered.
    pub fn types() -> (r: Vec<IconFileType>)
        ensures
            r@ == spec_file_types(),
    {
        let mut r: Vec<IconFileType> = Vec::new();
        r.push(IconFileType::PNG);
        r.push(IconFileType::SVG);
        r.push(IconFileType::XPM);
        proof {
            assert(r@ =~= spec_file_types());
        }
        r
    }

    /// The file-name extension belonging to this type.
    pub fn extension(&self) -> (r: &'static str)
        ensures
            r@ == spec_extension(*self),
    {
        match self {
            IconFileType::PNG => "png",
            IconFileType::SVG => "svg",
            IconFileType::XPM => "xpm",
        }
    }
}

/// The mathematical value of an [`IconFile`].
pub ghost struct IconFileV {
    pub dir_info: DirInfoV,
    pub path: Seq<char>,
    pub icon_type: IconFileType,
}

/// The views of a list of icon files.
pub open spec fn files_view(v: Seq<IconFile>) -> Seq<IconFileV> {
    Seq::new(v.len(), |i: int| v[i]@)
}

/// Struct containing information about a single icon file on disk.
#[derive(Clone, Debug, Hash, PartialEq, Eq)]
pub struct IconFile {
    dir_info: IconDir,
    path: String,
    icon_type: IconFileType,
}

impl View for IconFile {
    type V = IconFileV;

    closed spec fn view(&self) -> IconFileV {
        IconFileV { dir_info: self.dir_info@, path: self.path@, icon_type: self.icon_type }
    }
}

impl IconFile {
    /// Builds the record for one found file.
    pub fn new(dir_info: IconDir, path: String, icon_type: IconFileType) -> (r: IconFile)
        ensures
            r@ == (IconFileV { dir_info: dir_info@, path: path@, icon_type }),
    {
        IconFile { dir_info, path, icon_type }
    }

    /// Returns information about the directory the icon file lives in.
    pub fn dir_info(&self) -> (r: &IconDir)
        ensures
            r@ == self@.dir_info,
    {
        &self.dir_info
    }

    /// Returns this icon's path.
    pub fn path(&self) -> (r: &str)
        ensures
            r@ == self@.path,
    {
        self.path.as_str()
    }

    /// Returns this icon's type.
    pub fn icon_type(&self) -> (r: IconFileType)
        ensures
            r == self@.icon_type,
    {
        self.icon_type
    }

    /// Returns this icon's size.
    pub fn size(&self) -> (r: u16)
        ensures
            r == self@.dir_info.size,
    {
        self.dir_info.size()
    }

    /// Returns this icon's scale.
    pub fn scale(&self) -> (r: u16)
        ensures
            r == self@.dir_info.scale,
    {
        self.dir_info.scale()
    }

    /// Returns this icon's context.
    pub fn context(&self) -> (r: Option<&str>)
        ensures
            match r {
                Some(c) => self@.dir_info.context == Some(c@),
                None => self@.dir_info.context is None,
            },
    {
        self.dir_info.context()
    }

    /// Returns the size type of the directory this icon lives in.
    pub fn dir_type(&self) -> (r: IconSizeType)
        ensures
            r == self@.dir_info.size_type,
    {
        self.dir_info.size_type()
    }

    /// Returns this icon's max size.
    pub fn max_size(&self) -> (r: u16)
        ensures
            r == spec_max_size(self@.dir_info),
    {
        self.dir_info.max_size()
    }

    /// Returns this icon's min size.
    pub fn min_size(&self) -> (r: u16)
        ensures
            r == spec_min_size(self@.dir_info),
    {
        self.dir_info.min_size()
    }

    /// Returns this icon's size threshold.
    pub fn threshold(&self) -> (r: u16)
        ensures
            r == spec_threshold(self@.dir_info),
    {
        self.dir_info.threshold()
    }

    /// An equal copy whose record the caller can own.
    pub fn duplicate(&self) -> (r: IconFile)
        ensures
            r == *self,
    {
        IconFile {
            dir_info: self.dir_info.duplicate(),
            path: self.path.clone(),
            icon_type: self.icon_type,
        }
    }
}

} // verus!
