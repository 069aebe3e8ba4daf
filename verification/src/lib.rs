//! Resolution of logical icon names to on-disk icon files, following the
//! freedesktop icon-theme convention: size-bucketed theme directories,
//! theme inheritance across search roots, a cache of resolved theme chains,
//! and a best-fit size selection over the candidate files.
//!
//! All filesystem content enters through plain data (the [`disk::Disk`]
//! model); the resolution logic itself is verified.

pub mod cache;
pub mod disk;
pub mod icon;
pub mod icon_dir;
pub mod icon_file;
pub mod error;
pub mod icon_theme;
pub mod index_data;
pub mod loader;
pub mod search_paths;
pub mod strutil;
pub mod theme_name_provider;

pub use cache::ThemeCache;
pub use disk::{Disk, IndexSource, ThemeDirData};
pub use error::{Error, ProviderError, ThemeError};
pub use icon::Icon;
pub use icon_dir::{IconDir, IconSizeType};
pub use icon_file::{IconFile, IconFileType};
pub use icon_theme::{IconTheme, IconThemeChain};
pub use index_data::IniSection;
pub use loader::IconLoader;
pub use search_paths::SearchPaths;
pub use strutil::parse_u16;
pub use theme_name_provider::ThemeNameProvider;
