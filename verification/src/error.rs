//! The error taxonomy: index-loading failures (recovered locally during
//! chain building), lookup failures, and failures of the theme-name
//! provider.

use vstd::prelude::*;

verus! {

/// Why loading one theme index at one search root failed. Such a failure
/// never aborts a search; the next root or theme is tried.
#[derive(Clone, Copy, Debug, PartialEq, Eq, Structural)]
pub enum ThemeError {
    /// The probed theme directory is not a directory.
    NotDirectory,
    /// The theme directory has no `index.theme` file.
    IndexThemeNotFound,
    /// The index file is not parsable as an INI text.
    ParseFailed,
    /// The index parsed, but no valid icon directory section remained.
    KeyListEmpty,
}

/// Why the theme-name provider could not supply a theme name.
#[derive(Clone, Debug, PartialEq, Eq)]
pub enum ProviderError {
    /// The desktop config file could not be found.
    ConfigNotFound,
    /// The desktop config file could not be read or parsed.
    LoadConfig(String),
    /// The config file holds no theme name.
    ConfigMissingThemeName,
    /// The platform base-directory lookup failed.
    BaseDirs(String),
    /// A custom provider failed, with its message.
    Custom(String),
}

/// Error type returned by this crate.
#[derive(Clone, Debug, PartialEq, Eq)]
pub enum Error {
    /// No icon with the given name could be found.
    IconNotFound {
        /// The given icon name.
        icon_name: String,
    },
    /// No theme with the given name could be found.
    ThemeNotFound {
        /// The given theme name.
        theme_name: String,
    },
    /// Error updating the default theme name.
    ThemeNameProvider {
        /// The source for the error.
        source: ProviderError,
    },
}

impl Error {
    /// The error for an icon name that no searched theme provides.
    pub fn icon_not_found(icon_name: String) -> (r: Error)
        ensures
            r matches Error::IconNotFound { icon_name: n } && n@ == icon_name@,
    {
        Error::IconNotFound { icon_name }
    }

    /// The error for a theme name that no search root holds.
    pub fn theme_not_found(theme_name: String) -> (r: Error)
        ensures
            r matches Error::ThemeNotFound { theme_name: n } && n@ == theme_name@,
    {
        Error::ThemeNotFound { theme_name }
    }
}

} // verus!
