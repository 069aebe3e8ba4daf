//! The configured strategy for finding the active theme name. The
//! strategies that read desktop configuration, and user callbacks, run
//! outside this library; their outcome is handed back in as a plain
//! `Result` and judged by the verified update logic.

use vstd::prelude::*;
use crate::strutil::str_eq;

verus! {

/// Enum that names the way the used theme name is determined.
#[derive(Clone, Debug)]
pub enum ThemeNameProvider {
    /// The `kdeglobals` desktop config file determines the theme name.
    KDE,
    /// The `gtk-3.0/settings.ini` desktop config file determines it.
    GTK,
    /// A theme name provided by the user.
    User(String),
    /// A custom caller-side source of theme names.
    Custom,
}

/// Whether two provider configurations are the same; a custom provider is
/// never the same as another, since its behaviour cannot be compared.
pub open spec fn spec_provider_eq(a: ThemeNameProvider, b: ThemeNameProvider) -> bool {
    match (a, b) {
        (ThemeNameProvider::KDE, ThemeNameProvider::KDE) => true,
        (ThemeNameProvider::GTK, ThemeNameProvider::GTK) => true,
        (ThemeNameProvider::User(x), ThemeNameProvider::User(y)) => x@ == y@,
        _ => false,
    }
}

impl ThemeNameProvider {
    /// Creates a new `ThemeNameProvider` that provides the given string as
    /// theme name.
    pub fn user(string: String) -> (r: ThemeNameProvider)
        ensures
            r matches ThemeNameProvider::User(s) && s@ == string@,
    {
        ThemeNameProvider::User(string)
    }

    /// Creates a new custom `ThemeNameProvider`: the caller keeps the
    /// callback and hands its outcome to the update of the theme name.
    pub fn custom() -> (r: ThemeNameProvider)
        ensures
            r is Custom,
    {
        ThemeNameProvider::Custom
    }

    /// Whether this provider configuration is the same as another.
    pub fn same_as(&self, other: &ThemeNameProvider) -> (r: bool)
        ensures
            r == spec_provider_eq(*self, *other),
    {
        match (self, other) {
            (ThemeNameProvider::KDE, ThemeNameProvider::KDE) => true,
            (ThemeNameProvider::GTK, ThemeNameProvider::GTK) => true,
            (ThemeNameProvider::User(x), ThemeNameProvider::User(y)) => str_eq(
                x.as_str(),
                y.as_str(),
            ),
            _ => false,
        }
    }
}

} // verus!
