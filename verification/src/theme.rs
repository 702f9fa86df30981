//! The theme preference and how it resolves to a light or dark appearance.

use crate::text::same_text;
use vstd::prelude::*;
use vstd::std_specs::convert::FromSpecImpl;

verus! {

/// The user's theme preference.
#[derive(Clone, Copy, Debug, PartialEq, Eq, Structural)]
pub enum Theme {
    /// Follow the system.
    Auto,
    Light,
    Dark,
}

/// The appearance that is actually applied.
#[derive(Clone, Copy, Debug, PartialEq, Eq, Structural)]
pub enum ResolvedTheme {
    Light,
    Dark,
}

/// What the system reports as its appearance.
#[derive(Clone, Copy, Debug, PartialEq, Eq, Structural)]
pub enum SystemMode {
    Light,
    Dark,
    /// The system states no preference.
    Unspecified,
}

impl Default for Theme {
    fn default() -> (theme: Self)
        ensures
            theme == Theme::Auto,
    {
        Theme::Auto
    }
}

/// The theme that a name stands for: `light` and `dark` name themselves,
/// anything else means to follow the system.
pub open spec fn theme_named(name: Seq<char>) -> Theme {
    if name == "light"@ {
        Theme::Light
    } else if name == "dark"@ {
        Theme::Dark
    } else {
        Theme::Auto
    }
}

impl From<&str> for Theme {
    fn from(name: &str) -> (theme: Self) {
        if same_text(name, "light") {
            Theme::Light
        } else if same_text(name, "dark") {
            Theme::Dark
        } else {
            Theme::Auto
        }
    }
}

impl FromSpecImpl<&str> for Theme {
    open spec fn obeys_from_spec() -> bool {
        true
    }

    open spec fn from_spec(name: &str) -> Self {
        theme_named(name@)
    }
}

impl Theme {
    /// The name under which the theme is stored: the inverse of `from`.
    pub fn name(&self) -> (name: &'static str)
        ensures
            name@ == theme_name(*self),
    {
        match self {
            Theme::Auto => "auto",
            Theme::Light => "light",
            Theme::Dark => "dark",
        }
    }
}

/// The name under which a theme is stored.
pub open spec fn theme_name(theme: Theme) -> Seq<char> {
    match theme {
        Theme::Auto => "auto"@,
        Theme::Light => "light"@,
        Theme::Dark => "dark"@,
    }
}

/// The appearance for a preference, given what the system reports: a fixed
/// preference wins; `Auto` follows the system and falls back to light where
/// the system states nothing or could not be asked.
pub open spec fn resolved(theme: Theme, detected: Option<SystemMode>) -> ResolvedTheme {
    match theme {
        Theme::Light => ResolvedTheme::Light,
        Theme::Dark => ResolvedTheme::Dark,
        Theme::Auto => match detected {
            Some(SystemMode::Dark) => ResolvedTheme::Dark,
            _ => ResolvedTheme::Light,
        },
    }
}

/// Resolves a theme preference. `detected` is what the system reported, or
/// `None` if asking it failed.
pub fn resolve_theme(theme: Theme, detected: Option<SystemMode>) -> (applied: ResolvedTheme)
    ensures
        applied == resolved(theme, detected),
{
    match theme {
        Theme::Auto => match detected {
            Some(SystemMode::Light) => ResolvedTheme::Light,
            Some(SystemMode::Dark) => ResolvedTheme::Dark,
            Some(SystemMode::Unspecified) => ResolvedTheme::Light,
            None => ResolvedTheme::Light,
        },
        Theme::Light => ResolvedTheme::Light,
        Theme::Dark => ResolvedTheme::Dark,
    }
}

/// Storing a theme under its name and reading it back gives the same theme.
pub proof fn lemma_theme_name_round_trip(theme: Theme)
    ensures
        theme_named(theme_name(theme)) == theme,
{
    reveal_strlit("auto");
    reveal_strlit("light");
    reveal_strlit("dark");
    assert("auto"@.len() == 4);
    assert("light"@.len() == 5);
    assert("dark"@.len() == 4);
    assert("auto"@[0] == 'a');
    assert("dark"@[0] == 'd');
}

} // verus!
