//! The one preference the application keeps: the theme name.
//!
//! The store remembers the theme under the key `theme-name`, as the string
//! `dark` or `light`.  A stored `dark` selects the dark theme; anything else,
//! a missing key included, falls back to the light theme.

use vstd::prelude::*;

verus! {

#[derive(Clone, Copy, Debug, PartialEq, Eq, Structural)]
pub enum ThemeMode {
    Dark,
    Light,
}

/// The key the theme name is stored under.
pub open spec fn theme_key_spec() -> Seq<char> {
    "theme-name"@
}

pub fn theme_key() -> (r: &'static str)
    ensures
        r@ == theme_key_spec(),
{
    "theme-name"
}

/// The theme a stored value selects.
pub open spec fn theme_of_stored(stored: Option<Seq<char>>) -> ThemeMode {
    if stored == Some("dark"@) {
        ThemeMode::Dark
    } else {
        ThemeMode::Light
    }
}

/// Chooses the theme to start with from the stored theme name, falling back
/// to the light theme when nothing usable was stored.
pub fn initial_theme(stored: Option<&String>) -> (r: ThemeMode)
    ensures
        r == theme_of_stored(
            match stored {
                Some(s) => Some(s@),
                None => None,
            },
        ),
{
    match stored {
        Some(s) => {
            let dark: String = "dark".to_owned();
            if *s == dark {
                ThemeMode::Dark
            } else {
                ThemeMode::Light
            }
        },
        None => ThemeMode::Light,
    }
}

/// The name a theme is stored under.
pub open spec fn theme_name_spec(mode: ThemeMode) -> Seq<char> {
    match mode {
        ThemeMode::Dark => "dark"@,
        ThemeMode::Light => "light"@,
    }
}

pub fn theme_name(mode: ThemeMode) -> (r: &'static str)
    ensures
        r@ == theme_name_spec(mode),
{
    match mode {
        ThemeMode::Dark => "dark",
        ThemeMode::Light => "light",
    }
}

/// Storing a theme's name and reading it back selects the same theme,
/// whatever theme was stored before.
pub proof fn lemma_theme_round_trip(mode: ThemeMode)
    ensures
        theme_of_stored(Some(theme_name_spec(mode))) == mode,
{
    reveal_strlit("dark");
    reveal_strlit("light");
    assert("dark"@.len() != "light"@.len());
}

} // verus!
