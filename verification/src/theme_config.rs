//! Theme settings: identifiers of the built-in and bundled themes, the
//! preview presets, the errors of theme operations and the export file
//! name.
use vstd::prelude::*;
use crate::text::{chars_of, push_str, string_from, lowercase, str_lowercase, replace_char, push_u32, dec, ascii_lower};
use crate::colors::Rgb;

verus! {

/// Errors of theme operations, each with the underlying message.
#[derive(Debug, Clone)]
pub enum ThemeError {
    ConfigAccess(String),
    ConfigWrite(String),
    SerializeError(String),
    FileWriteError(String),
    FileReadError(String),
    DeserializeError(String),
}

impl ThemeError {
    /// The error's text: what failed, then the underlying message.
    pub fn message(&self) -> (s: String)
        ensures
            s@ == match self {
                ThemeError::ConfigAccess(e) => "Failed to access theme config: "@ + e@,
                ThemeError::ConfigWrite(e) => "Failed to write theme config: "@ + e@,
                ThemeError::SerializeError(e) => "Failed to serialize theme: "@ + e@,
                ThemeError::FileWriteError(e) => "Failed to write theme file: "@ + e@,
                ThemeError::FileReadError(e) => "Failed to read theme file: "@ + e@,
                ThemeError::DeserializeError(e) => "Failed to deserialize theme: "@ + e@,
            },
    {
        let (head, e) = match self {
            ThemeError::ConfigAccess(e) => ("Failed to access theme config: ", e),
            ThemeError::ConfigWrite(e) => ("Failed to write theme config: ", e),
            ThemeError::SerializeError(e) => ("Failed to serialize theme: ", e),
            ThemeError::FileWriteError(e) => ("Failed to write theme file: ", e),
            ThemeError::FileReadError(e) => ("Failed to read theme file: ", e),
            ThemeError::DeserializeError(e) => ("Failed to deserialize theme: ", e),
        };
        let mut s = string_from(head);
        push_str(&mut s, e.as_str());
        s
    }
}

/// Theme identifier (built-in or bundled community theme).
#[derive(Clone, Copy, Debug, PartialEq, Eq, Structural)]
pub enum ThemeId {
    Dark,
    Light,
    HighContrastDark,
    HighContrastLight,
    /// Bundled community theme by index
    Bundled(usize),
}

/// A theme preset offered for preview.
#[derive(Clone, Debug)]
pub struct ThemePreview {
    pub id: ThemeId,
    /// Display name
    pub name: String,
    /// Whether this is a dark theme
    pub is_dark: bool,
}

impl ThemePreview {
    /// Applying a preset switches the desktop's dark mode: the value it
    /// writes (high-contrast variants switch only dark and light).
    pub fn apply(&self) -> (is_dark: bool)
        ensures
            is_dark == self.is_dark,
    {
        self.is_dark
    }
}

/// The theme settings the application shows: the active theme's name and
/// mode.
#[derive(Debug)]
pub struct ThemeConfig {
    pub name: String,
    pub is_dark: bool,
}

/// Mathematical model of [`ThemeConfig`].
pub struct ThemeView {
    pub name: Seq<char>,
    pub is_dark: bool,
}

impl View for ThemeConfig {
    type V = ThemeView;

    open spec fn view(&self) -> ThemeView {
        ThemeView { name: self.name@, is_dark: self.is_dark }
    }
}

impl Clone for ThemeConfig {
    fn clone(&self) -> (r: Self)
        ensures
            r@ == self@,
    {
        ThemeConfig { name: self.name.clone(), is_dark: self.is_dark }
    }
}

impl Default for ThemeConfig {
    /// The settings shown before the desktop's theme is known.
    fn default() -> (r: Self)
        ensures
            r.name@ == "Unknown"@,
            r.is_dark,
    {
        ThemeConfig { name: string_from("Unknown"), is_dark: true }
    }
}

/// `rgb(r, g, b)` with decimal channels.
pub open spec fn rgb_text(c: Rgb) -> Seq<char> {
    "rgb("@ + dec(c.r as nat) + ", "@ + dec(c.g as nat) + ", "@ + dec(c.b as nat) + ")"@
}

impl ThemeConfig {
    /// The file name an export of the theme `name` is offered under: the name
    /// lower-cased, spaces turned into dashes, with `.ron` appended.
    pub fn default_export_filename(name: &str) -> (r: String)
        ensures
            r@ == replace_char(str_lowercase(name@), ' ', '-') + ".ron"@,
            (forall|i: int| 0 <= i < name@.len() ==> (#[trigger] name@[i] as u32) < 128) ==> r@
                == replace_char(name@.map_values(|c: char| ascii_lower(c)), ' ', '-') + ".ron"@,
    {
        let lower = lowercase(name);
        let c = chars_of(lower.as_str());
        let mut r = String::new();
        let mut i: usize = 0;
        while i < c.len()
            invariant
                i <= c@.len(),
                c@ == str_lowercase(name@),
                r@ == replace_char(c@.take(i as int), ' ', '-'),
            decreases c.len() - i,
        {
            if c[i] == ' ' {
                r.push('-');
            } else {
                r.push(c[i]);
            }
            assert(replace_char(c@.take(i + 1), ' ', '-') =~= replace_char(c@.take(i as int), ' ', '-').push(
                if c@[i as int] == ' ' { '-' } else { c@[i as int] },
            ));
            i = i + 1;
        }
        assert(c@.take(c@.len() as int) == c@);
        push_str(&mut r, ".ron");
        r
    }

    /// A color as `rgb(r, g, b)`.
    pub fn color_to_rgb(c: Rgb) -> (s: String)
        ensures
            s@ == rgb_text(c),
    {
        let mut s = string_from("rgb(");
        push_u32(&mut s, c.r as u32);
        push_str(&mut s, ", ");
        push_u32(&mut s, c.g as u32);
        push_str(&mut s, ", ");
        push_u32(&mut s, c.b as u32);
        push_str(&mut s, ")");
        s
    }
}


} // verus!
