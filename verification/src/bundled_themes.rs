//! Metadata of the community themes bundled with the application.
use vstd::prelude::*;
use crate::text::{
    chars_of, title_case, title_case_range, trim_end_suffix, trim_end_suffix_bound, WordSeparators,
    is_ascii, title_case_ascii,
};

verus! {

/// Metadata for a bundled community theme.
pub struct BundledTheme {
    /// Index into the registry
    pub index: usize,
    /// Human-readable display name
    pub name: String,
    /// The theme file's name (e.g. "busy-bee.ron")
    pub filename: String,
    /// Whether this is a dark theme
    pub is_dark: bool,
}

/// The display name of a theme file: without every trailing `.ron`, split
/// at `-`, each word capitalized, joined by spaces (`busy-bee.ron` →
/// `Busy Bee`).
pub open spec fn theme_display_name(filename: Seq<char>) -> Seq<char> {
    title_case(trim_end_suffix(filename, ".ron"@), WordSeparators::Dash)
}

/// Convert a theme filename to a display name.
pub fn display_name_from_filename(filename: &str) -> (r: String)
    ensures
        r@ == theme_display_name(filename@),
        is_ascii(filename@) ==> r@ == title_case_ascii(trim_end_suffix(filename@, ".ron"@), WordSeparators::Dash),
{
    let c = chars_of(filename);
    let suffix = chars_of(".ron");
    let e = trim_end_suffix_bound(c.as_slice(), c.len(), suffix.as_slice());
    assert(c@.take(c@.len() as int) == c@);
    assert(c@.subrange(0, e as int) == c@.take(e as int));
    assert(is_ascii(c@) ==> is_ascii(c@.subrange(0, e as int))) by {
        if is_ascii(c@) {
            assert forall|i: int| 0 <= i < e implies (#[trigger] c@.subrange(0, e as int)[i] as u32) < 128 by {
                assert(c@.subrange(0, e as int)[i] == c@[i]);
            }
        }
    }
    title_case_range(c.as_slice(), 0, e, WordSeparators::Dash)
}

impl BundledTheme {
    /// Registry entry for the theme file `filename` at `index`.
    pub fn new(index: usize, filename: &str, is_dark: bool) -> (t: BundledTheme)
        ensures
            t.index == index,
            t.name@ == theme_display_name(filename@),
            is_ascii(filename@) ==> t.name@ == title_case_ascii(
                trim_end_suffix(filename@, ".ron"@),
                WordSeparators::Dash,
            ),
            t.filename@ == filename@,
            t.is_dark == is_dark,
    {
        BundledTheme {
            index,
            name: display_name_from_filename(filename),
            filename: crate::text::string_from(filename),
            is_dark,
        }
    }
}

} // verus!

verus! {

/// The positions in `themes` of the dark themes (or, with `dark` false,
/// of the light ones), in registry order.
pub open spec fn positions_of_mode(themes: Seq<BundledTheme>, dark: bool) -> Seq<int>
    decreases themes.len(),
{
    if themes.len() == 0 {
        seq![]
    } else {
        let rest = positions_of_mode(themes.drop_last(), dark);
        if themes.last().is_dark == dark {
            rest.push(themes.len() - 1)
        } else {
            rest
        }
    }
}

/// The registry positions of the dark (or light) themes, in order.
pub fn themes_of_mode(themes: &Vec<BundledTheme>, dark: bool) -> (r: Vec<usize>)
    ensures
        r@.map_values(|i: usize| i as int) == positions_of_mode(themes@, dark),
{
    let mut r: Vec<usize> = Vec::new();
    let mut i: usize = 0;
    while i < themes.len()
        invariant
            i <= themes@.len(),
            r@.map_values(|k: usize| k as int) == positions_of_mode(themes@.take(i as int), dark),
        decreases themes.len() - i,
    {
        assert(themes@.take(i + 1).drop_last() == themes@.take(i as int));
        assert(themes@.take(i + 1).last() == themes@[i as int]);
        let ghost before = r@;
        if themes[i].is_dark == dark {
            r.push(i);
            assert(r@.map_values(|k: usize| k as int) =~= before.map_values(|k: usize| k as int).push(
                i as int,
            ));
        }
        i = i + 1;
    }
    assert(themes@.take(themes@.len() as int) == themes@);
    r
}

/// The registry entry of a theme index, or the error of an unknown one.
pub fn theme_at(themes: &Vec<BundledTheme>, index: usize) -> (r: Result<&BundledTheme, crate::theme_config::ThemeError>)
    ensures
        match r {
            Ok(t) => index < themes@.len() && *t == themes@[index as int],
            Err(e) => index >= themes@.len() && (e matches crate::theme_config::ThemeError::ConfigAccess(
                m,
            ) && m@ == "Invalid theme index: "@ + crate::text::dec(index as nat)),
        },
{
    if index < themes.len() {
        Ok(&themes[index])
    } else {
        let mut m = crate::text::string_from("Invalid theme index: ");
        crate::text::push_usize(&mut m, index);
        Err(crate::theme_config::ThemeError::ConfigAccess(m))
    }
}

} // verus!
