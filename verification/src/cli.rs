//! The command-line interface: its commands, the machine-readable outputs,
//! and the decisions of the commands (exit status, the name a downloaded
//! wallpaper is saved under, the background setting written for it).
use vstd::prelude::*;
use crate::colors::ColorPalette;
use crate::hooks::HookResults;
use crate::pages::PageId;
use crate::text::{chars_of, string_from, push_str, push_u32, dec, is_last, find_last, rfind_char_range, is_ascii};

verus! {

/// The parsed command line.
#[derive(Debug)]
pub struct Cli {
    /// Open the GUI directly to a page instead of the last-used one
    pub page: Option<PageId>,
    /// A command to run instead of the GUI.
    pub command: Option<Commands>,
}

/// Commands of the command line.
#[derive(Debug)]
#[allow(inconsistent_fields)]
pub enum Commands {
    /// Sync COSMIC theme colors to all enabled tools
    Sync { reload: bool, json: bool },
    /// Extract color palette from the current COSMIC theme
    Colors { action: Option<ColorsAction>, json: bool },
    /// View and modify COSMIC theme settings
    Theme { action: ThemeAction },
    /// Run user-defined hooks with the current palette
    Hooks { action: HooksAction },
    /// Manage wallpapers
    Wallpaper { action: WallpaperAction },
}

#[derive(Debug)]
pub enum ColorsAction {
    /// Save colors.toml to disk (by default in the app's config directory)
    Save { path: Option<String> },
}

#[derive(Debug)]
pub enum ThemeAction {
    /// Show current theme information
    Info { json: bool },
    /// Switch to dark mode
    Dark,
    /// Switch to light mode
    Light,
    /// Set the accent color (e.g. '#FF5733')
    SetAccent { hex: String },
    /// Export current theme to a .ron file
    Export { path: String },
    /// Import a .ron theme file
    Import { path: String },
}

#[derive(Debug)]
pub enum HooksAction {
    /// Run all hooks with the current color palette
    Run { json: bool },
}

#[derive(Debug)]
pub enum WallpaperAction {
    /// Download a wallpaper from a URL, optionally making it the active one
    Add { url: String, json: bool, set: bool },
}

/// Hook outcome, as printed in JSON.
#[derive(Debug, Clone, Copy, PartialEq, Eq, Structural)]
pub struct HooksOutput {
    pub hooks_run: u32,
    pub hooks_succeeded: u32,
    pub hooks_failed: u32,
    pub hooks_timed_out: u32,
}

impl From<&HookResults> for HooksOutput {
    fn from(r: &HookResults) -> (o: HooksOutput) {
        HooksOutput {
            hooks_run: r.hooks_run,
            hooks_succeeded: r.hooks_succeeded,
            hooks_failed: r.hooks_failed,
            hooks_timed_out: r.hooks_timed_out,
        }
    }
}

impl vstd::std_specs::convert::FromSpecImpl<&HookResults> for HooksOutput {
    open spec fn obeys_from_spec() -> bool {
        true
    }

    open spec fn from_spec(r: &HookResults) -> HooksOutput {
        HooksOutput {
            hooks_run: r.hooks_run,
            hooks_succeeded: r.hooks_succeeded,
            hooks_failed: r.hooks_failed,
            hooks_timed_out: r.hooks_timed_out,
        }
    }
}

/// The palette, as printed in JSON.
#[derive(Debug)]
pub struct ColorsOutput {
    pub accent: String,
    pub cursor: String,
    pub foreground: String,
    pub background: String,
    pub selection_foreground: String,
    pub selection_background: String,
    pub colors: Vec<String>,
}

impl ColorsOutput {
    /// The output holds the palette's colors.
    pub open spec fn shows(self, p: ColorPalette) -> bool {
        &&& self.accent@ == p.accent@
        &&& self.cursor@ == p.cursor@
        &&& self.foreground@ == p.foreground@
        &&& self.background@ == p.background@
        &&& self.selection_foreground@ == p.selection_foreground@
        &&& self.selection_background@ == p.selection_background@
        &&& self.colors@.len() == 16
        &&& forall|i: int| 0 <= i < 16 ==> #[trigger] self.colors@[i]@ == p.colors[i]@
    }

    /// The JSON output of a palette.
    pub fn of_palette(p: &ColorPalette) -> (o: ColorsOutput)
        ensures
            o.shows(*p),
    {
        let mut colors: Vec<String> = Vec::new();
        let mut i: usize = 0;
        while i < 16
            invariant
                i <= 16,
                colors@.len() == i,
                forall|j: int| 0 <= j < i ==> #[trigger] colors@[j]@ == p.colors[j]@,
            decreases 16 - i,
        {
            colors.push(p.colors[i].clone());
            i = i + 1;
        }
        ColorsOutput {
            accent: p.accent.clone(),
            cursor: p.cursor.clone(),
            foreground: p.foreground.clone(),
            background: p.background.clone(),
            selection_foreground: p.selection_foreground.clone(),
            selection_background: p.selection_background.clone(),
            colors,
        }
    }
}

impl From<&ColorPalette> for ColorsOutput {
    fn from(p: &ColorPalette) -> (o: ColorsOutput)
        ensures
            o.shows(*p),
    {
        ColorsOutput::of_palette(p)
    }
}

impl vstd::std_specs::convert::FromSpecImpl<&ColorPalette> for ColorsOutput {
    open spec fn obeys_from_spec() -> bool {
        false
    }

    open spec fn from_spec(p: &ColorPalette) -> ColorsOutput {
        vstd::pervasive::arbitrary()
    }
}

/// Theme information, as printed in JSON.
#[derive(Debug)]
pub struct ThemeInfoOutput {
    pub name: String,
    /// `dark` or `light`
    pub mode: String,
    pub accent_color: String,
}

/// A downloaded wallpaper, as printed in JSON.
#[derive(Debug)]
pub struct WallpaperOutput {
    pub path: String,
    /// True if `--set` was passed and the wallpaper became the active one.
    pub active_set: bool,
}

/// A sync, as printed in JSON.
#[derive(Debug)]
pub struct SyncOutput {
    pub colors_path: String,
    pub tools_synced: Vec<String>,
    pub hooks: Option<HooksOutput>,
    pub apps_reloaded: Vec<String>,
    /// Tools without live reload, each with the manual step it needs.
    pub apps_manual: Vec<String>,
}

/// The mode word of `theme info`.
pub fn theme_mode_name(is_dark: bool) -> (s: &'static str)
    ensures
        s@ == (if is_dark {
            "dark"@
        } else {
            "light"@
        }),
{
    if is_dark {
        "dark"
    } else {
        "light"
    }
}

/// `hooks run` succeeds only when no hook failed or timed out.
pub fn hooks_succeeded(r: &HookResults) -> (ok: bool)
    ensures
        ok == (r.hooks_failed == 0 && r.hooks_timed_out == 0),
{
    !(r.hooks_failed > 0 || r.hooks_timed_out > 0)
}

/// The counts line printed by `hooks run`.
pub fn hooks_report(r: &HookResults) -> (s: String)
    ensures
        s@ == "  run: "@ + dec(r.hooks_run as nat) + ", succeeded: "@ + dec(
            r.hooks_succeeded as nat,
        ) + ", failed: "@ + dec(r.hooks_failed as nat) + ", timed_out: "@ + dec(
            r.hooks_timed_out as nat,
        ),
{
    let mut s = string_from("  run: ");
    push_u32(&mut s, r.hooks_run);
    push_str(&mut s, ", succeeded: ");
    push_u32(&mut s, r.hooks_succeeded);
    push_str(&mut s, ", failed: ");
    push_u32(&mut s, r.hooks_failed);
    push_str(&mut s, ", timed_out: ");
    push_u32(&mut s, r.hooks_timed_out);
    s
}

/// The error object printed by `sync --json` when the sync fails.
pub fn json_error(e: &str) -> (s: String)
    ensures
        s@ == "{\"error\": \""@ + e@ + "\"}"@,
{
    let mut s = string_from("{\"error\": \"");
    push_str(&mut s, e);
    push_str(&mut s, "\"}");
    s
}

// ---------------------------------------------------------------------
// Downloaded wallpapers
// ---------------------------------------------------------------------

/// The last `/`-separated segment of a URL path.
pub open spec fn last_segment(p: Seq<char>) -> Seq<char> {
    match find_last(p, '/') {
        Some(k) => p.skip(k + 1),
        None => p,
    }
}

/// The file name of a download: the URL path's last segment when it is
/// not empty and holds a dot, else `downloaded-wallpaper.png`.
pub open spec fn download_name(url_path: Seq<char>) -> Seq<char> {
    let s = last_segment(url_path);
    if s.len() > 0 && s.contains('.') {
        s
    } else {
        "downloaded-wallpaper.png"@
    }
}

/// What URL parsing (`url::Url::parse`, re-exported by reqwest) gives for
/// a text: the parsed URL in its serialized form, or the parse error's
/// message.
pub uninterp spec fn url_parse(s: Seq<char>) -> Result<Seq<char>, Seq<char>>;

/// Calls `reqwest::Url::parse` and serializes the URL (or the error).
/// Claimed: the outcome is a function of the text alone; what it is for a
/// given text is left unstated.
#[verifier::external_body]
fn parse_url(s: &str) -> (r: Result<String, String>)
    ensures
        match r {
            Ok(u) => url_parse(s@) == Ok::<Seq<char>, Seq<char>>(u@),
            Err(e) => url_parse(s@) == Err::<Seq<char>, Seq<char>>(e@),
        },
{
    match reqwest::Url::parse(s) {
        Ok(u) => Ok(u.to_string()),
        Err(e) => Err(e.to_string()),
    }
}

/// The URL `wallpaper add` downloads from: the argument parsed as a URL.
/// A text that is not a URL is refused with the parse error, before any
/// request is made.
pub fn wallpaper_request(url: &str) -> (r: Result<String, String>)
    ensures
        match r {
            Ok(u) => url_parse(url@) == Ok::<Seq<char>, Seq<char>>(u@),
            Err(e) => url_parse(url@) == Err::<Seq<char>, Seq<char>>(e@),
        },
{
    parse_url(url)
}

/// Whether a character is alphabetic or numeric in Unicode
/// (`char::is_alphanumeric`).
pub uninterp spec fn char_is_alphanumeric(c: char) -> bool;

/// An ASCII letter or digit.
pub open spec fn is_ascii_alphanumeric(c: char) -> bool {
    'a' <= c <= 'z' || 'A' <= c <= 'Z' || '0' <= c <= '9'
}

/// Calls `char::is_alphanumeric`. Claimed: the answer is a function of the
/// character alone, and among ASCII characters exactly the letters and
/// digits are alphanumeric. Which other characters are is left unstated.
#[verifier::external_body]
fn is_alphanumeric(c: char) -> (b: bool)
    ensures
        b == char_is_alphanumeric(c),
        (c as u32) < 128 ==> b == is_ascii_alphanumeric(c),
{
    c.is_alphanumeric()
}

/// A character kept in a saved file name.
pub open spec fn kept_in_name(c: char) -> bool {
    char_is_alphanumeric(c) || c == '.' || c == '-' || c == '_'
}

/// A file name with every character other than letters, digits, `.`, `-`
/// and `_` replaced by `_`.
pub open spec fn sanitized(s: Seq<char>) -> Seq<char> {
    s.map_values(|c: char| if kept_in_name(c) { c } else { '_' })
}

/// [`sanitized`] of an ASCII name.
pub open spec fn sanitized_ascii(s: Seq<char>) -> Seq<char> {
    s.map_values(
        |c: char|
            if is_ascii_alphanumeric(c) || c == '.' || c == '-' || c == '_' {
                c
            } else {
                '_'
            },
    )
}

/// The name a downloaded wallpaper is saved under.
pub fn download_file_name(url_path: &str) -> (r: String)
    ensures
        r@ == sanitized(download_name(url_path@)),
        is_ascii(download_name(url_path@)) ==> r@ == sanitized_ascii(download_name(url_path@)),
{
    let c = chars_of(url_path);
    let start: usize = match rfind_char_range(c.as_slice(), 0, c.len(), '/') {
        Some(k) => k + 1,
        None => 0,
    };
    assert(c@.subrange(0, c@.len() as int) == c@);
    assert(c@.subrange(start as int, c@.len() as int) == last_segment(url_path@));
    let mut has_dot = false;
    let mut i = start;
    while i < c.len()
        invariant
            start <= i <= c@.len(),
            has_dot == c@.subrange(start as int, i as int).contains('.'),
        decreases c.len() - i,
    {
        let ghost old_s = c@.subrange(start as int, i as int);
        let ghost new_s = old_s.push(c@[i as int]);
        assert(c@.subrange(start as int, i + 1) == new_s);
        proof {
            if c@[i as int] == '.' {
                assert(new_s[new_s.len() - 1] == '.');
            }
            if new_s.contains('.') && c@[i as int] != '.' {
                let j = choose|j: int| 0 <= j < new_s.len() && new_s[j] == '.';
                assert(j < old_s.len());
                assert(old_s[j] == new_s[j]);
            }
            if old_s.contains('.') {
                let j = choose|j: int| 0 <= j < old_s.len() && old_s[j] == '.';
                assert(new_s[j] == old_s[j]);
            }
        }
        if c[i] == '.' {
            has_dot = true;
        }
        i = i + 1;
    }
    let name: Vec<char> = if start < c.len() && has_dot {
        let mut v: Vec<char> = Vec::new();
        let mut j = start;
        while j < c.len()
            invariant
                start <= j <= c@.len(),
                v@ == c@.subrange(start as int, j as int),
            decreases c.len() - j,
        {
            v.push(c[j]);
            j = j + 1;
            assert(c@.subrange(start as int, j as int) == c@.subrange(start as int, j - 1).push(c@[j - 1]));
        }
        v
    } else {
        chars_of("downloaded-wallpaper.png")
    };
    assert(name@ == download_name(url_path@));
    let mut r = String::new();
    let mut k: usize = 0;
    while k < name.len()
        invariant
            k <= name@.len(),
            r@ == sanitized(name@.take(k as int)),
            is_ascii(name@) ==> r@ == sanitized_ascii(name@.take(k as int)),
        decreases name.len() - k,
    {
        let ch = name[k];
        assert(is_ascii(name@) ==> (name@[k as int] as u32) < 128);
        let keep = is_alphanumeric(ch) || ch == '.' || ch == '-' || ch == '_';
        if keep {
            r.push(ch);
        } else {
            r.push('_');
        }
        assert(sanitized(name@.take(k + 1)) =~= sanitized(name@.take(k as int)).push(
            if kept_in_name(ch) { ch } else { '_' },
        ));
        assert(sanitized_ascii(name@.take(k + 1)) =~= sanitized_ascii(name@.take(k as int)).push(
            if is_ascii_alphanumeric(ch) || ch == '.' || ch == '-' || ch == '_' { ch } else { '_' },
        ));
        k = k + 1;
    }
    assert(name@.take(name@.len() as int) == name@);
    r
}

/// The background setting written for a wallpaper made active: it shows
/// the file on all outputs, with no rotation and no theme filter. A path
/// holding `"` or `\` is refused.
pub fn background_ron(path: &str) -> (r: Result<String, String>)
    ensures
        match r {
            Ok(s) => !path@.contains('"') && !path@.contains('\\') && s@ == "(output: All, source: Path(\""@
                + path@
                + "\"), filter_by_theme: false, rotation_frequency: 0, filter_method: Lanczos, scaling_mode: Zoom, sampling_method: Aspect)"@,
            Err(e) => (path@.contains('"') || path@.contains('\\'))
                && e@ == "wallpaper path contains characters that need RON escaping"@,
        },
{
    let c = chars_of(path);
    let mut i: usize = 0;
    while i < c.len()
        invariant
            i <= c@.len(),
            c@ == path@,
            forall|j: int| 0 <= j < i ==> c@[j] != '"' && c@[j] != '\\',
        decreases c.len() - i,
    {
        if c[i] == '"' || c[i] == '\\' {
            assert(path@[i as int] == c@[i as int]);
            return Err(string_from("wallpaper path contains characters that need RON escaping"));
        }
        i = i + 1;
    }
    let mut s = string_from("(output: All, source: Path(\"");
    push_str(&mut s, path);
    push_str(
        &mut s,
        "\"), filter_by_theme: false, rotation_frequency: 0, filter_method: Lanczos, scaling_mode: Zoom, sampling_method: Aspect)",
    );
    Ok(s)
}

} // verus!
