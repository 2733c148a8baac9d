//! Wallpaper settings of the desktop background service: the settings
//! entry, reading it (and the line-by-line reading of older files), the
//! wallpapers found per theme, and how they are described.
use vstd::prelude::*;
use vstd::relations::sorted_by;
use crate::text::{
    chars_of, string_from, push_str, push_u32, dec, trim, starts_with, lines_of, line_ranges,
    spans_view, spans_within, range_starts_with, strip_bounds, Strip, find_first, find_last,
    find_char_range, rfind_char_range, trim_end_suffix, trim_end_suffix_bound, parse_u32,
    parse_u32_range, range_eq, strings_view, lowercase, str_lowercase, is_ascii, ascii_lower,
};
use crate::paths::{join, join_path, file_name, parent_name, file_name_range, parent_name_range, string_of_range};
use crate::sort::{sort_strings, le_fn, dedup_sorted, strictly_sorted, lemma_strictly_sorted_distinct};

verus! {

/// Filter used when scaling a wallpaper.
#[derive(Clone, Copy, Debug, PartialEq, Eq, Structural)]
pub enum FilterMethod {
    Lanczos,
    Linear,
    Nearest,
}

/// How a wallpaper fills the screen.
#[derive(Clone, Copy, Debug, PartialEq, Eq, Structural)]
pub enum ScalingMode {
    Zoom,
    Fit,
    Stretch,
    Center,
}

/// Order in which a rotation picks wallpapers.
#[derive(Clone, Copy, Debug, PartialEq, Eq, Structural)]
pub enum SamplingMethod {
    Random,
    Alphanumeric,
}

impl ScalingMode {
    /// The mode's name.
    pub fn as_str(&self) -> (s: &'static str)
        ensures
            s@ == match *self {
                ScalingMode::Zoom => "Zoom"@,
                ScalingMode::Fit => "Fit"@,
                ScalingMode::Stretch => "Stretch"@,
                ScalingMode::Center => "Center"@,
            },
    {
        match self {
            ScalingMode::Zoom => "Zoom",
            ScalingMode::Fit => "Fit",
            ScalingMode::Stretch => "Stretch",
            ScalingMode::Center => "Center",
        }
    }

    /// Every mode, in the order they are offered.
    pub fn all() -> (r: [ScalingMode; 4])
        ensures
            r@ == seq![ScalingMode::Zoom, ScalingMode::Fit, ScalingMode::Stretch, ScalingMode::Center],
    {
        let r = [ScalingMode::Zoom, ScalingMode::Fit, ScalingMode::Stretch, ScalingMode::Center];
        assert(r@ =~= seq![ScalingMode::Zoom, ScalingMode::Fit, ScalingMode::Stretch, ScalingMode::Center]);
        r
    }
}

/// Where a background comes from.
#[derive(Debug)]
pub enum BgSource {
    Path(String),
}

/// The background service's settings entry.
#[derive(Debug)]
pub struct CosmicBgEntry {
    pub output: String,
    pub source: BgSource,
    pub filter_by_theme: bool,
    pub rotation_frequency: u32,
    pub filter_method: FilterMethod,
    pub scaling_mode: ScalingMode,
    pub sampling_method: SamplingMethod,
}

/// Wallpaper operation errors.
#[derive(Debug)]
pub enum WallpaperError {
    ConfigRead(String),
    ConfigWrite(String),
    SerializeError(String),
    DeserializeError(String),
    FileCopy(String),
    CreateDir(String),
}

impl WallpaperError {
    /// The error's text.
    pub fn message(&self) -> (s: String)
        ensures
            s@ == match self {
                WallpaperError::ConfigRead(e) => "Failed to read wallpaper config: "@ + e@,
                WallpaperError::ConfigWrite(e) => "Failed to write wallpaper config: "@ + e@,
                WallpaperError::SerializeError(e) => "Failed to serialize wallpaper config: "@ + e@,
                WallpaperError::DeserializeError(e) => "Failed to deserialize wallpaper config: "@
                    + e@,
                WallpaperError::FileCopy(e) => "Failed to copy wallpaper file: "@ + e@,
                WallpaperError::CreateDir(e) => "Failed to create directory: "@ + e@,
            },
    {
        let (head, e) = match self {
            WallpaperError::ConfigRead(e) => ("Failed to read wallpaper config: ", e),
            WallpaperError::ConfigWrite(e) => ("Failed to write wallpaper config: ", e),
            WallpaperError::SerializeError(e) => ("Failed to serialize wallpaper config: ", e),
            WallpaperError::DeserializeError(e) => ("Failed to deserialize wallpaper config: ", e),
            WallpaperError::FileCopy(e) => ("Failed to copy wallpaper file: ", e),
            WallpaperError::CreateDir(e) => ("Failed to create directory: ", e),
        };
        let mut s = string_from(head);
        push_str(&mut s, e.as_str());
        s
    }
}

/// The wallpapers of one theme directory.
#[derive(Debug)]
pub struct ThemeWallpapers {
    /// Theme name (the directory's name)
    pub name: String,
    /// Directory path
    pub path: String,
    /// Number of wallpapers
    pub count: usize,
    /// Wallpaper file names
    pub wallpapers: Vec<String>,
}

/// The wallpaper settings and the wallpapers available.
#[derive(Debug)]
pub struct WallpaperConfig {
    /// Current wallpaper source (path or directory)
    pub current_source: String,
    /// Rotation frequency in seconds
    pub rotation_frequency: u32,
    pub scaling_mode: ScalingMode,
    pub filter_method: FilterMethod,
    pub sampling_method: SamplingMethod,
    /// Whether filtering by theme is enabled
    pub filter_by_theme: bool,
    /// Whether rotation is enabled
    pub rotation_enabled: bool,
    /// Wallpapers per theme, one entry per theme name
    pub available_themes: Vec<ThemeWallpapers>,
}

/// The system wallpaper directory.
pub const SYSTEM_WALLPAPERS: &'static str = "/usr/share/backgrounds";

impl Default for WallpaperConfig {
    fn default() -> (c: WallpaperConfig)
        ensures
            c.current_source@.len() == 0,
            c.rotation_frequency == 600,
            c.scaling_mode == ScalingMode::Zoom,
            c.filter_method == FilterMethod::Lanczos,
            c.sampling_method == SamplingMethod::Random,
            c.filter_by_theme,
            c.rotation_enabled,
            c.available_themes@.len() == 0,
            c.names_distinct(),
    {
        let c = WallpaperConfig {
            current_source: String::new(),
            rotation_frequency: 600,
            scaling_mode: ScalingMode::Zoom,
            filter_method: FilterMethod::Lanczos,
            sampling_method: SamplingMethod::Random,
            filter_by_theme: true,
            rotation_enabled: true,
            available_themes: Vec::new(),
        };
        assert(theme_name_seq(c.available_themes@) =~= Seq::<Seq<char>>::empty());
        c
    }
}

/// The settings a background entry carries.
pub struct BgState {
    pub source: Seq<char>,
    pub frequency: u32,
    pub rotation_enabled: bool,
    pub scaling_mode: ScalingMode,
    pub filter_by_theme: bool,
    pub filter_method: FilterMethod,
    pub sampling_method: SamplingMethod,
}

pub open spec fn bg_state(c: WallpaperConfig) -> BgState {
    BgState {
        source: c.current_source@,
        frequency: c.rotation_frequency,
        rotation_enabled: c.rotation_enabled,
        scaling_mode: c.scaling_mode,
        filter_by_theme: c.filter_by_theme,
        filter_method: c.filter_method,
        sampling_method: c.sampling_method,
    }
}

/// Model of a background entry.
pub struct EntryView {
    pub output: Seq<char>,
    pub source: Seq<char>,
    pub filter_by_theme: bool,
    pub rotation_frequency: u32,
    pub filter_method: FilterMethod,
    pub scaling_mode: ScalingMode,
    pub sampling_method: SamplingMethod,
}

pub open spec fn entry_view(e: CosmicBgEntry) -> EntryView {
    EntryView {
        output: e.output@,
        source: match e.source {
            BgSource::Path(p) => p@,
        },
        filter_by_theme: e.filter_by_theme,
        rotation_frequency: e.rotation_frequency,
        filter_method: e.filter_method,
        scaling_mode: e.scaling_mode,
        sampling_method: e.sampling_method,
    }
}

/// The entry written for the settings: on all outputs, with a rotation
/// frequency of 0 when rotation is off.
pub open spec fn entry_of(s: BgState) -> EntryView {
    EntryView {
        output: "all"@,
        source: s.source,
        filter_by_theme: s.filter_by_theme,
        rotation_frequency: if s.rotation_enabled {
            s.frequency
        } else {
            0
        },
        filter_method: s.filter_method,
        scaling_mode: s.scaling_mode,
        sampling_method: s.sampling_method,
    }
}

/// The settings an entry read from the file gives: rotation is on when
/// its frequency is not zero.
pub open spec fn state_of_entry(e: EntryView) -> BgState {
    BgState {
        source: e.source,
        frequency: e.rotation_frequency,
        rotation_enabled: e.rotation_frequency > 0,
        scaling_mode: e.scaling_mode,
        filter_by_theme: e.filter_by_theme,
        filter_method: e.filter_method,
        sampling_method: e.sampling_method,
    }
}

/// Writing the settings as a background entry and reading that entry back
/// gives the same settings, when rotation is on exactly when the frequency
/// is not zero.
pub proof fn lemma_entry_round_trip(s: BgState)
    requires
        s.rotation_enabled == (s.frequency > 0),
    ensures
        state_of_entry(entry_of(s)) == s,
{
}

/// Writing back the settings read from an entry gives the same entry, apart
/// from its output (always all outputs).
pub proof fn lemma_entry_rewrite(e: EntryView)
    ensures
        entry_of(state_of_entry(e)) == (EntryView { output: "all"@, ..e }),
{
}

/// The scaling mode named by a setting's value (anything unknown is zoom).
pub open spec fn scaling_of(v: Seq<char>) -> ScalingMode {
    if v == "Fit"@ {
        ScalingMode::Fit
    } else if v == "Stretch"@ {
        ScalingMode::Stretch
    } else if v == "Center"@ {
        ScalingMode::Center
    } else {
        ScalingMode::Zoom
    }
}

/// The value after a `key:` prefix: trimmed, then trailing commas removed.
pub open spec fn value_after(t: Seq<char>, key_len: int) -> Seq<char> {
    trim_end_suffix(trim(t.skip(key_len)), seq![','])
}

/// One line of an older settings file.
pub open spec fn fallback_line(s: BgState, line: Seq<char>) -> BgState {
    let t = trim(line);
    if starts_with(t, "source:"@) {
        match (find_first(t, '"'), find_last(t, '"')) {
            (Some(a), Some(b)) => if a < b {
                BgState { source: t.subrange(a + 1, b), ..s }
            } else {
                s
            },
            _ => s,
        }
    } else if starts_with(t, "rotation_frequency:"@) {
        match parse_u32(value_after(t, 19)) {
            Some(f) => BgState { frequency: f, rotation_enabled: f > 0, ..s },
            None => s,
        }
    } else if starts_with(t, "scaling_mode:"@) {
        BgState { scaling_mode: scaling_of(value_after(t, 13)), ..s }
    } else if starts_with(t, "filter_by_theme:"@) {
        BgState { filter_by_theme: value_after(t, 16) == "true"@, ..s }
    } else {
        s
    }
}

pub open spec fn fallback_lines(s: BgState, lines: Seq<Seq<char>>) -> BgState
    decreases lines.len(),
{
    if lines.len() == 0 {
        s
    } else {
        fallback_line(fallback_lines(s, lines.drop_last()), lines.last())
    }
}

/// The value of `c[lo..hi]` after a `key:` prefix of `key_len` characters,
/// as a character vector.
fn value_chars(c: &[char], lo: usize, hi: usize, key_len: usize) -> (v: Vec<char>)
    requires
        lo <= hi <= c@.len(),
        key_len <= hi - lo,
    ensures
        v@ == value_after(c@.subrange(lo as int, hi as int), key_len as int),
{
    let (a, b) = strip_bounds(c, lo + key_len, hi, Strip::Whitespace);
    assert(c@.subrange(lo as int, hi as int).skip(key_len as int) == c@.subrange(
        lo + key_len,
        hi as int,
    ));
    let t = string_of_range(c, a, b);
    let tc = chars_of(t.as_str());
    let comma = chars_of(",");
    proof {
        reveal_strlit(",");
        assert(comma@ =~= seq![',']);
    }
    let e = trim_end_suffix_bound(tc.as_slice(), tc.len(), comma.as_slice());
    assert(tc@.take(tc@.len() as int) == tc@);
    let mut v: Vec<char> = Vec::new();
    let mut i: usize = 0;
    while i < e
        invariant
            i <= e <= tc@.len(),
            v@ == tc@.take(i as int),
        decreases e - i,
    {
        v.push(tc[i]);
        i = i + 1;
        assert(tc@.take(i as int) == tc@.take(i - 1).push(tc@[i - 1]));
    }
    v
}

fn scaling_exec(v: &[char]) -> (m: ScalingMode)
    ensures
        m == scaling_of(v@),
{
    let fit = chars_of("Fit");
    let stretch = chars_of("Stretch");
    let center = chars_of("Center");
    assert(v@.subrange(0, v@.len() as int) == v@);
    if range_eq(v, 0, v.len(), fit.as_slice()) {
        ScalingMode::Fit
    } else if range_eq(v, 0, v.len(), stretch.as_slice()) {
        ScalingMode::Stretch
    } else if range_eq(v, 0, v.len(), center.as_slice()) {
        ScalingMode::Center
    } else {
        ScalingMode::Zoom
    }
}

impl WallpaperConfig {
    /// Take over the settings of a background entry read from the file.
    pub fn apply_entry(&mut self, entry: CosmicBgEntry)
        ensures
            final(self).current_source@ == (match entry.source {
                BgSource::Path(p) => p@,
            }),
            final(self).filter_by_theme == entry.filter_by_theme,
            final(self).rotation_frequency == entry.rotation_frequency,
            final(self).rotation_enabled == (entry.rotation_frequency > 0),
            final(self).filter_method == entry.filter_method,
            final(self).scaling_mode == entry.scaling_mode,
            final(self).sampling_method == entry.sampling_method,
            final(self).available_themes@ == old(self).available_themes@,
            bg_state(*final(self)) == state_of_entry(entry_view(entry)),
    {
        match entry.source {
            BgSource::Path(p) => {
                self.current_source = p;
            },
        }
        self.filter_by_theme = entry.filter_by_theme;
        self.rotation_frequency = entry.rotation_frequency;
        self.rotation_enabled = entry.rotation_frequency > 0;
        self.filter_method = entry.filter_method;
        self.scaling_mode = entry.scaling_mode;
        self.sampling_method = entry.sampling_method;
    }

    /// Read the settings file: the entry when the file parsed as one,
    /// else line by line.
    pub fn parse_cosmic_config(&mut self, content: &str, parsed: Option<CosmicBgEntry>)
        ensures
            match parsed {
                Some(e) => bg_state(*final(self)) == state_of_entry(entry_view(e)),
                None => bg_state(*final(self)) == fallback_lines(bg_state(*old(self)), lines_of(content@)),
            },
            final(self).available_themes@ == old(self).available_themes@,
    {
        match parsed {
            Some(entry) => self.apply_entry(entry),
            None => self.parse_cosmic_config_fallback(content),
        }
    }

    /// Read an older settings file line by line: `source:` (the text
    /// between the first and last double quote), `rotation_frequency:`,
    /// `scaling_mode:` and `filter_by_theme:`; other lines are ignored.
    pub fn parse_cosmic_config_fallback(&mut self, content: &str)
        ensures
            bg_state(*final(self)) == fallback_lines(bg_state(*old(self)), lines_of(content@)),
            final(self).available_themes@ == old(self).available_themes@,
    {
        let c = chars_of(content);
        let spans = line_ranges(c.as_slice());
        let ghost ls = spans_view(c@, spans@);
        let ghost start = bg_state(*self);
        let k_source = chars_of("source:");
        let k_rot = chars_of("rotation_frequency:");
        let k_scale = chars_of("scaling_mode:");
        let k_filter = chars_of("filter_by_theme:");
        let k_true = chars_of("true");
        proof {
            reveal_strlit("source:");
            reveal_strlit("rotation_frequency:");
            reveal_strlit("scaling_mode:");
            reveal_strlit("filter_by_theme:");
        }
        let ghost themes = self.available_themes@;
        let mut i: usize = 0;
        while i < spans.len()
            invariant
                i <= spans@.len(),
                spans_within(c@, spans@),
                ls == spans_view(c@, spans@),
                k_source@ == "source:"@,
                k_rot@ == "rotation_frequency:"@,
                k_scale@ == "scaling_mode:"@,
                k_filter@ == "filter_by_theme:"@,
                k_true@ == "true"@,
                "source:"@.len() == 7,
                "rotation_frequency:"@.len() == 19,
                "scaling_mode:"@.len() == 13,
                "filter_by_theme:"@.len() == 16,
                bg_state(*self) == fallback_lines(start, ls.take(i as int)),
                self.available_themes@ == themes,
            decreases spans.len() - i,
        {
            let (lo, hi) = spans[i];
            assert(ls[i as int] == c@.subrange(lo as int, hi as int));
            assert(ls.take(i + 1).drop_last() == ls.take(i as int));
            assert(ls.take(i + 1).last() == ls[i as int]);
            let (a, b) = strip_bounds(c.as_slice(), lo, hi, Strip::Whitespace);
            let ghost t = c@.subrange(a as int, b as int);
            if range_starts_with(c.as_slice(), a, b, k_source.as_slice()) {
                match (find_char_range(c.as_slice(), a, b, '"'), rfind_char_range(c.as_slice(), a, b, '"')) {
                    (Some(x), Some(y)) => {
                        if x < y {
                            assert(t.subrange(x - a + 1, y - a) == c@.subrange(x + 1, y as int));
                            self.current_source = string_of_range(c.as_slice(), x + 1, y);
                        }
                    },
                    _ => {},
                }
            } else if range_starts_with(c.as_slice(), a, b, k_rot.as_slice()) {
                let v = value_chars(c.as_slice(), a, b, 19);
                assert(v@.subrange(0, v@.len() as int) == v@);
                if let Some(f) = parse_u32_range(v.as_slice(), 0, v.len()) {
                    self.rotation_frequency = f;
                    self.rotation_enabled = f > 0;
                }
            } else if range_starts_with(c.as_slice(), a, b, k_scale.as_slice()) {
                let v = value_chars(c.as_slice(), a, b, 13);
                self.scaling_mode = scaling_exec(v.as_slice());
            } else if range_starts_with(c.as_slice(), a, b, k_filter.as_slice()) {
                let v = value_chars(c.as_slice(), a, b, 16);
                assert(v@.subrange(0, v@.len() as int) == v@);
                self.filter_by_theme = range_eq(v.as_slice(), 0, v.len(), k_true.as_slice());
            }
            i = i + 1;
        }
        assert(ls.take(spans@.len() as int) == ls);
    }

    /// The background entry for the current settings: on all outputs,
    /// with a rotation frequency of 0 when rotation is off.
    pub fn to_bg_entry(&self) -> (e: CosmicBgEntry)
        ensures
            e.output@ == "all"@,
            (match e.source {
                BgSource::Path(p) => p@ == self.current_source@,
            }),
            e.filter_by_theme == self.filter_by_theme,
            e.rotation_frequency == (if self.rotation_enabled {
                self.rotation_frequency
            } else {
                0
            }),
            e.filter_method == self.filter_method,
            e.scaling_mode == self.scaling_mode,
            e.sampling_method == self.sampling_method,
            entry_view(e) == entry_of(bg_state(*self)),
    {
        CosmicBgEntry {
            output: string_from("all"),
            source: BgSource::Path(self.current_source.clone()),
            filter_by_theme: self.filter_by_theme,
            rotation_frequency: if self.rotation_enabled {
                self.rotation_frequency
            } else {
                0
            },
            filter_method: self.filter_method,
            scaling_mode: self.scaling_mode,
            sampling_method: self.sampling_method,
        }
    }

    /// Make `path` the wallpaper: returns the entry to write.
    pub fn set_wallpaper(&mut self, path: &str) -> (e: CosmicBgEntry)
        ensures
            final(self).current_source@ == path@,
            final(self).rotation_frequency == old(self).rotation_frequency,
            final(self).rotation_enabled == old(self).rotation_enabled,
            final(self).available_themes@ == old(self).available_themes@,
            final(self).scaling_mode == old(self).scaling_mode,
            final(self).filter_method == old(self).filter_method,
            final(self).sampling_method == old(self).sampling_method,
            final(self).filter_by_theme == old(self).filter_by_theme,
            entry_view(e) == entry_of(bg_state(*final(self))),
            (match e.source {
                BgSource::Path(p) => p@ == path@,
            }),
            e.rotation_frequency == (if old(self).rotation_enabled {
                old(self).rotation_frequency
            } else {
                0
            }),
    {
        self.current_source = string_from(path);
        self.to_bg_entry()
    }

    /// The places a wallpaper of a theme can be, in the order they are
    /// tried: the theme's system directory, then the user's directory.
    pub fn full_path(theme: &str, filename: &str, user_dir: &str) -> (r: (String, String))
        ensures
            r.0@ == join_path(join_path("/usr/share/backgrounds"@, theme@), filename@),
            r.1@ == join_path(user_dir@, filename@),
    {
        let base = join("/usr/share/backgrounds", theme);
        (join(base.as_str(), filename), join(user_dir, filename))
    }

    /// No two recorded themes share a name: what `insert_theme` keeps.
    pub open spec fn names_distinct(&self) -> bool {
        theme_name_seq(self.available_themes@).no_duplicates()
    }

    /// Record the wallpapers of a theme, replacing an earlier entry of the
    /// same name.
    pub fn insert_theme(&mut self, t: ThemeWallpapers)
        ensures
            exists|i: int|
                0 <= i < final(self).available_themes@.len()
                    && #[trigger] final(self).available_themes@[i].name@ == t.name@
                    && final(self).available_themes@[i].count == t.count,
            forall|i: int|
                0 <= i < old(self).available_themes@.len() && old(self).available_themes@[i].name@
                    != t.name@ ==> exists|j: int|
                    0 <= j < final(self).available_themes@.len()
                        && #[trigger] final(self).available_themes@[j] == old(
                        self,
                    ).available_themes@[i],
            old(self).names_distinct() ==> final(self).names_distinct(),
    {
        let key = chars_of(t.name.as_str());
        let mut i: usize = 0;
        while i < self.available_themes.len()
            invariant
                i <= self.available_themes@.len(),
                key@ == t.name@,
                self.available_themes@ == old(self).available_themes@,
                forall|j: int| 0 <= j < i ==> #[trigger] self.available_themes@[j].name@ != t.name@,
            decreases self.available_themes.len() - i,
        {
            let n = chars_of(self.available_themes[i].name.as_str());
            assert(n@.subrange(0, n@.len() as int) == n@);
            if range_eq(n.as_slice(), 0, n.len(), key.as_slice()) {
                let ghost before = self.available_themes@;
                let ghost (tn, tc) = (t.name@, t.count);
                self.available_themes.set(i, t);
                assert(self.available_themes@[i as int].name@ == tn);
                assert forall|k: int|
                    0 <= k < before.len() && before[k].name@ != tn implies exists|j: int|
                    0 <= j < self.available_themes@.len()
                        && #[trigger] self.available_themes@[j] == before[k] by {
                    assert(k != i);
                    assert(self.available_themes@[k] == before[k]);
                }
                assert(theme_name_seq(self.available_themes@) =~= theme_name_seq(before));
                return;
            }
            i = i + 1;
        }
        let ghost before = self.available_themes@;
        let ghost (tn, tc) = (t.name@, t.count);
        self.available_themes.push(t);
        assert(self.available_themes@[before.len() as int].name@ == tn);
        assert forall|k: int|
            0 <= k < before.len() && before[k].name@ != tn implies exists|j: int|
            0 <= j < self.available_themes@.len()
                && #[trigger] self.available_themes@[j] == before[k] by {
            assert(self.available_themes@[k] == before[k]);
        }
        assert(theme_name_seq(self.available_themes@) =~= theme_name_seq(before).push(tn));
        assert forall|k: int| 0 <= k < before.len() implies theme_name_seq(before)[k] != tn by {
            assert(before[k].name@ != tn);
        }
    }

    /// Total wallpaper count across all themes.
    pub fn total_wallpaper_count(&self) -> (n: usize)
        requires
            count_sum(self.available_themes@) <= usize::MAX,
        ensures
            n == count_sum(self.available_themes@),
    {
        let mut n: usize = 0;
        let mut i: usize = 0;
        while i < self.available_themes.len()
            invariant
                i <= self.available_themes@.len(),
                count_sum(self.available_themes@) <= usize::MAX,
                n == count_sum(self.available_themes@.take(i as int)),
            decreases self.available_themes.len() - i,
        {
            assert(self.available_themes@.take(i + 1).drop_last() == self.available_themes@.take(
                i as int,
            ));
            proof {
                lemma_count_sum_prefix(self.available_themes@, i + 1);
            }
            n = n + self.available_themes[i].count;
            i = i + 1;
        }
        assert(self.available_themes@.take(i as int) == self.available_themes@);
        n
    }

    /// The theme names, sorted, each once.
    pub fn theme_names(&self) -> (r: Vec<String>)
        ensures
            sorted_by(strings_view(r@), le_fn()),
            strictly_sorted(strings_view(r@)),
            strings_view(r@).no_duplicates(),
            forall|x: Seq<char>|
                strings_view(r@).contains(x) <==> theme_name_seq(self.available_themes@).contains(x),
            self.names_distinct() ==> strings_view(r@).to_multiset() == theme_name_seq(
                self.available_themes@,
            ).to_multiset(),
    {
        let mut names: Vec<String> = Vec::new();
        let mut i: usize = 0;
        while i < self.available_themes.len()
            invariant
                i <= self.available_themes@.len(),
                strings_view(names@) == theme_name_seq(self.available_themes@.take(i as int)),
            decreases self.available_themes.len() - i,
        {
            let ghost before = names@;
            names.push(self.available_themes[i].name.clone());
            assert(strings_view(names@) == strings_view(before).push(self.available_themes@[i as int].name@));
            assert(theme_name_seq(self.available_themes@.take(i + 1)) =~= theme_name_seq(
                self.available_themes@.take(i as int),
            ).push(self.available_themes@[i as int].name@));
            i = i + 1;
        }
        assert(self.available_themes@.take(i as int) == self.available_themes@);
        let sorted = sort_strings(names);
        proof {
            let a = theme_name_seq(self.available_themes@);
            broadcast use vstd::seq_lib::group_to_multiset_ensures;
            assert forall|x: Seq<char>| strings_view(sorted@).contains(x) <==> a.contains(x) by {
                assert(strings_view(sorted@).to_multiset().count(x) == a.to_multiset().count(x));
            }
            if a.no_duplicates() {
                a.lemma_multiset_has_no_duplicates();
                strings_view(sorted@).lemma_multiset_has_no_duplicates_conv();
            }
        }
        let r = dedup_sorted(sorted);
        proof {
            lemma_strictly_sorted_distinct(strings_view(r@));
        }
        r
    }

    /// The current wallpaper's file name: `None` when there is no source,
    /// `Unknown` when the source has no file name.
    pub fn current_wallpaper_name(&self) -> (r: String)
        ensures
            r@ == (if self.current_source@.len() == 0 {
                "None"@
            } else {
                match file_name(self.current_source@) {
                    Some(n) => n,
                    None => "Unknown"@,
                }
            }),
    {
        if self.current_source.as_str().is_empty() {
            return string_from("None");
        }
        let c = chars_of(self.current_source.as_str());
        match file_name_range(c.as_slice()) {
            Some((lo, hi)) => string_of_range(c.as_slice(), lo, hi),
            None => string_from("Unknown"),
        }
    }

    /// The current wallpaper's theme (its directory's name): `None` when
    /// there is no source, `Unknown` when the source has no such name.
    pub fn current_theme_name(&self) -> (r: String)
        ensures
            r@ == (if self.current_source@.len() == 0 {
                "None"@
            } else {
                match parent_name(self.current_source@) {
                    Some(n) => n,
                    None => "Unknown"@,
                }
            }),
    {
        if self.current_source.as_str().is_empty() {
            return string_from("None");
        }
        let c = chars_of(self.current_source.as_str());
        match parent_name_range(c.as_slice()) {
            Some((lo, hi)) => string_of_range(c.as_slice(), lo, hi),
            None => string_from("Unknown"),
        }
    }

    /// The rotation frequency for display.
    pub fn format_rotation(&self) -> (s: String)
        ensures
            s@ == rotation_text(self.rotation_enabled, self.rotation_frequency),
    {
        let f = self.rotation_frequency;
        if !self.rotation_enabled || f == 0 {
            string_from("Disabled")
        } else if f < 60 {
            let mut s = String::new();
            push_u32(&mut s, f);
            push_str(&mut s, " seconds");
            s
        } else if f % 60 == 0 {
            let minutes = f / 60;
            if minutes == 1 {
                string_from("1 minute")
            } else {
                let mut s = String::new();
                push_u32(&mut s, minutes);
                push_str(&mut s, " minutes");
                s
            }
        } else {
            let mut s = String::new();
            push_u32(&mut s, f / 60);
            push_str(&mut s, "m ");
            push_u32(&mut s, f % 60);
            push_str(&mut s, "s");
            s
        }
    }
}

/// Display text of a rotation frequency.
pub open spec fn rotation_text(enabled: bool, f: u32) -> Seq<char> {
    if !enabled || f == 0 {
        "Disabled"@
    } else if f < 60 {
        dec(f as nat) + " seconds"@
    } else if f % 60 == 0 {
        if f / 60 == 1 {
            "1 minute"@
        } else {
            dec((f / 60) as nat) + " minutes"@
        }
    } else {
        dec((f / 60) as nat) + "m "@ + dec((f % 60) as nat) + "s"@
    }
}

pub open spec fn theme_name_seq(ts: Seq<ThemeWallpapers>) -> Seq<Seq<char>> {
    ts.map_values(|t: ThemeWallpapers| t.name@)
}

/// Sum of the wallpaper counts.
pub open spec fn count_sum(ts: Seq<ThemeWallpapers>) -> nat
    decreases ts.len(),
{
    if ts.len() == 0 {
        0
    } else {
        count_sum(ts.drop_last()) + ts.last().count as nat
    }
}

proof fn lemma_count_sum_prefix(ts: Seq<ThemeWallpapers>, k: int)
    requires
        0 <= k <= ts.len(),
    ensures
        count_sum(ts.take(k)) <= count_sum(ts),
    decreases ts.len(),
{
    if k < ts.len() {
        assert(ts.drop_last().take(k) == ts.take(k));
        lemma_count_sum_prefix(ts.drop_last(), k);
    } else {
        assert(ts.take(k) == ts);
    }
}

/// Whether a file's extension marks an image shown as a wallpaper: `png`,
/// `jpg`, `jpeg`, `webp`, `gif` or `bmp`, in any case.
pub open spec fn is_wallpaper_extension(ext: Seq<char>) -> bool {
    is_image_extension(str_lowercase(ext))
}

/// A lower-case image extension listed as a wallpaper.
pub open spec fn is_image_extension(e: Seq<char>) -> bool {
    e == "png"@ || e == "jpg"@ || e == "jpeg"@ || e == "webp"@ || e == "gif"@ || e == "bmp"@
}

/// Whether a file with this extension is listed as a wallpaper.
pub fn wallpaper_extension(ext: &str) -> (b: bool)
    ensures
        b == is_wallpaper_extension(ext@),
        is_ascii(ext@) ==> b == is_image_extension(ext@.map_values(|c: char| ascii_lower(c))),
{
    let e = lowercase(ext);
    let t = e.as_str();
    text_eq(t, "png") || text_eq(t, "jpg") || text_eq(t, "jpeg") || text_eq(t, "webp")
        || text_eq(t, "gif") || text_eq(t, "bmp")
}

fn text_eq(a: &str, b: &str) -> (r: bool)
    ensures
        r == (a@ == b@),
{
    let c = chars_of(a);
    let d = chars_of(b);
    assert(c@.subrange(0, c@.len() as int) == c@);
    range_eq(c.as_slice(), 0, c.len(), d.as_slice())
}

/// Sort the wallpaper file names found in a directory.
pub fn sorted_wallpapers(names: Vec<String>) -> (r: Vec<String>)
    ensures
        sorted_by(strings_view(r@), le_fn()),
        strings_view(r@).to_multiset() == strings_view(names@).to_multiset(),
{
    sort_strings(names)
}

/// The name a wallpaper's thumbnail is cached under: its directory's name
/// and its file name joined by `__`, or its file name alone when it has no
/// directory name (`unknown` standing in for a missing file name).
pub open spec fn thumb_key(source: Seq<char>) -> Seq<char> {
    let f = match file_name(source) {
        Some(n) => n,
        None => "unknown"@,
    };
    match parent_name(source) {
        Some(p) => p + "__"@ + f,
        None => f,
    }
}

/// The cache file of a wallpaper's thumbnail.
pub fn thumb_path_for(cache_dir: &str, source: &str) -> (r: String)
    ensures
        r@ == join_path(cache_dir@, thumb_key(source@)),
{
    let c = chars_of(source);
    let f = match file_name_range(c.as_slice()) {
        Some((lo, hi)) => string_of_range(c.as_slice(), lo, hi),
        None => string_from("unknown"),
    };
    let key = match parent_name_range(c.as_slice()) {
        Some((lo, hi)) => {
            let mut k = string_of_range(c.as_slice(), lo, hi);
            push_str(&mut k, "__");
            push_str(&mut k, f.as_str());
            k
        },
        None => f,
    };
    join(cache_dir, key.as_str())
}

/// What the cache holds for a thumbnail: nothing yet, a thumbnail, or a
/// marker (an empty file) left by a failed generation.
#[derive(Clone, Copy, Debug, PartialEq, Eq, Structural)]
pub enum CachedThumb {
    Missing,
    Ready,
    FailedBefore,
}

/// Classify the cache file from what the file system reports: whether it
/// exists, and whether it is empty (`None` when its size is unknown,
/// which counts as a thumbnail).
pub fn classify_cached(present: bool, empty: Option<bool>) -> (c: CachedThumb)
    ensures
        c == (if !present {
            CachedThumb::Missing
        } else if empty == Some(true) {
            CachedThumb::FailedBefore
        } else {
            CachedThumb::Ready
        }),
{
    if !present {
        CachedThumb::Missing
    } else if empty == Some(true) {
        CachedThumb::FailedBefore
    } else {
        CachedThumb::Ready
    }
}


/// Thumbnail cache of the wallpaper grid: small copies of the wallpapers
/// kept in a cache directory, and empty marker files for those whose
/// generation failed (so they are not tried again).
pub struct ThumbnailCache {
    /// Cache directory path.
    pub cache_dir: String,
}

/// The thumbnail directory under a user cache directory.
pub open spec fn thumbnails_dir(cache_root: Seq<char>) -> Seq<char> {
    join_path(join_path(cache_root, "cosmic-order"@), "thumbnails"@)
}

impl ThumbnailCache {
    /// The cache under the user's cache directory `cache_root`.
    pub fn new(cache_root: &str) -> (c: ThumbnailCache)
        ensures
            c.cache_dir@ == thumbnails_dir(cache_root@),
    {
        let app = join(cache_root, "cosmic-order");
        ThumbnailCache { cache_dir: join(app.as_str(), "thumbnails") }
    }

    /// The cache file of a wallpaper's thumbnail.
    pub fn thumb_path_for(&self, source: &str) -> (r: String)
        ensures
            r@ == join_path(self.cache_dir@, thumb_key(source@)),
    {
        thumb_path_for(self.cache_dir.as_str(), source)
    }

    /// The thumbnail to show for a wallpaper, from what the file system
    /// reports of its cache file (whether it exists, and whether it is
    /// empty): the cache file when it holds a thumbnail, else none.
    pub fn get_cached(&self, source: &str, present: bool, empty: Option<bool>) -> (r: Option<String>)
        ensures
            match r {
                Some(p) => {
                    &&& p@ == join_path(self.cache_dir@, thumb_key(source@))
                    &&& present
                    &&& empty != Some(true)
                },
                None => !present || empty == Some(true),
            },
    {
        let c = classify_cached(present, empty);
        if c == CachedThumb::Ready {
            let p = self.thumb_path_for(source);
            Some(p)
        } else {
            None
        }
    }
}

} // verus!
