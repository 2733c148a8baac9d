//! The screensaver settings file: a shell-style `KEY="value"` list read
//! and written for screensaver-ctl, and the swayidle configuration that
//! the settings produce.
use vstd::prelude::*;
use crate::text::{
    chars_of, string_from, push_str, trim, strip, Strip, find_first, find_char_range, strip_bounds,
    lines_acc, lines_of, strip_cr, parse_u32, parse_u32_range, eq_ignore_ascii_case,
    range_eq, range_eq_ignore_ascii_case, dec, u32_to_string, strip_start, strip_end,
    lemma_strip_keeps, lemma_find_first_some, lemma_lines_acc_line, lemma_lines_acc_append,
    lemma_dec, lemma_parse_dec, push_u32, title_case, title_case_range, WordSeparators,
    is_ascii, title_case_ascii,
};
use crate::paths::{
    self, UserDirs, join_path, screensaver_dir_of, file_name, stem_of, file_name_range, stem_end,
};

verus! {

/// Screensaver configuration.
pub struct ScreensaverConfig {
    /// Whether screensaver is enabled
    pub enabled: bool,
    /// Idle timeout before screensaver starts (seconds)
    pub idle_timeout: u32,
    /// Lock timeout after screensaver (seconds, 0 to disable)
    pub lock_timeout: u32,
    /// DPMS (screen off) timeout (seconds, 0 to disable)
    pub dpms_timeout: u32,
    /// Animation frame rate
    pub frame_rate: u32,
    /// Effects to include (comma-separated)
    pub include_effects: String,
    /// Effects to exclude (comma-separated)
    pub exclude_effects: String,
    /// Fade in effect
    pub fade_in_effect: String,
    /// Fade out effect
    pub fade_out_effect: String,
    /// Show clock between effects
    pub show_clock: bool,
    /// Clock display duration (seconds)
    pub clock_duration: u32,
    /// Clock format string
    pub clock_format: String,
    /// Clock font
    pub clock_font: String,
    /// Logo file path
    pub logo_file: String,
    /// Disable on battery
    pub disable_on_battery: bool,
    /// Battery idle timeout (longer timeout when on battery)
    pub battery_idle_timeout: u32,
    /// Terminal emulator to use
    pub terminal: String,
    /// Effect profile override for Performance power mode (empty = use default)
    pub effects_performance: String,
    /// Effect profile override for Balanced power mode (empty = use default)
    pub effects_balanced: String,
    /// Effect profile override for Battery power mode (empty = use default)
    pub effects_battery: String,
    /// Effect profile override for Minimal power mode (empty = use default)
    pub effects_minimal: String,
    /// Hide text cursor during screensaver
    pub cursor_hide: bool,
    /// Hide mouse pointer via terminal config
    pub hide_mouse: bool,
    /// Keyboard input dismisses screensaver
    pub dismiss_on_key: bool,
    /// Use native session lock (ext-session-lock-v1) instead of logind
    pub session_lock: bool,
}

/// Mathematical model of [`ScreensaverConfig`]: the same settings with
/// texts as character sequences.
pub struct ScreensaverSettings {
    pub enabled: bool,
    pub idle_timeout: u32,
    pub lock_timeout: u32,
    pub dpms_timeout: u32,
    pub frame_rate: u32,
    pub include_effects: Seq<char>,
    pub exclude_effects: Seq<char>,
    pub fade_in_effect: Seq<char>,
    pub fade_out_effect: Seq<char>,
    pub show_clock: bool,
    pub clock_duration: u32,
    pub clock_format: Seq<char>,
    pub clock_font: Seq<char>,
    pub logo_file: Seq<char>,
    pub disable_on_battery: bool,
    pub battery_idle_timeout: u32,
    pub terminal: Seq<char>,
    pub effects_performance: Seq<char>,
    pub effects_balanced: Seq<char>,
    pub effects_battery: Seq<char>,
    pub effects_minimal: Seq<char>,
    pub cursor_hide: bool,
    pub hide_mouse: bool,
    pub dismiss_on_key: bool,
    pub session_lock: bool,
}

impl View for ScreensaverConfig {
    type V = ScreensaverSettings;

    open spec fn view(&self) -> ScreensaverSettings {
        ScreensaverSettings {
            enabled: self.enabled,
            idle_timeout: self.idle_timeout,
            lock_timeout: self.lock_timeout,
            dpms_timeout: self.dpms_timeout,
            frame_rate: self.frame_rate,
            include_effects: self.include_effects@,
            exclude_effects: self.exclude_effects@,
            fade_in_effect: self.fade_in_effect@,
            fade_out_effect: self.fade_out_effect@,
            show_clock: self.show_clock,
            clock_duration: self.clock_duration,
            clock_format: self.clock_format@,
            clock_font: self.clock_font@,
            logo_file: self.logo_file@,
            disable_on_battery: self.disable_on_battery,
            battery_idle_timeout: self.battery_idle_timeout,
            terminal: self.terminal@,
            effects_performance: self.effects_performance@,
            effects_balanced: self.effects_balanced@,
            effects_battery: self.effects_battery@,
            effects_minimal: self.effects_minimal@,
            cursor_hide: self.cursor_hide,
            hide_mouse: self.hide_mouse,
            dismiss_on_key: self.dismiss_on_key,
            session_lock: self.session_lock,
        }
    }
}

impl Clone for ScreensaverConfig {
    fn clone(&self) -> (r: Self)
        ensures
            r@ == self@,
    {
        ScreensaverConfig {
            enabled: self.enabled,
            idle_timeout: self.idle_timeout,
            lock_timeout: self.lock_timeout,
            dpms_timeout: self.dpms_timeout,
            frame_rate: self.frame_rate,
            include_effects: self.include_effects.clone(),
            exclude_effects: self.exclude_effects.clone(),
            fade_in_effect: self.fade_in_effect.clone(),
            fade_out_effect: self.fade_out_effect.clone(),
            show_clock: self.show_clock,
            clock_duration: self.clock_duration,
            clock_format: self.clock_format.clone(),
            clock_font: self.clock_font.clone(),
            logo_file: self.logo_file.clone(),
            disable_on_battery: self.disable_on_battery,
            battery_idle_timeout: self.battery_idle_timeout,
            terminal: self.terminal.clone(),
            effects_performance: self.effects_performance.clone(),
            effects_balanced: self.effects_balanced.clone(),
            effects_battery: self.effects_battery.clone(),
            effects_minimal: self.effects_minimal.clone(),
            cursor_hide: self.cursor_hide,
            hide_mouse: self.hide_mouse,
            dismiss_on_key: self.dismiss_on_key,
            session_lock: self.session_lock,
        }
    }
}

/// The all-zero, all-empty settings (`Default`).
pub open spec fn zero_settings() -> ScreensaverSettings {
    ScreensaverSettings {
        enabled: false,
        idle_timeout: 0,
        lock_timeout: 0,
        dpms_timeout: 0,
        frame_rate: 0,
        include_effects: Seq::empty(),
        exclude_effects: Seq::empty(),
        fade_in_effect: Seq::empty(),
        fade_out_effect: Seq::empty(),
        show_clock: false,
        clock_duration: 0,
        clock_format: Seq::empty(),
        clock_font: Seq::empty(),
        logo_file: Seq::empty(),
        disable_on_battery: false,
        battery_idle_timeout: 0,
        terminal: Seq::empty(),
        effects_performance: Seq::empty(),
        effects_balanced: Seq::empty(),
        effects_battery: Seq::empty(),
        effects_minimal: Seq::empty(),
        cursor_hide: false,
        hide_mouse: false,
        dismiss_on_key: false,
        session_lock: false,
    }
}

impl Default for ScreensaverConfig {
    fn default() -> (r: Self)
        ensures
            r@ == zero_settings(),
    {
        ScreensaverConfig {
            enabled: false,
            idle_timeout: 0,
            lock_timeout: 0,
            dpms_timeout: 0,
            frame_rate: 0,
            include_effects: String::new(),
            exclude_effects: String::new(),
            fade_in_effect: String::new(),
            fade_out_effect: String::new(),
            show_clock: false,
            clock_duration: 0,
            clock_format: String::new(),
            clock_font: String::new(),
            logo_file: String::new(),
            disable_on_battery: false,
            battery_idle_timeout: 0,
            terminal: String::new(),
            effects_performance: String::new(),
            effects_balanced: String::new(),
            effects_battery: String::new(),
            effects_minimal: String::new(),
            cursor_hide: false,
            hide_mouse: false,
            dismiss_on_key: false,
            session_lock: false,
        }
    }
}

// ---------------------------------------------------------------------
// Reading
// ---------------------------------------------------------------------

/// What one line of the file contributes: blank lines and `#` comments
/// nothing; otherwise the text before the first `=` (trimmed) is the key
/// and the text after it, trimmed and with surrounding double quotes
/// removed, the value. A line without `=` contributes nothing.
pub open spec fn line_entry(line: Seq<char>) -> Option<(Seq<char>, Seq<char>)> {
    let t = trim(line);
    if t.len() == 0 || t[0] == '#' {
        None
    } else {
        match find_first(t, '=') {
            Some(k) => Some((trim(t.take(k)), strip(trim(t.skip(k + 1)), Strip::Quote))),
            None => None,
        }
    }
}

/// The key/value entries of the lines, in file order.
pub open spec fn entries_of(lines: Seq<Seq<char>>) -> Seq<(Seq<char>, Seq<char>)>
    decreases lines.len(),
{
    if lines.len() == 0 {
        seq![]
    } else {
        let prev = entries_of(lines.drop_last());
        match line_entry(lines.last()) {
            Some(e) => prev.push(e),
            None => prev,
        }
    }
}

/// The value of `key`: a later entry overrides an earlier one.
pub open spec fn lookup(kv: Seq<(Seq<char>, Seq<char>)>, key: Seq<char>) -> Option<Seq<char>>
    decreases kv.len(),
{
    if kv.len() == 0 {
        None
    } else if kv.last().0 == key {
        Some(kv.last().1)
    } else {
        lookup(kv.drop_last(), key)
    }
}

/// A boolean setting: `true` in any ASCII case, or `1`; absent keys take
/// the default.
pub open spec fn bool_setting(kv: Seq<(Seq<char>, Seq<char>)>, key: Seq<char>, d: bool) -> bool {
    match lookup(kv, key) {
        Some(v) => eq_ignore_ascii_case(v, "true"@) || v == "1"@,
        None => d,
    }
}

/// A number setting: absent or unreadable values take the default.
pub open spec fn u32_setting(kv: Seq<(Seq<char>, Seq<char>)>, key: Seq<char>, d: u32) -> u32 {
    match lookup(kv, key) {
        Some(v) => match parse_u32(v) {
            Some(n) => n,
            None => d,
        },
        None => d,
    }
}

/// A text setting: absent keys take the default.
pub open spec fn text_setting(
    kv: Seq<(Seq<char>, Seq<char>)>,
    key: Seq<char>,
    d: Seq<char>,
) -> Seq<char> {
    match lookup(kv, key) {
        Some(v) => v,
        None => d,
    }
}

/// The settings that a list of entries describes.
pub open spec fn settings_from(kv: Seq<(Seq<char>, Seq<char>)>) -> ScreensaverSettings {
    ScreensaverSettings {
        enabled: bool_setting(kv, "ENABLED"@, true),
        idle_timeout: u32_setting(kv, "IDLE_TIMEOUT"@, 300),
        lock_timeout: u32_setting(kv, "LOCK_TIMEOUT"@, 600),
        dpms_timeout: u32_setting(kv, "DPMS_TIMEOUT"@, 900),
        frame_rate: u32_setting(kv, "FRAME_RATE"@, 60),
        include_effects: text_setting(kv, "INCLUDE_EFFECTS"@, Seq::empty()),
        exclude_effects: text_setting(kv, "EXCLUDE_EFFECTS"@, "dev_worm"@),
        fade_in_effect: text_setting(kv, "FADE_IN_EFFECT"@, Seq::empty()),
        fade_out_effect: text_setting(kv, "FADE_OUT_EFFECT"@, Seq::empty()),
        show_clock: bool_setting(kv, "SHOW_CLOCK"@, false),
        clock_duration: u32_setting(kv, "CLOCK_DURATION"@, 5),
        clock_format: text_setting(kv, "CLOCK_FORMAT"@, "%H:%M"@),
        clock_font: text_setting(kv, "CLOCK_FONT"@, Seq::empty()),
        logo_file: text_setting(kv, "LOGO_FILE"@, Seq::empty()),
        disable_on_battery: bool_setting(kv, "DISABLE_ON_BATTERY"@, false),
        battery_idle_timeout: u32_setting(kv, "BATTERY_IDLE_TIMEOUT"@, 600),
        terminal: text_setting(kv, "TERMINAL"@, "ghostty"@),
        effects_performance: text_setting(kv, "EFFECTS_PERFORMANCE"@, Seq::empty()),
        effects_balanced: text_setting(kv, "EFFECTS_BALANCED"@, Seq::empty()),
        effects_battery: text_setting(kv, "EFFECTS_BATTERY"@, Seq::empty()),
        effects_minimal: text_setting(kv, "EFFECTS_MINIMAL"@, Seq::empty()),
        cursor_hide: bool_setting(kv, "CURSOR_HIDE"@, true),
        hide_mouse: bool_setting(kv, "HIDE_MOUSE"@, true),
        dismiss_on_key: bool_setting(kv, "DISMISS_ON_KEY"@, true),
        session_lock: bool_setting(kv, "SESSION_LOCK"@, false),
    }
}

/// The settings a file's text describes.
pub open spec fn parse_settings(content: Seq<char>) -> ScreensaverSettings {
    settings_from(entries_of(lines_of(content)))
}

/// The built-in defaults (what an empty file reads as).
pub open spec fn default_settings() -> ScreensaverSettings {
    settings_from(seq![])
}

/// Entries recorded as index ranges into the file text.
pub open spec fn entries_view(c: Seq<char>, kv: Seq<(usize, usize, usize, usize)>) -> Seq<
    (Seq<char>, Seq<char>),
> {
    kv.map_values(
        |q: (usize, usize, usize, usize)|
            (c.subrange(q.0 as int, q.1 as int), c.subrange(q.2 as int, q.3 as int)),
    )
}

pub open spec fn ranges_ok(c: Seq<char>, kv: Seq<(usize, usize, usize, usize)>) -> bool {
    forall|i: int|
        0 <= i < kv.len() ==> #[trigger] kv[i].0 <= kv[i].1 <= c.len() && kv[i].2 <= kv[i].3
            <= c.len()
}

/// The entry of line `c[lo..hi]`, as ranges into `c`.
fn line_entry_range(c: &[char], lo: usize, hi: usize) -> (r: Option<(usize, usize, usize, usize)>)
    requires
        lo <= hi <= c@.len(),
    ensures
        match r {
            Some(q) => q.0 <= q.1 <= c@.len() && q.2 <= q.3 <= c@.len() && line_entry(
                c@.subrange(lo as int, hi as int),
            ) == Some((c@.subrange(q.0 as int, q.1 as int), c@.subrange(q.2 as int, q.3 as int))),
            None => line_entry(c@.subrange(lo as int, hi as int)) is None,
        },
{
    let (a, b) = strip_bounds(c, lo, hi, Strip::Whitespace);
    let ghost t = c@.subrange(a as int, b as int);
    if a == b {
        return None;
    }
    assert(t[0] == c@[a as int]);
    if c[a] == '#' {
        return None;
    }
    match find_char_range(c, a, b, '=') {
        Some(k) => {
            assert(t.take(k - a) == c@.subrange(a as int, k as int));
            assert(t.skip(k - a + 1) == c@.subrange(k + 1, b as int));
            let (ka, kb) = strip_bounds(c, a, k, Strip::Whitespace);
            let (va, vb) = strip_bounds(c, k + 1, b, Strip::Whitespace);
            let (qa, qb) = strip_bounds(c, va, vb, Strip::Quote);
            Some((ka, kb, qa, qb))
        },
        None => None,
    }
}

/// The last entry for `key`, as the range of its value.
fn lookup_range(c: &[char], kv: &Vec<(usize, usize, usize, usize)>, key: &[char]) -> (r: Option<
    (usize, usize),
>)
    requires
        ranges_ok(c@, kv@),
    ensures
        match r {
            Some(v) => v.0 <= v.1 <= c@.len() && lookup(entries_view(c@, kv@), key@) == Some(
                c@.subrange(v.0 as int, v.1 as int),
            ),
            None => lookup(entries_view(c@, kv@), key@) is None,
        },
{
    let ghost ev = entries_view(c@, kv@);
    let mut i = kv.len();
    assert(ev.take(i as int) == ev);
    while i > 0
        invariant
            i <= kv@.len(),
            ranges_ok(c@, kv@),
            ev == entries_view(c@, kv@),
            lookup(ev, key@) == lookup(ev.take(i as int), key@),
        decreases i,
    {
        let q = kv[i - 1];
        assert(kv@[i - 1] == q);
        assert(ev.take(i as int).last() == ev[i - 1]);
        assert(ev.take(i as int).drop_last() == ev.take(i - 1));
        if range_eq(c, q.0, q.1, key) {
            return Some((q.2, q.3));
        }
        i = i - 1;
    }
    None
}

fn get_bool(c: &[char], kv: &Vec<(usize, usize, usize, usize)>, key: &str, d: bool) -> (b: bool)
    requires
        ranges_ok(c@, kv@),
    ensures
        b == bool_setting(entries_view(c@, kv@), key@, d),
{
    let k = chars_of(key);
    match lookup_range(c, kv, k.as_slice()) {
        Some((lo, hi)) => {
            let t = chars_of("true");
            let one = chars_of("1");
            range_eq_ignore_ascii_case(c, lo, hi, t.as_slice()) || range_eq(
                c,
                lo,
                hi,
                one.as_slice(),
            )
        },
        None => d,
    }
}

fn get_u32(c: &[char], kv: &Vec<(usize, usize, usize, usize)>, key: &str, d: u32) -> (n: u32)
    requires
        ranges_ok(c@, kv@),
    ensures
        n == u32_setting(entries_view(c@, kv@), key@, d),
{
    let k = chars_of(key);
    match lookup_range(c, kv, k.as_slice()) {
        Some((lo, hi)) => match parse_u32_range(c, lo, hi) {
            Some(n) => n,
            None => d,
        },
        None => d,
    }
}

fn get_text(c: &[char], kv: &Vec<(usize, usize, usize, usize)>, key: &str, d: &str) -> (s: String)
    requires
        ranges_ok(c@, kv@),
    ensures
        s@ == text_setting(entries_view(c@, kv@), key@, d@),
{
    let k = chars_of(key);
    match lookup_range(c, kv, k.as_slice()) {
        Some((lo, hi)) => {
            let mut s = String::new();
            let mut i = lo;
            while i < hi
                invariant
                    lo <= i <= hi <= c@.len(),
                    s@ == c@.subrange(lo as int, i as int),
                decreases hi - i,
            {
                s.push(c[i]);
                i = i + 1;
                assert(c@.subrange(lo as int, i as int) == c@.subrange(lo as int, i - 1).push(
                    c@[i - 1],
                ));
            }
            s
        },
        None => string_from(d),
    }
}

proof fn lemma_entries_push(lines: Seq<Seq<char>>, l: Seq<char>)
    ensures
        entries_of(lines.push(l)) == (match line_entry(l) {
            Some(e) => entries_of(lines).push(e),
            None => entries_of(lines),
        }),
{
    assert(lines.push(l).drop_last() == lines);
}

/// Scan the file text into entry ranges.
fn scan_entries(c: &[char]) -> (kv: Vec<(usize, usize, usize, usize)>)
    ensures
        ranges_ok(c@, kv@),
        entries_view(c@, kv@) == entries_of(lines_of(c@)),
{
    let mut kv: Vec<(usize, usize, usize, usize)> = Vec::new();
    let ghost mut done: Seq<Seq<char>> = seq![];
    let mut ls: usize = 0;
    let mut i: usize = 0;
    while i < c.len()
        invariant
            ls <= i <= c@.len(),
            lines_acc(c@.take(i as int)) == (done, c@.subrange(ls as int, i as int)),
            ranges_ok(c@, kv@),
            entries_view(c@, kv@) == entries_of(done),
        decreases c.len() - i,
    {
        assert(c@.take(i + 1).drop_last() == c@.take(i as int));
        assert(c@.take(i + 1).last() == c@[i as int]);
        if c[i] == '\n' {
            let mut end = i;
            if i > ls && c[i - 1] == '\r' {
                end = i - 1;
            }
            let ghost cur = c@.subrange(ls as int, i as int);
            assert(strip_cr(cur) == c@.subrange(ls as int, end as int)) by {
                if cur.len() > 0 {
                    assert(cur.last() == c@[i - 1]);
                    if cur.last() == '\r' {
                        assert(cur.drop_last() == c@.subrange(ls as int, i - 1));
                    }
                }
            }
            let ghost line = c@.subrange(ls as int, end as int);
            proof {
                lemma_entries_push(done, line);
            }
            match line_entry_range(c, ls, end) {
                Some(q) => {
                    let ghost old_kv = kv@;
                    kv.push(q);
                    assert(entries_view(c@, kv@) == entries_view(c@, old_kv).push(
                        (c@.subrange(q.0 as int, q.1 as int), c@.subrange(q.2 as int, q.3 as int)),
                    ));
                    assert(ranges_ok(c@, kv@)) by {
                        assert forall|j: int| 0 <= j < kv@.len() implies #[trigger] kv@[j].0
                            <= kv@[j].1 <= c@.len() && kv@[j].2 <= kv@[j].3 <= c@.len() by {
                            if j < old_kv.len() {
                                assert(kv@[j] == old_kv[j]);
                            }
                        }
                    }
                },
                None => {},
            }
            proof {
                done = done.push(line);
            }
            ls = i + 1;
            i = i + 1;
            assert(c@.subrange(ls as int, i as int).len() == 0);
        } else {
            assert(c@.subrange(ls as int, i + 1) == c@.subrange(ls as int, i as int).push(
                c@[i as int],
            ));
            i = i + 1;
        }
    }
    assert(c@.take(i as int) == c@);
    if ls < c.len() {
        let ghost line = c@.subrange(ls as int, i as int);
        proof {
            lemma_entries_push(done, line);
        }
        match line_entry_range(c, ls, c.len()) {
            Some(q) => {
                let ghost old_kv = kv@;
                kv.push(q);
                assert(entries_view(c@, kv@) == entries_view(c@, old_kv).push(
                    (c@.subrange(q.0 as int, q.1 as int), c@.subrange(q.2 as int, q.3 as int)),
                ));
            },
            None => {},
        }
    }
    kv
}

impl ScreensaverConfig {
    /// Parse configuration from the text of the settings file.
    pub fn parse(content: &str) -> (r: Result<ScreensaverConfig, ConfigError>)
        ensures
            r is Ok,
            r matches Ok(cfg) ==> cfg@ == parse_settings(content@),
    {
        let cv = chars_of(content);
        let c = cv.as_slice();
        let kv = scan_entries(c);
        let cfg = ScreensaverConfig {
            enabled: get_bool(c, &kv, "ENABLED", true),
            idle_timeout: get_u32(c, &kv, "IDLE_TIMEOUT", 300),
            lock_timeout: get_u32(c, &kv, "LOCK_TIMEOUT", 600),
            dpms_timeout: get_u32(c, &kv, "DPMS_TIMEOUT", 900),
            frame_rate: get_u32(c, &kv, "FRAME_RATE", 60),
            include_effects: get_text(c, &kv, "INCLUDE_EFFECTS", ""),
            exclude_effects: get_text(c, &kv, "EXCLUDE_EFFECTS", "dev_worm"),
            fade_in_effect: get_text(c, &kv, "FADE_IN_EFFECT", ""),
            fade_out_effect: get_text(c, &kv, "FADE_OUT_EFFECT", ""),
            show_clock: get_bool(c, &kv, "SHOW_CLOCK", false),
            clock_duration: get_u32(c, &kv, "CLOCK_DURATION", 5),
            clock_format: get_text(c, &kv, "CLOCK_FORMAT", "%H:%M"),
            clock_font: get_text(c, &kv, "CLOCK_FONT", ""),
            logo_file: get_text(c, &kv, "LOGO_FILE", ""),
            disable_on_battery: get_bool(c, &kv, "DISABLE_ON_BATTERY", false),
            battery_idle_timeout: get_u32(c, &kv, "BATTERY_IDLE_TIMEOUT", 600),
            terminal: get_text(c, &kv, "TERMINAL", "ghostty"),
            effects_performance: get_text(c, &kv, "EFFECTS_PERFORMANCE", ""),
            effects_balanced: get_text(c, &kv, "EFFECTS_BALANCED", ""),
            effects_battery: get_text(c, &kv, "EFFECTS_BATTERY", ""),
            effects_minimal: get_text(c, &kv, "EFFECTS_MINIMAL", ""),
            cursor_hide: get_bool(c, &kv, "CURSOR_HIDE", true),
            hide_mouse: get_bool(c, &kv, "HIDE_MOUSE", true),
            dismiss_on_key: get_bool(c, &kv, "DISMISS_ON_KEY", true),
            session_lock: get_bool(c, &kv, "SESSION_LOCK", false),
        };
        proof {
            reveal_strlit("");
            assert(""@ =~= Seq::<char>::empty());
        }
        assert(cfg@ == parse_settings(content@));
        Ok(cfg)
    }
}

/// Configuration errors.
pub enum ConfigError {
    Read(String),
    Write(String),
}

impl ConfigError {
    /// The error's message.
    pub fn message(&self) -> (s: String)
        ensures
            s@ == match self {
                ConfigError::Read(e) => "Failed to read configuration: "@ + e@,
                ConfigError::Write(e) => "Failed to write configuration: "@ + e@,
            },
    {
        match self {
            ConfigError::Read(e) => {
                let mut s = string_from("Failed to read configuration: ");
                push_str(&mut s, e.as_str());
                s
            },
            ConfigError::Write(e) => {
                let mut s = string_from("Failed to write configuration: ");
                push_str(&mut s, e.as_str());
                s
            },
        }
    }
}

} // verus!

verus! {

// ---------------------------------------------------------------------
// Writing
// ---------------------------------------------------------------------

pub open spec fn bool_text(b: bool) -> Seq<char> {
    if b {
        "true"@
    } else {
        "false"@
    }
}

/// One `KEY="value"` line, without its terminator.
pub open spec fn setting_line(key: Seq<char>, value: Seq<char>) -> Seq<char> {
    key + "=\""@ + value + "\""@
}

/// The lines, each followed by `\n`.
pub open spec fn join_settings(ps: Seq<(Seq<char>, Seq<char>)>) -> Seq<char>
    decreases ps.len(),
{
    if ps.len() == 0 {
        seq![]
    } else {
        join_settings(ps.drop_last()) + setting_line(ps.last().0, ps.last().1) + "\n"@
    }
}

/// The keys and value texts that the file holds, in file order.
pub open spec fn settings_pairs(s: ScreensaverSettings) -> Seq<(Seq<char>, Seq<char>)> {
    seq![
        ("ENABLED"@, bool_text(s.enabled)),
        ("IDLE_TIMEOUT"@, dec(s.idle_timeout as nat)),
        ("LOCK_TIMEOUT"@, dec(s.lock_timeout as nat)),
        ("DPMS_TIMEOUT"@, dec(s.dpms_timeout as nat)),
        ("FRAME_RATE"@, dec(s.frame_rate as nat)),
        ("INCLUDE_EFFECTS"@, s.include_effects),
        ("EXCLUDE_EFFECTS"@, s.exclude_effects),
        ("FADE_IN_EFFECT"@, s.fade_in_effect),
        ("FADE_OUT_EFFECT"@, s.fade_out_effect),
        ("SHOW_CLOCK"@, bool_text(s.show_clock)),
        ("CLOCK_DURATION"@, dec(s.clock_duration as nat)),
        ("CLOCK_FORMAT"@, s.clock_format),
        ("CLOCK_FONT"@, s.clock_font),
        ("LOGO_FILE"@, s.logo_file),
        ("DISABLE_ON_BATTERY"@, bool_text(s.disable_on_battery)),
        ("BATTERY_IDLE_TIMEOUT"@, dec(s.battery_idle_timeout as nat)),
        ("TERMINAL"@, s.terminal),
        ("EFFECTS_PERFORMANCE"@, s.effects_performance),
        ("EFFECTS_BALANCED"@, s.effects_balanced),
        ("EFFECTS_BATTERY"@, s.effects_battery),
        ("EFFECTS_MINIMAL"@, s.effects_minimal),
        ("CURSOR_HIDE"@, bool_text(s.cursor_hide)),
        ("HIDE_MOUSE"@, bool_text(s.hide_mouse)),
        ("DISMISS_ON_KEY"@, bool_text(s.dismiss_on_key)),
        ("SESSION_LOCK"@, bool_text(s.session_lock)),
    ]
}

/// The settings file text, in the format screensaver-ctl reads.
pub open spec fn serialize_settings(s: ScreensaverSettings) -> Seq<char> {
    join_settings(settings_pairs(s))
}

proof fn lemma_join_step(ps: Seq<(Seq<char>, Seq<char>)>, k: int)
    requires
        0 <= k < ps.len(),
    ensures
        join_settings(ps.take(k + 1)) == join_settings(ps.take(k)) + setting_line(ps[k].0, ps[k].1)
            + "\n"@,
{
    assert(ps.take(k + 1).drop_last() == ps.take(k));
}

fn push_setting(s: &mut String, key: &str, value: &str)
    ensures
        final(s)@ == old(s)@ + setting_line(key@, value@) + "\n"@,
{
    push_str(s, key);
    push_str(s, "=\"");
    push_str(s, value);
    push_str(s, "\"");
    push_str(s, "\n");
    assert(final(s)@ =~= old(s)@ + setting_line(key@, value@) + "\n"@);
}

fn bool_str(b: bool) -> (s: &'static str)
    ensures
        s@ == bool_text(b),
{
    if b {
        "true"
    } else {
        "false"
    }
}

impl ScreensaverConfig {
    /// Serialize config to shell `KEY="value"` format matching screensaver-ctl.sh.
    pub fn serialize(&self) -> (r: String)
        ensures
            r@ == serialize_settings(self@),
    {
        let ghost ps = settings_pairs(self@);
        let mut s = String::new();
        assert(s@ == join_settings(ps.take(0)));
        push_setting(&mut s, "ENABLED", bool_str(self.enabled));
        proof {
            lemma_join_step(ps, 0);
        }
        push_setting(&mut s, "IDLE_TIMEOUT", u32_to_string(self.idle_timeout).as_str());
        proof {
            lemma_join_step(ps, 1);
        }
        push_setting(&mut s, "LOCK_TIMEOUT", u32_to_string(self.lock_timeout).as_str());
        proof {
            lemma_join_step(ps, 2);
        }
        push_setting(&mut s, "DPMS_TIMEOUT", u32_to_string(self.dpms_timeout).as_str());
        proof {
            lemma_join_step(ps, 3);
        }
        push_setting(&mut s, "FRAME_RATE", u32_to_string(self.frame_rate).as_str());
        proof {
            lemma_join_step(ps, 4);
        }
        push_setting(&mut s, "INCLUDE_EFFECTS", self.include_effects.as_str());
        proof {
            lemma_join_step(ps, 5);
        }
        push_setting(&mut s, "EXCLUDE_EFFECTS", self.exclude_effects.as_str());
        proof {
            lemma_join_step(ps, 6);
        }
        push_setting(&mut s, "FADE_IN_EFFECT", self.fade_in_effect.as_str());
        proof {
            lemma_join_step(ps, 7);
        }
        push_setting(&mut s, "FADE_OUT_EFFECT", self.fade_out_effect.as_str());
        proof {
            lemma_join_step(ps, 8);
        }
        push_setting(&mut s, "SHOW_CLOCK", bool_str(self.show_clock));
        proof {
            lemma_join_step(ps, 9);
        }
        push_setting(&mut s, "CLOCK_DURATION", u32_to_string(self.clock_duration).as_str());
        proof {
            lemma_join_step(ps, 10);
        }
        push_setting(&mut s, "CLOCK_FORMAT", self.clock_format.as_str());
        proof {
            lemma_join_step(ps, 11);
        }
        push_setting(&mut s, "CLOCK_FONT", self.clock_font.as_str());
        proof {
            lemma_join_step(ps, 12);
        }
        push_setting(&mut s, "LOGO_FILE", self.logo_file.as_str());
        proof {
            lemma_join_step(ps, 13);
        }
        push_setting(&mut s, "DISABLE_ON_BATTERY", bool_str(self.disable_on_battery));
        proof {
            lemma_join_step(ps, 14);
        }
        push_setting(&mut s, "BATTERY_IDLE_TIMEOUT", u32_to_string(self.battery_idle_timeout).as_str());
        proof {
            lemma_join_step(ps, 15);
        }
        push_setting(&mut s, "TERMINAL", self.terminal.as_str());
        proof {
            lemma_join_step(ps, 16);
        }
        push_setting(&mut s, "EFFECTS_PERFORMANCE", self.effects_performance.as_str());
        proof {
            lemma_join_step(ps, 17);
        }
        push_setting(&mut s, "EFFECTS_BALANCED", self.effects_balanced.as_str());
        proof {
            lemma_join_step(ps, 18);
        }
        push_setting(&mut s, "EFFECTS_BATTERY", self.effects_battery.as_str());
        proof {
            lemma_join_step(ps, 19);
        }
        push_setting(&mut s, "EFFECTS_MINIMAL", self.effects_minimal.as_str());
        proof {
            lemma_join_step(ps, 20);
        }
        push_setting(&mut s, "CURSOR_HIDE", bool_str(self.cursor_hide));
        proof {
            lemma_join_step(ps, 21);
        }
        push_setting(&mut s, "HIDE_MOUSE", bool_str(self.hide_mouse));
        proof {
            lemma_join_step(ps, 22);
        }
        push_setting(&mut s, "DISMISS_ON_KEY", bool_str(self.dismiss_on_key));
        proof {
            lemma_join_step(ps, 23);
        }
        push_setting(&mut s, "SESSION_LOCK", bool_str(self.session_lock));
        proof {
            lemma_join_step(ps, 24);
        }
        assert(ps.take(25) == ps);
        s
    }

    /// The built-in default configuration.
    pub fn default_config() -> (r: Self)
        ensures
            r@ == default_settings(),
    {
        let r = ScreensaverConfig {
            enabled: true,
            idle_timeout: 300,
            lock_timeout: 600,
            dpms_timeout: 900,
            frame_rate: 60,
            include_effects: String::new(),
            exclude_effects: string_from("dev_worm"),
            fade_in_effect: String::new(),
            fade_out_effect: String::new(),
            show_clock: false,
            clock_duration: 5,
            clock_format: string_from("%H:%M"),
            clock_font: String::new(),
            logo_file: String::new(),
            disable_on_battery: false,
            battery_idle_timeout: 600,
            terminal: string_from("ghostty"),
            effects_performance: String::new(),
            effects_balanced: String::new(),
            effects_battery: String::new(),
            effects_minimal: String::new(),
            cursor_hide: true,
            hide_mouse: true,
            dismiss_on_key: true,
            session_lock: false,
        };
        assert(r@ == default_settings());
        r
    }
}

} // verus!

verus! {

// ---------------------------------------------------------------------
// Reading back what was written
// ---------------------------------------------------------------------

/// A text setting survives writing and reading: it holds no line break
/// and neither starts nor ends with a double quote (the reader strips
/// surrounding quotes).
pub open spec fn text_roundtrips(v: Seq<char>) -> bool {
    !v.contains('\n') && (v.len() == 0 || (v[0] != '"' && v.last() != '"'))
}

/// Settings whose every text field survives writing and reading.
pub open spec fn serializable(s: ScreensaverSettings) -> bool {
    &&& text_roundtrips(s.include_effects)
    &&& text_roundtrips(s.exclude_effects)
    &&& text_roundtrips(s.fade_in_effect)
    &&& text_roundtrips(s.fade_out_effect)
    &&& text_roundtrips(s.clock_format)
    &&& text_roundtrips(s.clock_font)
    &&& text_roundtrips(s.logo_file)
    &&& text_roundtrips(s.terminal)
    &&& text_roundtrips(s.effects_performance)
    &&& text_roundtrips(s.effects_balanced)
    &&& text_roundtrips(s.effects_battery)
    &&& text_roundtrips(s.effects_minimal)
}

pub open spec fn is_key_char(c: char) -> bool {
    ('A' <= c <= 'Z') || c == '_'
}

pub open spec fn key_chars_from(k: Seq<char>, i: int) -> bool
    decreases k.len() - i,
{
    if i < 0 || i >= k.len() {
        true
    } else {
        is_key_char(k[i]) && key_chars_from(k, i + 1)
    }
}

pub open spec fn valid_key(k: Seq<char>) -> bool {
    k.len() > 0 && key_chars_from(k, 0)
}

proof fn lemma_key_chars(k: Seq<char>, i: int)
    requires
        0 <= i,
        key_chars_from(k, i),
    ensures
        forall|j: int| i <= j < k.len() ==> is_key_char(#[trigger] k[j]),
    decreases k.len() - i,
{
    if i < k.len() {
        lemma_key_chars(k, i + 1);
    }
}

proof fn lemma_quotes_stripped(v: Seq<char>)
    requires
        v.len() == 0 || (v[0] != '"' && v.last() != '"'),
    ensures
        strip(seq!['"'] + v + seq!['"'], Strip::Quote) == v,
{
    let q = seq!['"'] + v + seq!['"'];
    assert(q.drop_first() == v + seq!['"']);
    if v.len() == 0 {
        assert(v + seq!['"'] == seq!['"']);
        assert(seq!['"'].drop_first().len() == 0);
        assert(strip_start(seq!['"'], Strip::Quote) == strip_start(
            seq!['"'].drop_first(),
            Strip::Quote,
        ));
        assert(strip_start(q, Strip::Quote).len() == 0);
        assert(v =~= Seq::<char>::empty());
    } else {
        assert((v + seq!['"'])[0] == v[0]);
        assert(q[0] == '"');
        assert(strip_start(q, Strip::Quote) == strip_start(q.drop_first(), Strip::Quote));
        assert(strip_start(v + seq!['"'], Strip::Quote) == v + seq!['"']);
        assert(strip_start(q, Strip::Quote) == v + seq!['"']);
        assert((v + seq!['"']).drop_last() == v);
        assert(strip_end(v + seq!['"'], Strip::Quote) == strip_end(v, Strip::Quote));
        assert(v.last() == v[v.len() - 1]);
    }
}

proof fn lemma_line_entry(k: Seq<char>, v: Seq<char>)
    requires
        valid_key(k),
        v.len() == 0 || (v[0] != '"' && v.last() != '"'),
    ensures
        line_entry(setting_line(k, v)) == Some((k, v)),
{
    lemma_key_chars(k, 0);
    reveal_strlit("=\"");
    reveal_strlit("\"");
    let line = setting_line(k, v);
    let rest = seq!['"'] + v + seq!['"'];
    assert(line == k + seq!['='] + rest) by {
        assert("=\""@ =~= seq!['=', '"']);
        assert("\""@ =~= seq!['"']);
        assert(line =~= k + seq!['='] + rest);
    }
    assert(line[0] == k[0]);
    assert(is_key_char(k[0]));
    assert(line.last() == '"');
    lemma_strip_keeps(line, Strip::Whitespace);
    assert(trim(line) == line);
    let n = k.len() as int;
    assert(line[n] == '=');
    assert forall|j: int| 0 <= j < n implies line[j] != '=' by {
        assert(line[j] == k[j]);
        assert(is_key_char(k[j]));
    }
    lemma_find_first_some(line, '=', n);
    assert(line.take(n) == k);
    assert(k.last() == k[n - 1]);
    assert(is_key_char(k[n - 1]));
    lemma_strip_keeps(k, Strip::Whitespace);
    assert(line.skip(n + 1) == rest);
    assert(rest[0] == '"');
    assert(rest.last() == '"');
    lemma_strip_keeps(rest, Strip::Whitespace);
    lemma_quotes_stripped(v);
}

pub open spec fn setting_lines(ps: Seq<(Seq<char>, Seq<char>)>) -> Seq<Seq<char>> {
    ps.map_values(|p: (Seq<char>, Seq<char>)| setting_line(p.0, p.1))
}

pub open spec fn pairs_ok(ps: Seq<(Seq<char>, Seq<char>)>) -> bool {
    forall|i: int|
        0 <= i < ps.len() ==> valid_key(#[trigger] ps[i].0) && (ps[i].1.len() == 0 || (
        ps[i].1[0] != '"' && ps[i].1.last() != '"')) && !ps[i].1.contains('\n')
}

proof fn lemma_setting_line_shape(k: Seq<char>, v: Seq<char>)
    requires
        valid_key(k),
        !v.contains('\n'),
    ensures
        !setting_line(k, v).contains('\n'),
        setting_line(k, v).last() == '"',
{
    lemma_key_chars(k, 0);
    reveal_strlit("=\"");
    reveal_strlit("\"");
    let line = setting_line(k, v);
    assert("=\""@ =~= seq!['=', '"']);
    assert("\""@ =~= seq!['"']);
    assert(line =~= k + seq!['=', '"'] + v + seq!['"']);
    if line.contains('\n') {
        let j = choose|j: int| 0 <= j < line.len() && line[j] == '\n';
        if j < k.len() {
            assert(line[j] == k[j]);
            assert(is_key_char(k[j]));
        } else if j < k.len() + 2 {
        } else if j < k.len() + 2 + v.len() {
            assert(line[j] == v[j - k.len() - 2]);
        } else {
        }
    }
}

proof fn lemma_lines_join(ps: Seq<(Seq<char>, Seq<char>)>)
    requires
        pairs_ok(ps),
    ensures
        lines_acc(join_settings(ps)) == (setting_lines(ps), Seq::<char>::empty()),
    decreases ps.len(),
{
    reveal_strlit("\n");
    if ps.len() == 0 {
        assert(setting_lines(ps) =~= Seq::<Seq<char>>::empty());
    } else {
        let prev = ps.drop_last();
        assert(pairs_ok(prev)) by {
            assert forall|i: int| 0 <= i < prev.len() implies valid_key(#[trigger] prev[i].0) && (
            prev[i].1.len() == 0 || (prev[i].1[0] != '"' && prev[i].1.last() != '"'))
                && !prev[i].1.contains('\n') by {
                assert(prev[i] == ps[i]);
            }
        }
        lemma_lines_join(prev);
        let p = ps.last();
        assert(p == ps[ps.len() - 1]);
        let line = setting_line(p.0, p.1);
        lemma_setting_line_shape(p.0, p.1);
        assert("\n"@ =~= seq!['\n']);
        assert(line + "\n"@ == line.push('\n'));
        lemma_lines_acc_line(line);
        lemma_lines_acc_append(join_settings(prev), line.push('\n'));
        assert(join_settings(ps) == join_settings(prev) + line.push('\n'));
        assert(setting_lines(ps) =~= setting_lines(prev) + seq![line]);
    }
}

proof fn lemma_entries_of_lines(ps: Seq<(Seq<char>, Seq<char>)>)
    requires
        pairs_ok(ps),
    ensures
        entries_of(setting_lines(ps)) == ps,
    decreases ps.len(),
{
    if ps.len() > 0 {
        let prev = ps.drop_last();
        assert(pairs_ok(prev)) by {
            assert forall|i: int| 0 <= i < prev.len() implies valid_key(#[trigger] prev[i].0) && (
            prev[i].1.len() == 0 || (prev[i].1[0] != '"' && prev[i].1.last() != '"'))
                && !prev[i].1.contains('\n') by {
                assert(prev[i] == ps[i]);
            }
        }
        lemma_entries_of_lines(prev);
        assert(setting_lines(ps).drop_last() =~= setting_lines(prev));
        let p = ps.last();
        assert(p == ps[ps.len() - 1]);
        lemma_line_entry(p.0, p.1);
        assert(setting_lines(ps).last() == setting_line(p.0, p.1));
        assert(prev.push(p) == ps);
    }
}

proof fn lemma_lookup_last(ps: Seq<(Seq<char>, Seq<char>)>, i: int)
    requires
        0 <= i < ps.len(),
        forall|j: int| i < j < ps.len() ==> ps[j].0 != ps[i].0,
    ensures
        lookup(ps, ps[i].0) == Some(ps[i].1),
    decreases ps.len(),
{
    if i < ps.len() - 1 {
        let prev = ps.drop_last();
        assert(ps.last() == ps[ps.len() - 1]);
        assert(prev[i] == ps[i]);
        assert forall|j: int| i < j < prev.len() implies prev[j].0 != prev[i].0 by {
            assert(prev[j] == ps[j]);
        }
        lemma_lookup_last(prev, i);
    } else {
        assert(ps.last() == ps[i]);
    }
}

proof fn lemma_keys_valid()
    ensures
        valid_key("ENABLED"@),
        valid_key("IDLE_TIMEOUT"@),
        valid_key("LOCK_TIMEOUT"@),
        valid_key("DPMS_TIMEOUT"@),
        valid_key("FRAME_RATE"@),
        valid_key("INCLUDE_EFFECTS"@),
        valid_key("EXCLUDE_EFFECTS"@),
        valid_key("FADE_IN_EFFECT"@),
        valid_key("FADE_OUT_EFFECT"@),
        valid_key("SHOW_CLOCK"@),
        valid_key("CLOCK_DURATION"@),
        valid_key("CLOCK_FORMAT"@),
        valid_key("CLOCK_FONT"@),
        valid_key("LOGO_FILE"@),
        valid_key("DISABLE_ON_BATTERY"@),
        valid_key("BATTERY_IDLE_TIMEOUT"@),
        valid_key("TERMINAL"@),
        valid_key("EFFECTS_PERFORMANCE"@),
        valid_key("EFFECTS_BALANCED"@),
        valid_key("EFFECTS_BATTERY"@),
        valid_key("EFFECTS_MINIMAL"@),
        valid_key("CURSOR_HIDE"@),
        valid_key("HIDE_MOUSE"@),
        valid_key("DISMISS_ON_KEY"@),
        valid_key("SESSION_LOCK"@),
{
    reveal_with_fuel(key_chars_from, 21);
    reveal_strlit("ENABLED");
    reveal_strlit("IDLE_TIMEOUT");
    reveal_strlit("LOCK_TIMEOUT");
    reveal_strlit("DPMS_TIMEOUT");
    reveal_strlit("FRAME_RATE");
    reveal_strlit("INCLUDE_EFFECTS");
    reveal_strlit("EXCLUDE_EFFECTS");
    reveal_strlit("FADE_IN_EFFECT");
    reveal_strlit("FADE_OUT_EFFECT");
    reveal_strlit("SHOW_CLOCK");
    reveal_strlit("CLOCK_DURATION");
    reveal_strlit("CLOCK_FORMAT");
    reveal_strlit("CLOCK_FONT");
    reveal_strlit("LOGO_FILE");
    reveal_strlit("DISABLE_ON_BATTERY");
    reveal_strlit("BATTERY_IDLE_TIMEOUT");
    reveal_strlit("TERMINAL");
    reveal_strlit("EFFECTS_PERFORMANCE");
    reveal_strlit("EFFECTS_BALANCED");
    reveal_strlit("EFFECTS_BATTERY");
    reveal_strlit("EFFECTS_MINIMAL");
    reveal_strlit("CURSOR_HIDE");
    reveal_strlit("HIDE_MOUSE");
    reveal_strlit("DISMISS_ON_KEY");
    reveal_strlit("SESSION_LOCK");
}

} // verus!

verus! {

pub open spec fn setting_keys() -> Seq<Seq<char>> {
    seq![
        "ENABLED"@,
        "IDLE_TIMEOUT"@,
        "LOCK_TIMEOUT"@,
        "DPMS_TIMEOUT"@,
        "FRAME_RATE"@,
        "INCLUDE_EFFECTS"@,
        "EXCLUDE_EFFECTS"@,
        "FADE_IN_EFFECT"@,
        "FADE_OUT_EFFECT"@,
        "SHOW_CLOCK"@,
        "CLOCK_DURATION"@,
        "CLOCK_FORMAT"@,
        "CLOCK_FONT"@,
        "LOGO_FILE"@,
        "DISABLE_ON_BATTERY"@,
        "BATTERY_IDLE_TIMEOUT"@,
        "TERMINAL"@,
        "EFFECTS_PERFORMANCE"@,
        "EFFECTS_BALANCED"@,
        "EFFECTS_BATTERY"@,
        "EFFECTS_MINIMAL"@,
        "CURSOR_HIDE"@,
        "HIDE_MOUSE"@,
        "DISMISS_ON_KEY"@,
        "SESSION_LOCK"@,
    ]
}

proof fn lemma_keys_distinct()
    ensures
        forall|i: int, j: int| 0 <= i < j < 25 ==> setting_keys()[i] != setting_keys()[j],
{
    reveal_strlit("ENABLED");
    reveal_strlit("IDLE_TIMEOUT");
    reveal_strlit("LOCK_TIMEOUT");
    reveal_strlit("DPMS_TIMEOUT");
    reveal_strlit("FRAME_RATE");
    reveal_strlit("INCLUDE_EFFECTS");
    reveal_strlit("EXCLUDE_EFFECTS");
    reveal_strlit("FADE_IN_EFFECT");
    reveal_strlit("FADE_OUT_EFFECT");
    reveal_strlit("SHOW_CLOCK");
    reveal_strlit("CLOCK_DURATION");
    reveal_strlit("CLOCK_FORMAT");
    reveal_strlit("CLOCK_FONT");
    reveal_strlit("LOGO_FILE");
    reveal_strlit("DISABLE_ON_BATTERY");
    reveal_strlit("BATTERY_IDLE_TIMEOUT");
    reveal_strlit("TERMINAL");
    reveal_strlit("EFFECTS_PERFORMANCE");
    reveal_strlit("EFFECTS_BALANCED");
    reveal_strlit("EFFECTS_BATTERY");
    reveal_strlit("EFFECTS_MINIMAL");
    reveal_strlit("CURSOR_HIDE");
    reveal_strlit("HIDE_MOUSE");
    reveal_strlit("DISMISS_ON_KEY");
    reveal_strlit("SESSION_LOCK");
    let k = setting_keys();
    assert forall|i: int, j: int| 0 <= i < j < 25 implies k[i] != k[j] by {
        if k[i] == k[j] {
            assert(k[i].len() == k[j].len());
            assert(k[i][0] == k[j][0]);
            assert(k[i][1] == k[j][1]);
            if k[i].len() > 8 {
                assert(k[i][8] == k[j][8]);
            }
        }
    }
}

proof fn lemma_bool_text(b: bool)
    ensures
        !bool_text(b).contains('\n'),
        bool_text(b)[0] != '"',
        bool_text(b).last() != '"',
        bool_text(b).len() > 0,
        (eq_ignore_ascii_case(bool_text(b), "true"@) || bool_text(b) == "1"@) == b,
{
    reveal_strlit("true");
    reveal_strlit("false");
    reveal_strlit("1");
    assert("true"@ =~= seq!['t', 'r', 'u', 'e']);
    assert("false"@ =~= seq!['f', 'a', 'l', 's', 'e']);
    assert("1"@ =~= seq!['1']);
}

/// Writing settings and reading the text back gives the same settings,
/// for every settings value whose texts survive (no line break, no
/// surrounding double quote).
pub proof fn lemma_parse_serialize(s: ScreensaverSettings)
    requires
        serializable(s),
    ensures
        parse_settings(serialize_settings(s)) == s,
{
    let ps = settings_pairs(s);
    lemma_keys_valid();
    lemma_keys_distinct();
    lemma_bool_text(s.enabled);
    lemma_bool_text(s.show_clock);
    lemma_bool_text(s.disable_on_battery);
    lemma_bool_text(s.cursor_hide);
    lemma_bool_text(s.hide_mouse);
    lemma_bool_text(s.dismiss_on_key);
    lemma_bool_text(s.session_lock);
    lemma_dec(s.idle_timeout as nat);
    lemma_dec(s.lock_timeout as nat);
    lemma_dec(s.dpms_timeout as nat);
    lemma_dec(s.frame_rate as nat);
    lemma_dec(s.clock_duration as nat);
    lemma_dec(s.battery_idle_timeout as nat);
    lemma_parse_dec(s.idle_timeout);
    lemma_parse_dec(s.lock_timeout);
    lemma_parse_dec(s.dpms_timeout);
    lemma_parse_dec(s.frame_rate);
    lemma_parse_dec(s.clock_duration);
    lemma_parse_dec(s.battery_idle_timeout);
    assert forall|i: int| 0 <= i < 25 implies #[trigger] ps[i].0 == setting_keys()[i] by {}
    assert(pairs_ok(ps));
    lemma_lines_join(ps);
    assert(lines_of(serialize_settings(s)) == setting_lines(ps));
    lemma_entries_of_lines(ps);
    assert forall|i: int| 0 <= i < 25 implies lookup(ps, #[trigger] setting_keys()[i]) == Some(
        ps[i].1,
    ) by {
        assert forall|j: int| i < j < ps.len() implies ps[j].0 != ps[i].0 by {
            assert(setting_keys()[i] != setting_keys()[j]);
        }
        lemma_lookup_last(ps, i);
    }
    let r = parse_settings(serialize_settings(s));
    assert(r == settings_from(ps));
    assert(lookup(ps, setting_keys()[0]) == Some(bool_text(s.enabled)));
    assert(r == s);
}

} // verus!

verus! {

/// Lock command used in the swayidle configuration.
pub open spec fn lock_command() -> Seq<char> {
    "loginctl lock-session"@
}

/// The swayidle configuration for these settings, with `launcher` the
/// path of the fullscreen launcher script: the idle timeout starts the
/// screensaver; a lock timeout, when set, locks `idle + lock` seconds after
/// the last activity; a screen-off timeout, when set, turns the outputs off;
/// the session always locks before sleep.
pub open spec fn swayidle_text(s: ScreensaverSettings, launcher: Seq<char>) -> Seq<char> {
    "# Swayidle configuration for COSMIC Screensaver\n# Generated by COSMIC ORDER\n# Reload: systemctl --user restart cosmic-screensaver-idle.service\n\n"@
        + "timeout "@ + dec(s.idle_timeout as nat) + " '"@ + launcher + " launch' resume '"@
        + launcher + " kill'\n"@ + (if s.lock_timeout > 0 {
        "timeout "@ + dec((s.idle_timeout + s.lock_timeout) as nat) + " '"@ + lock_command()
            + "'\n"@
    } else {
        Seq::empty()
    }) + (if s.dpms_timeout > 0 {
        "timeout "@ + dec(s.dpms_timeout as nat)
            + " 'cosmic-randr output \"*\" --off' resume 'cosmic-randr output \"*\" --on'\n"@
    } else {
        Seq::empty()
    }) + "before-sleep '"@ + lock_command() + "'\n"@
}

/// The display name of a logo file: its file stem split at `-` and `_`,
/// each word capitalized, joined by spaces; `Custom` when the path has no
/// file name.
pub open spec fn logo_display_name(path: Seq<char>) -> Seq<char> {
    match file_name(path) {
        Some(n) => title_case(stem_of(n), WordSeparators::DashOrUnderscore),
        None => "Custom"@,
    }
}

/// [`logo_display_name`] of an ASCII path, upper-casing in ASCII.
pub open spec fn logo_display_name_ascii(path: Seq<char>) -> Seq<char> {
    match file_name(path) {
        Some(n) => title_case_ascii(stem_of(n), WordSeparators::DashOrUnderscore),
        None => "Custom"@,
    }
}

impl ScreensaverConfig {
    /// Get the config file path.
    pub fn config_path(d: &UserDirs) -> (r: String)
        ensures
            r@ == join_path(screensaver_dir_of(*d), "config"@),
    {
        paths::screensaver_config(d)
    }

    /// Path to the power state env file (sourced by screensaver-ctl).
    pub fn power_env_path(d: &UserDirs) -> (r: String)
        ensures
            r@ == join_path(screensaver_dir_of(*d), "power-state.env"@),
    {
        paths::screensaver_power_env(d)
    }

    /// Path to the swayidle configuration file.
    pub fn swayidle_config_path(d: &UserDirs) -> (r: String)
        ensures
            r@ == join_path(screensaver_dir_of(*d), "swayidle.conf"@),
    {
        paths::screensaver_swayidle_config(d)
    }

    /// Path to the screensaver-ctl script.
    pub fn ctl_path(d: &UserDirs) -> (r: String)
        ensures
            r@ == join_path(d.home@, ".local/bin/screensaver-ctl"@),
    {
        paths::screensaver_ctl(d)
    }

    /// Generate the swayidle config content; `launcher` is the path of the
    /// fullscreen launcher script.
    pub fn generate_swayidle_config_content(&self, launcher: &str) -> (r: String)
        requires
            self.lock_timeout > 0 ==> self.idle_timeout + self.lock_timeout <= u32::MAX,
        ensures
            r@ == swayidle_text(self@, launcher@),
    {
        let mut s = string_from(
            "# Swayidle configuration for COSMIC Screensaver\n# Generated by COSMIC ORDER\n# Reload: systemctl --user restart cosmic-screensaver-idle.service\n\n",
        );
        push_str(&mut s, "timeout ");
        push_u32(&mut s, self.idle_timeout);
        push_str(&mut s, " '");
        push_str(&mut s, launcher);
        push_str(&mut s, " launch' resume '");
        push_str(&mut s, launcher);
        push_str(&mut s, " kill'\n");
        let ghost head = s@;
        if self.lock_timeout > 0 {
            push_str(&mut s, "timeout ");
            push_u32(&mut s, self.idle_timeout + self.lock_timeout);
            push_str(&mut s, " '");
            push_str(&mut s, "loginctl lock-session");
            push_str(&mut s, "'\n");
        }
        let ghost mid = s@;
        if self.dpms_timeout > 0 {
            push_str(&mut s, "timeout ");
            push_u32(&mut s, self.dpms_timeout);
            push_str(
                &mut s,
                " 'cosmic-randr output \"*\" --off' resume 'cosmic-randr output \"*\" --on'\n",
            );
        }
        push_str(&mut s, "before-sleep '");
        push_str(&mut s, "loginctl lock-session");
        push_str(&mut s, "'\n");
        assert(s@ =~= swayidle_text(self@, launcher@));
        s
    }

    /// Derive a display name from a logo file path (stem with separators →
    /// title case).
    pub fn display_name_from_path(path: &str) -> (r: String)
        ensures
            r@ == logo_display_name(path@),
            is_ascii(path@) ==> r@ == logo_display_name_ascii(path@),
    {
        let c = chars_of(path);
        match file_name_range(c.as_slice()) {
            Some((lo, hi)) => {
                let e = stem_end(c.as_slice(), lo, hi);
                assert(is_ascii(c@) ==> is_ascii(c@.subrange(lo as int, e as int))) by {
                    if is_ascii(c@) {
                        assert forall|i: int| 0 <= i < e - lo implies (#[trigger] c@.subrange(
                            lo as int,
                            e as int,
                        )[i] as u32) < 128 by {
                            assert(c@.subrange(lo as int, e as int)[i] == c@[lo + i]);
                        }
                    }
                }
                title_case_range(c.as_slice(), lo, e, WordSeparators::DashOrUnderscore)
            },
            None => string_from("Custom"),
        }
    }
}

/// `piece` stands in `text` as a contiguous part.
pub open spec fn holds_part(text: Seq<char>, piece: Seq<char>) -> bool {
    exists|i: int| 0 <= i && i + piece.len() <= text.len() && #[trigger] text.subrange(i, i + piece.len()) == piece
}

proof fn lemma_part_of_concat(a: Seq<char>, b: Seq<char>, c: Seq<char>)
    requires
        a.len() > 0,
        a.last() == '\n',
    ensures
        holds_part(a + b + c, seq!['\n'] + b),
{
    let t = a + b + c;
    let i = a.len() - 1;
    let piece = seq!['\n'] + b;
    assert(t.subrange(i, i + piece.len()) =~= piece);
}

/// What the swayidle configuration holds, line by line: the screensaver
/// starts after the idle time and stops on activity; whenever a lock time is
/// set (whatever the screen-off time) the session locks `idle + lock`
/// seconds after the last activity; whenever a screen-off time is set the
/// outputs go off then and back on at activity; and the text ends by
/// locking the session before sleep.
pub proof fn lemma_swayidle_lines(s: ScreensaverSettings, launcher: Seq<char>)
    ensures
        holds_part(
            swayidle_text(s, launcher),
            "\ntimeout "@ + dec(s.idle_timeout as nat) + " '"@ + launcher + " launch' resume '"@
                + launcher + " kill'\n"@,
        ),
        s.lock_timeout > 0 ==> holds_part(
            swayidle_text(s, launcher),
            "\ntimeout "@ + dec((s.idle_timeout + s.lock_timeout) as nat)
                + " 'loginctl lock-session'\n"@,
        ),
        s.dpms_timeout > 0 ==> holds_part(
            swayidle_text(s, launcher),
            "\ntimeout "@ + dec(s.dpms_timeout as nat)
                + " 'cosmic-randr output \"*\" --off' resume 'cosmic-randr output \"*\" --on'\n"@,
        ),
        ({
            let t = swayidle_text(s, launcher);
            let tail = "\nbefore-sleep 'loginctl lock-session'\n"@;
            t.len() >= tail.len() && t.subrange(t.len() - tail.len(), t.len() as int) == tail
        }),
{
    let h = "# Swayidle configuration for COSMIC Screensaver\n# Generated by COSMIC ORDER\n# Reload: systemctl --user restart cosmic-screensaver-idle.service\n\n"@;
    let a_body = "timeout "@ + dec(s.idle_timeout as nat) + " '"@ + launcher + " launch' resume '"@
        + launcher + " kill'\n"@;
    let lk_body = "timeout "@ + dec((s.idle_timeout + s.lock_timeout) as nat) + " 'loginctl lock-session'\n"@;
    let lk = if s.lock_timeout > 0 { lk_body } else { Seq::<char>::empty() };
    let d_body = "timeout "@ + dec(s.dpms_timeout as nat)
        + " 'cosmic-randr output \"*\" --off' resume 'cosmic-randr output \"*\" --on'\n"@;
    let d = if s.dpms_timeout > 0 { d_body } else { Seq::<char>::empty() };
    let b_body = "before-sleep 'loginctl lock-session'\n"@;
    let t = swayidle_text(s, launcher);
    reveal_strlit("loginctl lock-session");
    reveal_strlit("before-sleep '");
    reveal_strlit("'\n");
    reveal_strlit("before-sleep 'loginctl lock-session'\n");
    reveal_strlit("\nbefore-sleep 'loginctl lock-session'\n");
    reveal_strlit(" '");
    reveal_strlit(" 'loginctl lock-session'\n");
    reveal_strlit("timeout ");
    reveal_strlit("\ntimeout ");
    reveal_strlit(" kill'\n");
    reveal_strlit("# Swayidle configuration for COSMIC Screensaver\n# Generated by COSMIC ORDER\n# Reload: systemctl --user restart cosmic-screensaver-idle.service\n\n");
    assert(" '"@ + lock_command() + "'\n"@ =~= " 'loginctl lock-session'\n"@);
    assert("before-sleep '"@ + lock_command() + "'\n"@ =~= b_body);
    assert(t =~= h + a_body + lk + d + b_body);
    assert(h.last() == '\n');
    lemma_part_of_concat(h, a_body, lk + d + b_body);
    assert(h + a_body + (lk + d + b_body) =~= t);
    assert(seq!['\n'] + a_body =~= "\ntimeout "@ + dec(s.idle_timeout as nat) + " '"@ + launcher
        + " launch' resume '"@ + launcher + " kill'\n"@);
    let ha = h + a_body;
    assert(ha.last() == '\n');
    if s.lock_timeout > 0 {
        lemma_part_of_concat(ha, lk_body, d + b_body);
        assert(ha + lk_body + (d + b_body) =~= t);
        assert(seq!['\n'] + lk_body =~= "\ntimeout "@ + dec((s.idle_timeout + s.lock_timeout) as nat)
            + " 'loginctl lock-session'\n"@);
    }
    let hal = ha + lk;
    assert(hal.last() == '\n');
    if s.dpms_timeout > 0 {
        lemma_part_of_concat(hal, d_body, b_body);
        assert(hal + d_body + b_body =~= t);
        reveal_strlit(" 'cosmic-randr output \"*\" --off' resume 'cosmic-randr output \"*\" --on'\n");
        assert(seq!['\n'] + d_body =~= "\ntimeout "@ + dec(s.dpms_timeout as nat)
            + " 'cosmic-randr output \"*\" --off' resume 'cosmic-randr output \"*\" --on'\n"@);
    }
    let pre = hal + d;
    assert(pre.last() == '\n') by {
        if s.dpms_timeout > 0 {
            reveal_strlit(" 'cosmic-randr output \"*\" --off' resume 'cosmic-randr output \"*\" --on'\n");
        }
    }
    let tail = "\nbefore-sleep 'loginctl lock-session'\n"@;
    assert(t =~= pre + b_body);
    assert(t.subrange(t.len() - tail.len(), t.len() as int) =~= tail);
}

} // verus!
