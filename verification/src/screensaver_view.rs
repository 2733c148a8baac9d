//! What the screensaver page shows: which dropdown entry is selected for
//! the current settings, the timeout sliders, the effect presets and the
//! power status lines.
use vstd::prelude::*;
use crate::screensaver_page::{
    frame_rate_choice, fade_choice, clock_duration_choice, clock_format_choice, terminal_choice,
    battery_timeout_choice,
};
use crate::power::{PowerState, PowerProfile};
use crate::text::{chars_of, range_eq, string_from, u32_to_string, dec, LocalizedText, localized, localized_with};

verus! {

/// The entry of a dropdown showing `v`: the first index whose choice is
/// `v`, if any.
pub open spec fn first_index_of<T>(choice: spec_fn(usize) -> Option<T>, n: usize, v: T, i: usize) -> bool {
    i < n && choice(i) == Some(v) && forall|j: usize| j < i ==> #[trigger] choice(j) != Some(v)
}

fn text_is(a: &str, b: &str) -> (r: bool)
    ensures
        r == (a@ == b@),
{
    let c = chars_of(a);
    let d = chars_of(b);
    assert(c@.subrange(0, c@.len() as int) == c@);
    range_eq(c.as_slice(), 0, c.len(), d.as_slice())
}

/// The selected entry of the frame-rate dropdown.
pub fn frame_rate_selected(rate: u32) -> (r: Option<usize>)
    ensures
        match r {
            Some(i) => first_index_of(|j: usize| frame_rate_choice(j), 3, rate, i),
            None => forall|j: usize| j < 3 ==> frame_rate_choice(j) != Some(rate),
        },
{
    if rate == 30 {
        Some(0)
    } else if rate == 60 {
        Some(1)
    } else if rate == 120 {
        Some(2)
    } else {
        None
    }
}

/// The selected entry of a fade dropdown.
pub fn fade_selected(effect: &str) -> (r: Option<usize>)
    ensures
        match r {
            Some(i) => first_index_of(|j: usize| fade_choice(j), 4, effect@, i),
            None => forall|j: usize| j < 4 ==> fade_choice(j) != Some(effect@),
        },
{
    if text_is(effect, "") {
        Some(0)
    } else if text_is(effect, "fade") {
        Some(1)
    } else if text_is(effect, "slide") {
        Some(2)
    } else if text_is(effect, "matrix") {
        Some(3)
    } else {
        None
    }
}

/// The selected entry of the clock-duration dropdown.
pub fn clock_duration_selected(seconds: u32) -> (r: Option<usize>)
    ensures
        match r {
            Some(i) => first_index_of(|j: usize| clock_duration_choice(j), 4, seconds, i),
            None => forall|j: usize| j < 4 ==> clock_duration_choice(j) != Some(seconds),
        },
{
    if seconds == 3 {
        Some(0)
    } else if seconds == 5 {
        Some(1)
    } else if seconds == 10 {
        Some(2)
    } else if seconds == 15 {
        Some(3)
    } else {
        None
    }
}

/// The selected entry of the clock-format dropdown.
pub fn clock_format_selected(format: &str) -> (r: Option<usize>)
    ensures
        match r {
            Some(i) => first_index_of(|j: usize| clock_format_choice(j), 4, format@, i),
            None => forall|j: usize| j < 4 ==> clock_format_choice(j) != Some(format@),
        },
{
    if text_is(format, "%H:%M") {
        Some(0)
    } else if text_is(format, "%H:%M:%S") {
        Some(1)
    } else if text_is(format, "%I:%M %p") {
        Some(2)
    } else if text_is(format, "%I:%M:%S %p") {
        Some(3)
    } else {
        None
    }
}

/// The selected entry of the terminal dropdown.
pub fn terminal_selected(terminal: &str) -> (r: Option<usize>)
    ensures
        match r {
            Some(i) => first_index_of(|j: usize| terminal_choice(j), 3, terminal@, i),
            None => forall|j: usize| j < 3 ==> terminal_choice(j) != Some(terminal@),
        },
{
    if text_is(terminal, "alacritty") {
        Some(0)
    } else if text_is(terminal, "ghostty") {
        Some(1)
    } else if text_is(terminal, "cosmic-term") {
        Some(2)
    } else {
        None
    }
}

/// The selected entry of the battery idle-timeout dropdown.
pub fn battery_timeout_selected(seconds: u32) -> (r: Option<usize>)
    ensures
        match r {
            Some(i) => first_index_of(|j: usize| battery_timeout_choice(j), 4, seconds, i),
            None => forall|j: usize| j < 4 ==> battery_timeout_choice(j) != Some(seconds),
        },
{
    if seconds == 300 {
        Some(0)
    } else if seconds == 600 {
        Some(1)
    } else if seconds == 900 {
        Some(2)
    } else if seconds == 1800 {
        Some(3)
    } else {
        None
    }
}

/// Effect lists offered for exclusion: none, the default, the heavy ones.
pub open spec fn exclude_preset(i: usize) -> Option<Seq<char>> {
    if i == 0 {
        Some(""@)
    } else if i == 1 {
        Some("dev_worm"@)
    } else if i == 2 {
        Some("blackhole,burn,fireworks,orbittingvolley,overflow"@)
    } else {
        None
    }
}

/// Effect lists offered for inclusion: all (but the excluded), the simple
/// ones, the colorful ones.
pub open spec fn include_preset(i: usize) -> Option<Seq<char>> {
    if i == 0 {
        Some(""@)
    } else if i == 1 {
        Some("beams,colorshift,decrypt,expand,middleout,pour,print,slide,waves,wipe"@)
    } else if i == 2 {
        Some("beams,binarypath,colorshift,fireworks,rain,rings,synthgrid"@)
    } else {
        None
    }
}

/// The effect list of an exclusion preset (empty for an unknown entry).
pub fn exclude_preset_value(i: usize) -> (s: String)
    ensures
        s@ == match exclude_preset(i) {
            Some(v) => v,
            None => Seq::<char>::empty(),
        },
{
    proof {
        reveal_strlit("");
    }
    if i == 0 {
        string_from("")
    } else if i == 1 {
        string_from("dev_worm")
    } else if i == 2 {
        string_from("blackhole,burn,fireworks,orbittingvolley,overflow")
    } else {
        String::new()
    }
}

/// The effect list of an inclusion preset (empty for an unknown entry).
pub fn include_preset_value(i: usize) -> (s: String)
    ensures
        s@ == match include_preset(i) {
            Some(v) => v,
            None => Seq::<char>::empty(),
        },
{
    proof {
        reveal_strlit("");
    }
    if i == 0 {
        string_from("")
    } else if i == 1 {
        string_from("beams,colorshift,decrypt,expand,middleout,pour,print,slide,waves,wipe")
    } else if i == 2 {
        string_from("beams,binarypath,colorshift,fireworks,rain,rings,synthgrid")
    } else {
        String::new()
    }
}

/// The selected exclusion preset.
pub fn exclude_preset_selected(effects: &str) -> (r: Option<usize>)
    ensures
        match r {
            Some(i) => first_index_of(|j: usize| exclude_preset(j), 3, effects@, i),
            None => forall|j: usize| j < 3 ==> exclude_preset(j) != Some(effects@),
        },
{
    if text_is(effects, "") {
        Some(0)
    } else if text_is(effects, "dev_worm") {
        Some(1)
    } else if text_is(effects, "blackhole,burn,fireworks,orbittingvolley,overflow") {
        Some(2)
    } else {
        None
    }
}

/// The selected inclusion preset.
pub fn include_preset_selected(effects: &str) -> (r: Option<usize>)
    ensures
        match r {
            Some(i) => first_index_of(|j: usize| include_preset(j), 3, effects@, i),
            None => forall|j: usize| j < 3 ==> include_preset(j) != Some(effects@),
        },
{
    if text_is(effects, "") {
        Some(0)
    } else if text_is(effects, "beams,colorshift,decrypt,expand,middleout,pour,print,slide,waves,wipe") {
        Some(1)
    } else if text_is(effects, "beams,binarypath,colorshift,fireworks,rain,rings,synthgrid") {
        Some(2)
    } else {
        None
    }
}

/// The minutes of each position of a timeout slider.
pub open spec fn tick(i: int) -> int {
    if i == 0 {
        0
    } else if i == 1 {
        5
    } else if i == 2 {
        10
    } else if i == 3 {
        15
    } else if i == 4 {
        30
    } else if i == 5 {
        45
    } else {
        60
    }
}

pub open spec fn distance(a: int, b: int) -> int {
    if a >= b {
        a - b
    } else {
        b - a
    }
}

fn tick_exec(i: u32) -> (m: u32)
    requires
        i < 7,
    ensures
        m == tick(i as int),
{
    if i == 0 {
        0
    } else if i == 1 {
        5
    } else if i == 2 {
        10
    } else if i == 3 {
        15
    } else if i == 4 {
        30
    } else if i == 5 {
        45
    } else {
        60
    }
}

/// The slider position showing a timeout: the tick nearest to its whole
/// minutes, the first one on a tie.
pub fn nearest_tick(seconds: u32) -> (i: u32)
    ensures
        i < 7,
        forall|j: int| 0 <= j < 7 ==> distance(tick(i as int), (seconds / 60) as int) <= distance(
            tick(j),
            (seconds / 60) as int,
        ),
        forall|j: int| 0 <= j < i ==> distance(tick(j), (seconds / 60) as int) > distance(
            tick(i as int),
            (seconds / 60) as int,
        ),
{
    let m = seconds / 60;
    let mut best: u32 = 0;
    let mut best_d: u32 = m;
    let mut k: u32 = 1;
    while k < 7
        invariant
            1 <= k <= 7,
            best < k,
            m == seconds / 60,
            best_d == distance(tick(best as int), m as int),
            forall|j: int| 0 <= j < k ==> distance(tick(best as int), m as int) <= distance(tick(j), m as int),
            forall|j: int| 0 <= j < best ==> distance(tick(j), m as int) > distance(tick(best as int), m as int),
        decreases 7 - k,
    {
        let t = tick_exec(k);
        let d = if t >= m {
            t - m
        } else {
            m - t
        };
        if d < best_d {
            best = k;
            best_d = d;
        }
        k = k + 1;
    }
    best
}

/// The timeout a slider position sets, in seconds.
pub fn tick_seconds(i: u32) -> (s: u32)
    ensures
        s == (if i < 7 {
            tick(i as int) * 60
        } else {
            0
        }),
{
    if i < 7 {
        tick_exec(i) * 60
    } else {
        0
    }
}

/// The label beside a timeout slider: off, whole hours from an hour on,
/// else minutes.
pub fn timeout_label(seconds: u32) -> (t: LocalizedText)
    ensures
        ({
            let m = seconds / 60;
            if m == 0 {
                t.id@ == "screensaver-timeout-disabled"@ && t.args@.len() == 0
            } else if m >= 60 {
                t.id@ == "timeout-hours"@ && t.args@.len() == 1 && t.args@[0].0@ == "hours"@
                    && t.args@[0].1@ == dec((m / 60) as nat)
            } else {
                t.id@ == "timeout-minutes"@ && t.args@.len() == 1 && t.args@[0].0@ == "minutes"@
                    && t.args@[0].1@ == dec(m as nat)
            }
        }),
{
    let m = seconds / 60;
    if m == 0 {
        localized("screensaver-timeout-disabled")
    } else if m >= 60 {
        localized_with("timeout-hours", "hours", u32_to_string(m / 60))
    } else {
        localized_with("timeout-minutes", "minutes", u32_to_string(m))
    }
}

/// The power status line: unknown until the first reading, on AC, or on
/// battery with the charge when known.
pub fn power_status_line(p: Option<PowerState>) -> (t: LocalizedText)
    ensures
        match p {
            None => t.id@ == "screensaver-power-status-unknown"@ && t.args@.len() == 0,
            Some(s) => if !s.on_battery {
                t.id@ == "screensaver-power-status-ac"@ && t.args@.len() == 0
            } else {
                match s.battery_percent {
                    None => t.id@ == "screensaver-power-status-battery-no-pct"@ && t.args@.len() == 0,
                    Some(pct) => t.id@ == "screensaver-power-status-battery"@ && t.args@.len() == 1
                        && t.args@[0].0@ == "pct"@ && t.args@[0].1@ == dec(pct as nat),
                }
            },
        },
{
    match p {
        None => localized("screensaver-power-status-unknown"),
        Some(s) => {
            if !s.on_battery {
                localized("screensaver-power-status-ac")
            } else {
                match s.battery_percent {
                    None => localized("screensaver-power-status-battery-no-pct"),
                    Some(pct) => localized_with("screensaver-power-status-battery", "pct", u32_to_string(pct as u32)),
                }
            }
        },
    }
}

/// The profile line of the power status.
pub fn power_profile_line(s: PowerState) -> (t: LocalizedText)
    ensures
        t.id@ == "screensaver-power-profile"@,
        t.args@.len() == 1,
        t.args@[0].0@ == "profile"@,
        t.args@[0].1@ == match s.power_profile {
            PowerProfile::Performance => "Performance"@,
            PowerProfile::Balanced => "Balanced"@,
            PowerProfile::PowerSaver => "Power Saver"@,
        },
{
    let label = match s.power_profile {
        PowerProfile::Performance => "Performance",
        PowerProfile::Balanced => "Balanced",
        PowerProfile::PowerSaver => "Power Saver",
    };
    localized_with("screensaver-power-profile", "profile", string_from(label))
}

/// Whether the power daemon was found, as a status line.
pub fn power_daemon_line(s: PowerState) -> (t: LocalizedText)
    ensures
        t.id@ == (if s.has_system76_power {
            "screensaver-power-system76-yes"@
        } else {
            "screensaver-power-system76-no"@
        }),
        t.args@.len() == 0,
{
    if s.has_system76_power {
        localized("screensaver-power-system76-yes")
    } else {
        localized("screensaver-power-system76-no")
    }
}

} // verus!
