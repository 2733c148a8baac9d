//! Power state and the screensaver effect profile it selects.
use vstd::prelude::*;
use crate::text::{
    string_from, push_str, push_u32, dec, LocalizedText, localized, localized_with,
    u32_to_string,
};

verus! {

/// System power profile (from system76-power or fallback).
#[derive(Debug, Clone, Copy, PartialEq, Eq, Structural)]
pub enum PowerProfile {
    Performance,
    Balanced,
    PowerSaver,
}

impl Default for PowerProfile {
    fn default() -> (p: Self)
        ensures
            p == PowerProfile::Balanced,
    {
        PowerProfile::Balanced
    }
}

/// Effect complexity profile determined by power state.
#[derive(Debug, Clone, Copy, PartialEq, Eq, Structural)]
pub enum EffectProfile {
    /// All effects enabled, no restrictions
    Full,
    /// Normal effect set
    Standard,
    /// Reduced complexity effects
    Simple,
    /// Only lightweight effects
    Minimal,
    /// Skip screensaver entirely (critical battery)
    Skip,
}

/// Current system power state.
#[derive(Debug, Clone, Copy, PartialEq, Eq, Structural)]
pub struct PowerState {
    /// Whether the system is running on battery
    pub on_battery: bool,
    /// Battery charge percentage (None if no battery present)
    pub battery_percent: Option<u8>,
    /// Current power profile from system76-power
    pub power_profile: PowerProfile,
    /// Whether system76-power daemon is available
    pub has_system76_power: bool,
}

impl Default for PowerState {
    fn default() -> (s: Self)
        ensures
            !s.on_battery,
            s.battery_percent is None,
            s.power_profile == PowerProfile::Balanced,
            !s.has_system76_power,
    {
        PowerState {
            on_battery: false,
            battery_percent: None,
            power_profile: PowerProfile::Balanced,
            has_system76_power: false,
        }
    }
}

/// The effect profile for a power state: on battery the charge decides
/// (below 10% skip, below 20% minimal, below 50% simple, else standard);
/// on AC the Performance profile gets full effects, anything else standard.
pub open spec fn effect_profile_of(s: PowerState) -> EffectProfile {
    if s.on_battery {
        match s.battery_percent {
            Some(p) => if p < 10 {
                EffectProfile::Skip
            } else if p < 20 {
                EffectProfile::Minimal
            } else if p < 50 {
                EffectProfile::Simple
            } else {
                EffectProfile::Standard
            },
            None => EffectProfile::Standard,
        }
    } else if s.power_profile == PowerProfile::Performance {
        EffectProfile::Full
    } else {
        EffectProfile::Standard
    }
}

pub open spec fn effect_name(e: EffectProfile) -> Seq<char> {
    match e {
        EffectProfile::Full => "full"@,
        EffectProfile::Standard => "standard"@,
        EffectProfile::Simple => "simple"@,
        EffectProfile::Minimal => "minimal"@,
        EffectProfile::Skip => "skip"@,
    }
}

pub open spec fn profile_name(p: PowerProfile) -> Seq<char> {
    match p {
        PowerProfile::Performance => "performance"@,
        PowerProfile::Balanced => "balanced"@,
        PowerProfile::PowerSaver => "power-saver"@,
    }
}

/// The `KEY="value"` lines that screensaver-ctl sources.
pub open spec fn env_format(s: PowerState) -> Seq<char> {
    "ON_BATTERY=\""@ + (if s.on_battery { "true"@ } else { "false"@ }) + "\"\n"@
        + "BATTERY_PERCENT=\""@ + (match s.battery_percent {
        Some(p) => crate::text::dec(p as nat),
        None => Seq::empty(),
    }) + "\"\n"@ + "POWER_PROFILE=\""@ + profile_name(s.power_profile) + "\"\n"@
        + "EFFECT_PROFILE=\""@ + effect_name(effect_profile_of(s)) + "\"\n"@
}

impl EffectProfile {
    /// The profile's configuration name (`full`, `standard`, `simple`,
    /// `minimal`, `skip`).
    pub fn as_str(self) -> (s: &'static str)
        ensures
            s@ == effect_name(self),
    {
        match self {
            EffectProfile::Full => "full",
            EffectProfile::Standard => "standard",
            EffectProfile::Simple => "simple",
            EffectProfile::Minimal => "minimal",
            EffectProfile::Skip => "skip",
        }
    }

    /// Localized display name for the UI.
    pub fn display_name(self) -> (t: LocalizedText)
        ensures
            t.args@.len() == 0,
            t.id@ == match self {
                EffectProfile::Full => "screensaver-effect-full"@,
                EffectProfile::Standard => "screensaver-effect-standard"@,
                EffectProfile::Simple => "screensaver-effect-simple"@,
                EffectProfile::Minimal => "screensaver-effect-minimal"@,
                EffectProfile::Skip => "screensaver-effect-skip"@,
            },
    {
        match self {
            EffectProfile::Full => localized("screensaver-effect-full"),
            EffectProfile::Standard => localized("screensaver-effect-standard"),
            EffectProfile::Simple => localized("screensaver-effect-simple"),
            EffectProfile::Minimal => localized("screensaver-effect-minimal"),
            EffectProfile::Skip => localized("screensaver-effect-skip"),
        }
    }
}

impl PowerProfile {
    fn env_name(self) -> (s: &'static str)
        ensures
            s@ == profile_name(self),
    {
        match self {
            PowerProfile::Performance => "performance",
            PowerProfile::Balanced => "balanced",
            PowerProfile::PowerSaver => "power-saver",
        }
    }
}

impl PowerState {
    /// Determine the appropriate effect profile based on power state.
    pub fn effect_profile(&self) -> (e: EffectProfile)
        ensures
            e == effect_profile_of(*self),
    {
        if self.on_battery {
            match self.battery_percent {
                Some(p) => if p < 10 {
                    EffectProfile::Skip
                } else if p < 20 {
                    EffectProfile::Minimal
                } else if p < 50 {
                    EffectProfile::Simple
                } else {
                    EffectProfile::Standard
                },
                None => EffectProfile::Standard,
            }
        } else {
            match self.power_profile {
                PowerProfile::Performance => EffectProfile::Full,
                _ => EffectProfile::Standard,
            }
        }
    }

    /// The two localized parts of the power status line (power source,
    /// then profile), which the UI shows joined by ` · `.
    pub fn display_string(&self) -> (t: (LocalizedText, LocalizedText))
        ensures
            t.0.id@ == (match (self.on_battery, self.battery_percent) {
                (false, None) => "screensaver-power-no-battery"@,
                (false, Some(_)) => "screensaver-power-ac"@,
                (true, _) => "screensaver-power-battery"@,
            }),
            self.on_battery ==> t.0.args@.len() == 1 && t.0.args@[0].0@ == "percent"@
                && t.0.args@[0].1@ == (match self.battery_percent {
                Some(p) => dec(p as nat),
                None => "?"@,
            }),
            !self.on_battery ==> t.0.args@.len() == 0,
            t.1.args@.len() == 0,
            t.1.id@ == (match self.power_profile {
                PowerProfile::Performance => "screensaver-power-profile-performance"@,
                PowerProfile::Balanced => "screensaver-power-profile-balanced"@,
                PowerProfile::PowerSaver => "screensaver-power-profile-powersaver"@,
            }),
    {
        let source = match (self.on_battery, self.battery_percent) {
            (false, None) => localized("screensaver-power-no-battery"),
            (false, Some(_)) => localized("screensaver-power-ac"),
            (true, Some(p)) => localized_with(
                "screensaver-power-battery",
                "percent",
                u32_to_string(p as u32),
            ),
            (true, None) => localized_with("screensaver-power-battery", "percent", string_from("?")),
        };
        let profile = match self.power_profile {
            PowerProfile::Performance => localized("screensaver-power-profile-performance"),
            PowerProfile::Balanced => localized("screensaver-power-profile-balanced"),
            PowerProfile::PowerSaver => localized("screensaver-power-profile-powersaver"),
        };
        (source, profile)
    }

    /// Format power state as shell `KEY="value"` pairs for screensaver-ctl.
    pub fn to_env_format(&self) -> (s: String)
        ensures
            s@ == env_format(*self),
    {
        let mut s = String::new();
        push_str(&mut s, "ON_BATTERY=\"");
        push_str(&mut s, if self.on_battery { "true" } else { "false" });
        push_str(&mut s, "\"\n");
        push_str(&mut s, "BATTERY_PERCENT=\"");
        match self.battery_percent {
            Some(p) => push_u32(&mut s, p as u32),
            None => {},
        }
        push_str(&mut s, "\"\n");
        push_str(&mut s, "POWER_PROFILE=\"");
        push_str(&mut s, self.power_profile.env_name());
        push_str(&mut s, "\"\n");
        push_str(&mut s, "EFFECT_PROFILE=\"");
        push_str(&mut s, self.effect_profile().as_str());
        push_str(&mut s, "\"\n");
        assert(s@ =~= env_format(*self));
        s
    }
}

/// The power profile named by the power daemon: `Performance`, `Battery`
/// (power saving); anything else is balanced.
pub fn profile_from_name(name: &str) -> (p: PowerProfile)
    ensures
        p == (if name@ == "Performance"@ {
            PowerProfile::Performance
        } else if name@ == "Battery"@ {
            PowerProfile::PowerSaver
        } else {
            PowerProfile::Balanced
        }),
{
    let c = crate::text::chars_of(name);
    let perf = crate::text::chars_of("Performance");
    let batt = crate::text::chars_of("Battery");
    assert(c@.subrange(0, c@.len() as int) == c@);
    if crate::text::range_eq(c.as_slice(), 0, c.len(), perf.as_slice()) {
        PowerProfile::Performance
    } else if crate::text::range_eq(c.as_slice(), 0, c.len(), batt.as_slice()) {
        PowerProfile::PowerSaver
    } else {
        PowerProfile::Balanced
    }
}

/// The battery charge reported for a display device: none when the device
/// type is unknown (0, no battery), else the reading.
pub fn battery_reading(device_type: u32, percent: Option<u8>) -> (r: Option<u8>)
    ensures
        r == (if device_type == 0 {
            None
        } else {
            percent
        }),
{
    if device_type == 0 {
        None
    } else {
        percent
    }
}

/// The power state from what the queries returned: the battery reading
/// when UPower answered, the profile (and the daemon's presence) when the
/// power daemon answered; defaults otherwise.
pub fn combine_power_state(upower: Option<(bool, Option<u8>)>, profile: Option<PowerProfile>) -> (s: PowerState)
    ensures
        s.on_battery == (match upower {
            Some((b, _)) => b,
            None => false,
        }),
        s.battery_percent == (match upower {
            Some((_, p)) => p,
            None => None,
        }),
        s.power_profile == (match profile {
            Some(p) => p,
            None => PowerProfile::Balanced,
        }),
        s.has_system76_power == profile is Some,
{
    let mut state = PowerState::default();
    if let Some((b, p)) = upower {
        state.on_battery = b;
        state.battery_percent = p;
    }
    if let Some(p) = profile {
        state.power_profile = p;
        state.has_system76_power = true;
    }
    state
}

/// How many effects a profile allows: Skip none, then Minimal, Simple,
/// Standard, and Full all.
pub open spec fn effect_level(e: EffectProfile) -> int {
    match e {
        EffectProfile::Skip => 0,
        EffectProfile::Minimal => 1,
        EffectProfile::Simple => 2,
        EffectProfile::Standard => 3,
        EffectProfile::Full => 4,
    }
}

/// Full effects only on AC power with the Performance profile; on battery
/// the power profile plays no part, a battery with at least half its charge
/// (or of unknown charge) gets the standard set, below a tenth the
/// screensaver is skipped, below a fifth only minimal effects run, below
/// half simple ones, and more charge never allows fewer effects; on AC the
/// battery reading plays no part and any profile but Performance gets the
/// standard set.
pub proof fn lemma_effect_profile_rules(s: PowerState, t: PowerState)
    ensures
        (effect_profile_of(s) == EffectProfile::Full) <==> (!s.on_battery && s.power_profile
            == PowerProfile::Performance),
        s.on_battery && t.on_battery && s.battery_percent == t.battery_percent
            ==> effect_profile_of(s) == effect_profile_of(t),
        s.on_battery && (s.battery_percent is None || s.battery_percent.unwrap() >= 50)
            ==> effect_profile_of(s) == EffectProfile::Standard,
        (effect_profile_of(s) == EffectProfile::Skip) <==> (s.on_battery && s.battery_percent
            is Some && s.battery_percent.unwrap() < 10),
        s.on_battery && t.on_battery && s.battery_percent is Some && t.battery_percent is Some
            && s.battery_percent.unwrap() <= t.battery_percent.unwrap() ==> effect_level(
            effect_profile_of(s),
        ) <= effect_level(effect_profile_of(t)),
        !s.on_battery && !t.on_battery && s.power_profile == t.power_profile
            ==> effect_profile_of(s) == effect_profile_of(t),
        !s.on_battery && s.power_profile != PowerProfile::Performance ==> effect_profile_of(s)
            == EffectProfile::Standard,
        s.on_battery && s.battery_percent is Some && 10 <= s.battery_percent.unwrap() < 20
            ==> effect_profile_of(s) == EffectProfile::Minimal,
        s.on_battery && s.battery_percent is Some && 20 <= s.battery_percent.unwrap() < 50
            ==> effect_profile_of(s) == EffectProfile::Simple,
{
}

} // verus!
