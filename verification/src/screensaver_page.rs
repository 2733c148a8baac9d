//! The screensaver page: how each control changes the settings being
//! edited, and what the page asks the application to do (save, pick a
//! logo, run a test of the screensaver).
use vstd::prelude::*;
use crate::screensaver_config::{ScreensaverConfig, ScreensaverSettings};
use crate::pages::{ScreensaverMessage, EffectProfileSlot};
use crate::idle::{IdleSubscriptionConfig, compute_idle_config};
use crate::compositor::CompositorBackup;
use crate::text::{string_from, LocalizedText, localized};

verus! {

/// Frame rates of the frame-rate dropdown.
pub open spec fn frame_rate_choice(i: usize) -> Option<u32> {
    if i == 0 {
        Some(30u32)
    } else if i == 1 {
        Some(60u32)
    } else if i == 2 {
        Some(120u32)
    } else {
        None
    }
}

/// Fade effects of the fade dropdowns (the empty name is no effect).
pub open spec fn fade_choice(i: usize) -> Option<Seq<char>> {
    if i == 0 {
        Some(""@)
    } else if i == 1 {
        Some("fade"@)
    } else if i == 2 {
        Some("slide"@)
    } else if i == 3 {
        Some("matrix"@)
    } else {
        None
    }
}

/// Clock durations (seconds) of the clock-duration dropdown.
pub open spec fn clock_duration_choice(i: usize) -> Option<u32> {
    if i == 0 {
        Some(3u32)
    } else if i == 1 {
        Some(5u32)
    } else if i == 2 {
        Some(10u32)
    } else if i == 3 {
        Some(15u32)
    } else {
        None
    }
}

/// Clock formats of the clock-format dropdown.
pub open spec fn clock_format_choice(i: usize) -> Option<Seq<char>> {
    if i == 0 {
        Some("%H:%M"@)
    } else if i == 1 {
        Some("%H:%M:%S"@)
    } else if i == 2 {
        Some("%I:%M %p"@)
    } else if i == 3 {
        Some("%I:%M:%S %p"@)
    } else {
        None
    }
}

/// Terminals of the terminal dropdown.
pub open spec fn terminal_choice(i: usize) -> Option<Seq<char>> {
    if i == 0 {
        Some("alacritty"@)
    } else if i == 1 {
        Some("ghostty"@)
    } else if i == 2 {
        Some("cosmic-term"@)
    } else {
        None
    }
}

/// Idle timeouts (seconds) on battery of the battery dropdown.
pub open spec fn battery_timeout_choice(i: usize) -> Option<u32> {
    if i == 0 {
        Some(300u32)
    } else if i == 1 {
        Some(600u32)
    } else if i == 2 {
        Some(900u32)
    } else if i == 3 {
        Some(1800u32)
    } else {
        None
    }
}

/// The lock or screen-off timeout chosen: a non-zero value below the idle
/// timeout is raised to it.
pub open spec fn at_least_idle(seconds: u32, idle: u32) -> u32 {
    if seconds > 0 && seconds < idle {
        idle
    } else {
        seconds
    }
}

/// A lock or screen-off timeout kept when the idle timeout becomes `idle`:
/// raised to it when set but below it.
pub open spec fn bumped(t: u32, idle: u32) -> u32 {
    if t > 0 && t < idle {
        idle
    } else {
        t
    }
}

/// The settings after one message of the page.
pub open spec fn settings_after(s: ScreensaverSettings, m: ScreensaverMessage) -> ScreensaverSettings {
    match m {
        ScreensaverMessage::SetEnabled(b) => ScreensaverSettings { enabled: b, ..s },
        ScreensaverMessage::SetIdleTimeout(t) => ScreensaverSettings {
            idle_timeout: t,
            lock_timeout: bumped(s.lock_timeout, t),
            dpms_timeout: bumped(s.dpms_timeout, t),
            ..s
        },
        ScreensaverMessage::SetLockTimeout(t) => ScreensaverSettings {
            lock_timeout: at_least_idle(t, s.idle_timeout),
            ..s
        },
        ScreensaverMessage::SetDpmsTimeout(t) => ScreensaverSettings {
            dpms_timeout: at_least_idle(t, s.idle_timeout),
            ..s
        },
        ScreensaverMessage::SetFrameRate(i) => match frame_rate_choice(i) {
            Some(r) => ScreensaverSettings { frame_rate: r, ..s },
            None => s,
        },
        ScreensaverMessage::SetExcludeEffects(t) => ScreensaverSettings {
            exclude_effects: t@,
            ..s
        },
        ScreensaverMessage::SetIncludeEffects(t) => ScreensaverSettings {
            include_effects: t@,
            ..s
        },
        ScreensaverMessage::SetFadeInEffect(i) => match fade_choice(i) {
            Some(e) => ScreensaverSettings { fade_in_effect: e, ..s },
            None => s,
        },
        ScreensaverMessage::SetFadeOutEffect(i) => match fade_choice(i) {
            Some(e) => ScreensaverSettings { fade_out_effect: e, ..s },
            None => s,
        },
        ScreensaverMessage::SetShowClock(b) => ScreensaverSettings { show_clock: b, ..s },
        ScreensaverMessage::SetClockDuration(i) => match clock_duration_choice(i) {
            Some(d) => ScreensaverSettings { clock_duration: d, ..s },
            None => s,
        },
        ScreensaverMessage::SetClockFormat(i) => match clock_format_choice(i) {
            Some(f) => ScreensaverSettings { clock_format: f, ..s },
            None => s,
        },
        ScreensaverMessage::SetClockFont(f) => ScreensaverSettings { clock_font: f@, ..s },
        ScreensaverMessage::SetTerminal(i) => match terminal_choice(i) {
            Some(t) => ScreensaverSettings { terminal: t, ..s },
            None => s,
        },
        ScreensaverMessage::SelectLogo(p) => ScreensaverSettings { logo_file: p@, ..s },
        ScreensaverMessage::SelectLogoComplete(r) => match r {
            Ok(p) => ScreensaverSettings { logo_file: p@, ..s },
            Err(_) => s,
        },
        ScreensaverMessage::SetCursorHide(b) => ScreensaverSettings { cursor_hide: b, ..s },
        ScreensaverMessage::SetHideMouse(b) => ScreensaverSettings { hide_mouse: b, ..s },
        ScreensaverMessage::SetDismissOnKey(b) => ScreensaverSettings { dismiss_on_key: b, ..s },
        ScreensaverMessage::SetSessionLock(b) => ScreensaverSettings { session_lock: b, ..s },
        ScreensaverMessage::SetDisableOnBattery(b) => ScreensaverSettings {
            disable_on_battery: b,
            ..s
        },
        ScreensaverMessage::SetBatteryIdleTimeout(i) => match battery_timeout_choice(i) {
            Some(v) => ScreensaverSettings { battery_idle_timeout: v, ..s },
            None => s,
        },
        ScreensaverMessage::SetEffectsForProfile(slot, t) => match slot {
            EffectProfileSlot::Performance => ScreensaverSettings {
                effects_performance: t@,
                ..s
            },
            EffectProfileSlot::Balanced => ScreensaverSettings { effects_balanced: t@, ..s },
            EffectProfileSlot::Battery => ScreensaverSettings { effects_battery: t@, ..s },
            EffectProfileSlot::Minimal => ScreensaverSettings { effects_minimal: t@, ..s },
        },
        _ => s,
    }
}

/// The lock and screen-off timeouts are each off or not before the
/// screensaver starts.
pub open spec fn timeouts_ordered(s: ScreensaverSettings) -> bool {
    (s.lock_timeout == 0 || s.lock_timeout >= s.idle_timeout) && (s.dpms_timeout == 0
        || s.dpms_timeout >= s.idle_timeout)
}

/// Every control of the page keeps the lock and screen-off timeouts off or
/// at least the idle timeout.
pub proof fn lemma_controls_keep_timeouts_ordered(s: ScreensaverSettings, m: ScreensaverMessage)
    requires
        timeouts_ordered(s),
    ensures
        timeouts_ordered(settings_after(s, m)),
{
}

proof fn lemma_controls_keep_timeouts_ordered_if(s: ScreensaverSettings, m: ScreensaverMessage)
    ensures
        timeouts_ordered(s) ==> timeouts_ordered(settings_after(s, m)),
{
}

/// Setting the idle, lock or screen-off timeout leaves the three ordered,
/// whatever they were before.
pub proof fn lemma_idle_timeout_orders(s: ScreensaverSettings, t: u32)
    ensures
        timeouts_ordered(settings_after(s, ScreensaverMessage::SetIdleTimeout(t))),
{
}

/// Outcome of the last save, shown on the page.
#[derive(Clone, Copy, Debug, PartialEq, Eq, Structural)]
pub enum SaveStatus {
    Saved,
    Failed,
}

impl SaveStatus {
    /// The message shown for the outcome.
    pub fn message(self) -> (t: LocalizedText)
        ensures
            t.id@ == match self {
                SaveStatus::Saved => "screensaver-save-success"@,
                SaveStatus::Failed => "screensaver-save-error"@,
            },
            t.args@.len() == 0,
    {
        match self {
            SaveStatus::Saved => localized("screensaver-save-success"),
            SaveStatus::Failed => localized("screensaver-save-error"),
        }
    }
}

/// What the application does after a message of the page.
pub enum ScreensaverAction {
    Nothing,
    /// Read the logo file at this path for the preview.
    LoadLogoPreview(String),
    /// Open the file chooser for a logo.
    OpenLogoDialog,
    /// Write the settings and the swayidle configuration, set the system
    /// screen-off time to the DPMS timeout, and restart the swayidle
    /// service when `restart_service`; then report `SaveComplete` with
    /// `launch_test`.
    Save { config: ScreensaverConfig, launch_test: bool, restart_service: bool },
    /// Switch off interfering compositor settings and start the test.
    StartTest,
}

/// The state the screensaver page works on.
pub struct ScreensaverPage {
    /// The settings being edited.
    pub config: ScreensaverConfig,
    /// Session lock on idle is enabled.
    pub session_lock_enabled: bool,
    /// Outcome of the last save, cleared when a new save starts.
    pub status: Option<SaveStatus>,
    /// Native idle detection is active (swayidle is not used).
    pub native_idle_active: bool,
    /// Timeouts handed to the idle subscription.
    pub idle_config: IdleSubscriptionConfig,
    /// Compositor settings saved while a test runs.
    pub compositor_backup: Option<CompositorBackup>,
}

fn frame_rate_exec(i: usize) -> (r: Option<u32>)
    ensures
        r == frame_rate_choice(i),
{
    if i == 0 {
        Some(30)
    } else if i == 1 {
        Some(60)
    } else if i == 2 {
        Some(120)
    } else {
        None
    }
}

fn fade_exec(i: usize) -> (r: Option<String>)
    ensures
        match fade_choice(i) {
            Some(e) => r is Some && r->0@ == e,
            None => r is None,
        },
{
    proof {
        reveal_strlit("");
    }
    if i == 0 {
        let e = String::new();
        assert(e@ =~= ""@);
        Some(e)
    } else if i == 1 {
        Some(string_from("fade"))
    } else if i == 2 {
        Some(string_from("slide"))
    } else if i == 3 {
        Some(string_from("matrix"))
    } else {
        None
    }
}

fn clock_duration_exec(i: usize) -> (r: Option<u32>)
    ensures
        r == clock_duration_choice(i),
{
    if i == 0 {
        Some(3)
    } else if i == 1 {
        Some(5)
    } else if i == 2 {
        Some(10)
    } else if i == 3 {
        Some(15)
    } else {
        None
    }
}

fn clock_format_exec(i: usize) -> (r: Option<String>)
    ensures
        match clock_format_choice(i) {
            Some(e) => r is Some && r->0@ == e,
            None => r is None,
        },
{
    if i == 0 {
        Some(string_from("%H:%M"))
    } else if i == 1 {
        Some(string_from("%H:%M:%S"))
    } else if i == 2 {
        Some(string_from("%I:%M %p"))
    } else if i == 3 {
        Some(string_from("%I:%M:%S %p"))
    } else {
        None
    }
}

fn terminal_exec(i: usize) -> (r: Option<String>)
    ensures
        match terminal_choice(i) {
            Some(e) => r is Some && r->0@ == e,
            None => r is None,
        },
{
    if i == 0 {
        Some(string_from("alacritty"))
    } else if i == 1 {
        Some(string_from("ghostty"))
    } else if i == 2 {
        Some(string_from("cosmic-term"))
    } else {
        None
    }
}

fn battery_timeout_exec(i: usize) -> (r: Option<u32>)
    ensures
        r == battery_timeout_choice(i),
{
    if i == 0 {
        Some(300)
    } else if i == 1 {
        Some(600)
    } else if i == 2 {
        Some(900)
    } else if i == 3 {
        Some(1800)
    } else {
        None
    }
}

/// The settings after one of the page's editing controls.
#[verifier::rlimit(50)]
fn edit_config(config: &mut ScreensaverConfig, msg: ScreensaverMessage)
    requires
        !(msg is SelectLogo),
        !(msg is SelectLogoComplete),
        !(msg is SetSessionLock),
    ensures
        final(config)@ == settings_after(old(config)@, msg),
{
    match msg {
        ScreensaverMessage::SetEnabled(b) => {
            config.enabled = b;
        },
        ScreensaverMessage::SetIdleTimeout(t) => {
            config.idle_timeout = t;
            if config.lock_timeout > 0 && config.lock_timeout < t {
                config.lock_timeout = t;
            }
            if config.dpms_timeout > 0 && config.dpms_timeout < t {
                config.dpms_timeout = t;
            }
        },
        ScreensaverMessage::SetLockTimeout(t) => {
            let idle = config.idle_timeout;
            config.lock_timeout = if t > 0 && t < idle {
                idle
            } else {
                t
            };
        },
        ScreensaverMessage::SetDpmsTimeout(t) => {
            let idle = config.idle_timeout;
            config.dpms_timeout = if t > 0 && t < idle {
                idle
            } else {
                t
            };
        },
        ScreensaverMessage::SetFrameRate(i) => {
            if let Some(r) = frame_rate_exec(i) {
                config.frame_rate = r;
            }
        },
        ScreensaverMessage::SetExcludeEffects(t) => {
            config.exclude_effects = t;
        },
        ScreensaverMessage::SetIncludeEffects(t) => {
            config.include_effects = t;
        },
        ScreensaverMessage::SetFadeInEffect(i) => {
            if let Some(e) = fade_exec(i) {
                config.fade_in_effect = e;
            }
        },
        ScreensaverMessage::SetFadeOutEffect(i) => {
            if let Some(e) = fade_exec(i) {
                config.fade_out_effect = e;
            }
        },
        ScreensaverMessage::SetShowClock(b) => {
            config.show_clock = b;
        },
        ScreensaverMessage::SetClockDuration(i) => {
            if let Some(d) = clock_duration_exec(i) {
                config.clock_duration = d;
            }
        },
        ScreensaverMessage::SetClockFormat(i) => {
            if let Some(f) = clock_format_exec(i) {
                config.clock_format = f;
            }
        },
        ScreensaverMessage::SetClockFont(f) => {
            config.clock_font = f;
        },
        ScreensaverMessage::SetTerminal(i) => {
            if let Some(t) = terminal_exec(i) {
                config.terminal = t;
            }
        },
        ScreensaverMessage::SetCursorHide(b) => {
            config.cursor_hide = b;
        },
        ScreensaverMessage::SetHideMouse(b) => {
            config.hide_mouse = b;
        },
        ScreensaverMessage::SetDismissOnKey(b) => {
            config.dismiss_on_key = b;
        },
        ScreensaverMessage::SetDisableOnBattery(b) => {
            config.disable_on_battery = b;
        },
        ScreensaverMessage::SetBatteryIdleTimeout(i) => {
            if let Some(v) = battery_timeout_exec(i) {
                config.battery_idle_timeout = v;
            }
        },
        ScreensaverMessage::SetEffectsForProfile(slot, t) => {
            match slot {
                EffectProfileSlot::Performance => {
                config.effects_performance = t;
                },
                EffectProfileSlot::Balanced => {
                config.effects_balanced = t;
                },
                EffectProfileSlot::Battery => {
                config.effects_battery = t;
                },
                EffectProfileSlot::Minimal => {
                config.effects_minimal = t;
                },
            }
        },
        _ => {},
    }
}

impl ScreensaverPage {
    /// Apply one message of the page: the settings change as
    /// [`settings_after`] says, and the returned action is what the
    /// application performs next.
    pub fn update(&mut self, msg: ScreensaverMessage) -> (a: ScreensaverAction)
        ensures
            final(self).config@ == settings_after(old(self).config@, msg),
            timeouts_ordered(old(self).config@) ==> timeouts_ordered(final(self).config@),
            final(self).native_idle_active == old(self).native_idle_active,
            final(self).session_lock_enabled == (match msg {
                ScreensaverMessage::SetSessionLock(b) => b,
                _ => old(self).session_lock_enabled,
            }),
            final(self).status == (match msg {
                ScreensaverMessage::SaveConfig => None,
                ScreensaverMessage::SaveAndTest => None,
                ScreensaverMessage::SaveComplete(Ok(()), _) => Some(SaveStatus::Saved),
                ScreensaverMessage::SaveComplete(Err(_), _) => Some(SaveStatus::Failed),
                _ => old(self).status,
            }),
            final(self).idle_config == (match msg {
                ScreensaverMessage::SaveComplete(Ok(()), _) => {
                    let c = old(self).config@;
                    IdleSubscriptionConfig {
                        screensaver_timeout_ms: if c.enabled {
                            crate::idle::saturating_ms(c.idle_timeout as int)
                        } else {
                            0
                        },
                        lock_timeout_ms: if c.enabled && c.lock_timeout > 0 {
                            crate::idle::saturating_ms(c.idle_timeout + c.lock_timeout)
                        } else {
                            0
                        },
                        enabled: c.enabled,
                    }
                },
                _ => old(self).idle_config,
            }),
            final(self).compositor_backup == (match msg {
                ScreensaverMessage::ScreensaverTestExited(_) => None,
                _ => old(self).compositor_backup,
            }),
            match msg {
                ScreensaverMessage::SelectLogo(p) => a matches ScreensaverAction::LoadLogoPreview(
                    q,
                ) && q@ == p@,
                ScreensaverMessage::SelectLogoComplete(Ok(p)) => a matches ScreensaverAction::LoadLogoPreview(
                    q,
                ) && q@ == p@,
                ScreensaverMessage::SelectLogoDialog => a is OpenLogoDialog,
                ScreensaverMessage::SaveConfig => a matches ScreensaverAction::Save {
                    config,
                    launch_test,
                    restart_service,
                } && config@ == old(self).config@ && !launch_test && restart_service == !old(
                    self,
                ).native_idle_active,
                ScreensaverMessage::SaveAndTest => a matches ScreensaverAction::Save {
                    config,
                    launch_test,
                    restart_service,
                } && config@ == old(self).config@ && launch_test && restart_service == !old(
                    self,
                ).native_idle_active,
                ScreensaverMessage::SaveComplete(Ok(()), true) => (if old(
                    self,
                ).compositor_backup is Some {
                    a is Nothing
                } else {
                    a is StartTest
                }),
                _ => a is Nothing,
            },
    {
        let ghost m = msg;
        proof {
            lemma_controls_keep_timeouts_ordered_if(old(self).config@, m);
        }
        match msg {
            ScreensaverMessage::SelectLogo(p) => {
                let q = string_from(p.as_str());
                self.config.logo_file = p;
                return ScreensaverAction::LoadLogoPreview(q);
            },
            ScreensaverMessage::SelectLogoDialog => {
                return ScreensaverAction::OpenLogoDialog;
            },
            ScreensaverMessage::SelectLogoComplete(r) => {
                if let Ok(p) = r {
                    let q = string_from(p.as_str());
                    self.config.logo_file = p;
                    return ScreensaverAction::LoadLogoPreview(q);
                }
            },
            ScreensaverMessage::SaveConfig => {
                self.status = None;
                return ScreensaverAction::Save {
                    config: self.config.clone(),
                    launch_test: false,
                    restart_service: !self.native_idle_active,
                };
            },
            ScreensaverMessage::SaveAndTest => {
                self.status = None;
                return ScreensaverAction::Save {
                    config: self.config.clone(),
                    launch_test: true,
                    restart_service: !self.native_idle_active,
                };
            },
            ScreensaverMessage::SaveComplete(r, launch_test) => {
                match r {
                    Ok(()) => {
                        self.status = Some(SaveStatus::Saved);
                        self.idle_config = compute_idle_config(&self.config);
                        if launch_test {
                            if self.compositor_backup.is_some() {
                                return ScreensaverAction::Nothing;
                            }
                            return ScreensaverAction::StartTest;
                        }
                    },
                    Err(_) => {
                        self.status = Some(SaveStatus::Failed);
                    },
                }
            },
            ScreensaverMessage::ScreensaverTestExited(_) => {
                self.compositor_backup = None;
            },
            ScreensaverMessage::SetSessionLock(b) => {
                self.config.session_lock = b;
                self.session_lock_enabled = b;
            },
            other => {
                edit_config(&mut self.config, other);
            },
        }
        ScreensaverAction::Nothing
    }

    /// The compositor settings were switched off for a test: keep the
    /// backup (`None` when the compositor configuration was unavailable or
    /// switching failed).
    pub fn on_test_prepared(&mut self, backup: Option<CompositorBackup>)
        ensures
            final(self).compositor_backup == backup,
            final(self).config@ == old(self).config@,
            final(self).status == old(self).status,
            final(self).idle_config == old(self).idle_config,
    {
        self.compositor_backup = backup;
    }

    /// The test did not start (launcher missing or not started): the
    /// backup to restore right away, which the page no longer holds.
    pub fn on_test_not_started(&mut self) -> (r: Option<CompositorBackup>)
        ensures
            r == old(self).compositor_backup,
            final(self).compositor_backup is None,
            final(self).config@ == old(self).config@,
            final(self).status == old(self).status,
            final(self).idle_config == old(self).idle_config,
    {
        self.compositor_backup.take()
    }
}

} // verus!
