//! The application's pages and the messages their controls send.
use vstd::prelude::*;
use crate::theme_config::ThemeId;

verus! {

/// Page identifiers.
#[derive(Clone, Copy, Debug, PartialEq, Eq, Structural)]
pub enum PageId {
    /// Visuals page (themes)
    Visuals,
    /// Tool sync configuration page
    ToolSync,
    /// Screensaver configuration page
    Screensaver,
}

impl Default for PageId {
    fn default() -> (p: PageId)
        ensures
            p == PageId::Visuals,
    {
        PageId::Visuals
    }
}

impl PageId {
    /// Position of the page in the navigation bar.
    pub fn position(self) -> (r: u16)
        ensures
            r == match self {
                PageId::Visuals => 0u16,
                PageId::ToolSync => 1u16,
                PageId::Screensaver => 2u16,
            },
    {
        match self {
            PageId::Visuals => 0,
            PageId::ToolSync => 1,
            PageId::Screensaver => 2,
        }
    }
}

/// Theme page messages.
/// `Clone` of `std::result::Result` (the derived impl): the copy is the
/// same variant as the value cloned, holding a clone of its payload. Only the
/// variant is claimed here, since what the payload's own `clone` returns is
/// up to its type.
pub assume_specification<T, E>[<std::result::Result<T, E> as std::clone::Clone>::clone](
    r: &std::result::Result<T, E>,
) -> (c: std::result::Result<T, E>) where E: std::clone::Clone, T: std::clone::Clone
    ensures
        (c is Ok) == (*r is Ok),
;

#[derive(Clone, Debug)]
pub enum ThemesMessage {
    /// Export current theme
    Export,
    /// Export completed with result (path or error message)
    ExportComplete(Result<String, String>),
    /// Import a theme file
    Import,
    /// Import completed with result (path or error message)
    ImportComplete(Result<String, String>),
    /// Preview a theme (apply temporarily with confirm/cancel)
    PreviewTheme(ThemeId),
    /// Confirm the previewed theme (keep it applied)
    ConfirmPreview,
    /// Cancel the preview and restore the previous theme
    CancelPreview,
    SetGhosttySync(bool),
    SetBtopSync(bool),
    SetNvimSync(bool),
    SetZellijSync(bool),
    SetFzfSync(bool),
    /// Toggle fzf shell integration (source line in rc files)
    SetFzfShellIntegration(bool),
    SetLazygitSync(bool),
    /// Toggle custom hooks
    SetHooksEnabled(bool),
    /// Toggle auto-sync on theme change
    SetAutoSync(bool),
    /// Run theme sync for all enabled tools
    SyncTools,
    /// Sync completed with result
    SyncComplete(Result<String, String>),
    /// Theme creation wizard
    Wizard(WizardMessage),
}

/// Theme creation wizard messages.
#[derive(Clone, Debug)]
pub enum WizardMessage {
    /// Open the wizard (snapshot current theme)
    Open,
    /// Close wizard and restore previous theme
    Close,
    NextStep,
    PrevStep,
    /// Select a bundled theme as base (by registry index; `usize::MAX` is
    /// the theme the wizard started from)
    SetBaseTheme(usize),
    /// Toggle dark/light mode for the new theme
    SetDarkMode(bool),
    /// Accent color hex input changed
    SetAccentHex(String),
    /// Accent color preset clicked (packed RGB)
    SetAccentPreset(u32),
    /// Background color hex input changed
    SetBgHex(String),
    /// Toggle custom background override on/off
    SetBgOverride(bool),
    SetOuterGap(u32),
    SetInnerGap(u32),
    SetActiveHint(u32),
    /// Set corner radii preset index
    SetCornerPreset(usize),
    /// Toggle frosted glass
    SetFrosted(bool),
    /// Theme name text input changed
    SetName(String),
    /// Export theme as RON file (opens file dialog)
    Export,
    ExportComplete(Result<String, String>),
    /// Apply theme (keep applied, close wizard, no export)
    Apply,
}

/// The power profile whose effect list a text field edits.
#[derive(Clone, Copy, Debug, PartialEq, Eq, Structural)]
pub enum EffectProfileSlot {
    Performance,
    Balanced,
    Battery,
    Minimal,
}

/// Screensaver page messages.
#[derive(Clone, Debug)]
pub enum ScreensaverMessage {
    SetEnabled(bool),
    /// Set idle timeout (seconds)
    SetIdleTimeout(u32),
    /// Set lock timeout (seconds)
    SetLockTimeout(u32),
    /// Set DPMS timeout (seconds)
    SetDpmsTimeout(u32),
    /// Set frame rate (dropdown index)
    SetFrameRate(usize),
    SetExcludeEffects(String),
    SetIncludeEffects(String),
    /// Set fade in effect (dropdown index)
    SetFadeInEffect(usize),
    /// Set fade out effect (dropdown index)
    SetFadeOutEffect(usize),
    SetShowClock(bool),
    /// Set clock duration (dropdown index)
    SetClockDuration(usize),
    /// Set clock format (dropdown index)
    SetClockFormat(usize),
    SetClockFont(String),
    /// Set terminal emulator (dropdown index)
    SetTerminal(usize),
    /// Select a logo from the grid by its file path
    SelectLogo(String),
    /// Open file dialog to select logo
    SelectLogoDialog,
    /// Logo selection completed
    SelectLogoComplete(Result<String, String>),
    SetCursorHide(bool),
    SetHideMouse(bool),
    SetDismissOnKey(bool),
    SetSessionLock(bool),
    SetDisableOnBattery(bool),
    /// Set battery idle timeout (dropdown index)
    SetBatteryIdleTimeout(usize),
    /// Set the effect list of one power profile
    SetEffectsForProfile(EffectProfileSlot, String),
    /// Save configuration and reload service
    SaveConfig,
    /// Save completed (bool = launch test after save)
    SaveComplete(Result<(), String>, bool),
    /// Save and launch screensaver test
    SaveAndTest,
    /// Screensaver test process exited
    ScreensaverTestExited(Result<(), String>),
}

} // verus!
