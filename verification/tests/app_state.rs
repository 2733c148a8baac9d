use cosmic_order::config::{start_page, Config, ConfigError};
use cosmic_order::pages::{PageId, ScreensaverMessage, ThemesMessage, WizardMessage};

#[test]
fn test_page_id_default_is_visuals() {
    assert_eq!(PageId::default(), PageId::Visuals);
}

#[test]
fn test_page_id_equality() {
    assert_eq!(PageId::Visuals, PageId::Visuals);
    assert_eq!(PageId::ToolSync, PageId::ToolSync);
    assert_eq!(PageId::Screensaver, PageId::Screensaver);
    assert_ne!(PageId::Visuals, PageId::ToolSync);
    assert_ne!(PageId::ToolSync, PageId::Screensaver);
}

#[test]
fn test_page_id_copy() {
    let page = PageId::ToolSync;
    let copied = page;
    assert_eq!(page, copied);
}

#[test]
fn test_page_id_debug() {
    let debug = format!("{:?}", PageId::Visuals);
    assert_eq!(debug, "Visuals");
}

#[test]
fn test_themes_message_variants_constructible() {
    let _ = ThemesMessage::Export;
    let _ = ThemesMessage::ExportComplete(Ok("path".to_string()));
    let _ = ThemesMessage::ExportComplete(Err("error".to_string()));
    let _ = ThemesMessage::Import;
    let _ = ThemesMessage::SetGhosttySync(true);
    let _ = ThemesMessage::SetBtopSync(false);
    let _ = ThemesMessage::SetNvimSync(true);
    let _ = ThemesMessage::SetZellijSync(false);
    let _ = ThemesMessage::SetFzfSync(true);
    let _ = ThemesMessage::SetFzfShellIntegration(true);
    let _ = ThemesMessage::SetLazygitSync(false);
    let _ = ThemesMessage::SetHooksEnabled(true);
    let _ = ThemesMessage::SetAutoSync(false);
    let _ = ThemesMessage::SyncTools;
    let _ = ThemesMessage::SyncComplete(Ok("done".to_string()));
}

#[test]
fn test_wizard_message_variants_constructible() {
    let _ = WizardMessage::Open;
    let _ = WizardMessage::Close;
    let _ = WizardMessage::NextStep;
    let _ = WizardMessage::PrevStep;
    let _ = WizardMessage::SetBaseTheme(0);
    let _ = WizardMessage::SetDarkMode(true);
    let _ = WizardMessage::SetAccentHex("#FF0000".to_string());
    let _ = WizardMessage::SetAccentPreset(0xFF_00_00);
    let _ = WizardMessage::SetBgHex("#000000".to_string());
    let _ = WizardMessage::SetBgOverride(true);
    let _ = WizardMessage::SetOuterGap(4);
    let _ = WizardMessage::SetInnerGap(4);
    let _ = WizardMessage::SetActiveHint(2);
    let _ = WizardMessage::SetCornerPreset(1);
    let _ = WizardMessage::SetFrosted(false);
    let _ = WizardMessage::SetName("My Theme".to_string());
    let _ = WizardMessage::Export;
    let _ = WizardMessage::Apply;
}

#[test]
fn test_screensaver_message_variants_constructible() {
    let _ = ScreensaverMessage::SetEnabled(true);
    let _ = ScreensaverMessage::SetIdleTimeout(300);
    let _ = ScreensaverMessage::SetLockTimeout(600);
    let _ = ScreensaverMessage::SetDpmsTimeout(900);
    let _ = ScreensaverMessage::SetFrameRate(1);
    let _ = ScreensaverMessage::SetExcludeEffects("snow".to_string());
    let _ = ScreensaverMessage::SetIncludeEffects("matrix".to_string());
    let _ = ScreensaverMessage::SetShowClock(true);
    let _ = ScreensaverMessage::SetCursorHide(true);
    let _ = ScreensaverMessage::SetHideMouse(true);
    let _ = ScreensaverMessage::SetDismissOnKey(true);
    let _ = ScreensaverMessage::SetSessionLock(false);
    let _ = ScreensaverMessage::SaveConfig;
    let _ = ScreensaverMessage::SaveAndTest;
}

#[test]
fn test_config_default() {
    let config = Config::default();
    assert_eq!(config.active_page, PageId::Visuals);
    assert_eq!(config.window_width, 0);
    assert_eq!(config.window_height, 0);
}

#[test]
fn test_config_clone() {
    let config = Config {
        active_page: PageId::ToolSync,
        window_width: 1024,
        window_height: 768,
    };
    let cloned = config;
    assert_eq!(cloned.active_page, PageId::ToolSync);
    assert_eq!(cloned.window_width, 1024);
    assert_eq!(cloned.window_height, 768);
}

#[test]
fn test_config_equality() {
    let a = Config {
        active_page: PageId::Screensaver,
        window_width: 800,
        window_height: 600,
    };
    let b = Config {
        active_page: PageId::Screensaver,
        window_width: 800,
        window_height: 600,
    };
    assert_eq!(a, b);
}

#[test]
fn test_config_inequality() {
    let a = Config::default();
    let b = Config {
        active_page: PageId::ToolSync,
        ..Config::default()
    };
    assert_ne!(a, b);
}

#[test]
fn test_config_error_display() {
    let load_err = ConfigError::Load("connection refused".to_string());
    assert!(load_err.message().contains("connection refused"));
    assert!(load_err.message().contains("load"));

    let save_err = ConfigError::Save("permission denied".to_string());
    assert!(save_err.message().contains("permission denied"));
    assert!(save_err.message().contains("save"));
}

#[test]
fn window_size_is_kept_only_when_real_and_new() {
    let mut c = Config { active_page: PageId::Visuals, window_width: 800, window_height: 600 };
    assert!(!c.remember_window_size(0, 600));
    assert!(!c.remember_window_size(800, 600));
    assert!(c.remember_window_size(1024, 768));
    assert_eq!((c.window_width, c.window_height), (1024, 768));
    assert_eq!(start_page(None, &c), PageId::Visuals);
    assert_eq!(start_page(Some(PageId::Screensaver), &c), PageId::Screensaver);
    assert_eq!(PageId::Screensaver.position(), 2);
}
