use cosmic_order::paths::{
    btop_config, btop_themes_dir, cosmic_order_config_dir, fzf_theme, ghostty_config,
    ghostty_themes_dir, hooks_dir, lazygit_config, nvim_colorscheme, screensaver_config,
    screensaver_ctl, screensaver_power_env, screensaver_swayidle_config, tool_sync_config,
    zellij_config, UserDirs,
};
use cosmic_order::power::{EffectProfile, PowerProfile, PowerState};

fn dirs() -> UserDirs {
    UserDirs { config: "/home/user/.config".to_string(), home: "/home/user".to_string() }
}

#[test]
fn test_paths_are_absolute() {
    let d = dirs();
    let paths = [
        cosmic_order_config_dir(&d),
        ghostty_config(&d),
        ghostty_themes_dir(&d),
        btop_config(&d),
        btop_themes_dir(&d),
        nvim_colorscheme(&d),
        zellij_config(&d),
        lazygit_config(&d),
        fzf_theme(&d),
        tool_sync_config(&d),
        hooks_dir(&d),
        screensaver_config(&d),
        screensaver_power_env(&d),
        screensaver_swayidle_config(&d),
        screensaver_ctl(&d),
    ];

    for path in &paths {
        assert!(
            std::path::Path::new(path).components().count() > 1,
            "Path too short: {}",
            path
        );
    }
}

#[test]
fn test_cosmic_order_paths_share_prefix() {
    let d = dirs();
    let parent = cosmic_order_config_dir(&d);
    assert!(std::path::Path::new(&tool_sync_config(&d)).starts_with(&parent));
    assert!(std::path::Path::new(&fzf_theme(&d)).starts_with(&parent));
    assert!(std::path::Path::new(&hooks_dir(&d)).starts_with(&parent));
}

#[test]
fn user_dirs_fall_back_to_home() {
    let d = UserDirs::resolve(None, Some("/home/ann".to_string()));
    assert_eq!(d.config, "/home/ann/.config");
    assert_eq!(tool_sync_config(&d), "/home/ann/.config/cosmic-order/tool-sync.toml");
    let t = UserDirs::resolve(None, None);
    assert_eq!(t.home, "/tmp");
}

fn state(on_battery: bool, pct: Option<u8>, profile: PowerProfile, s76: bool) -> PowerState {
    PowerState {
        on_battery,
        battery_percent: pct,
        power_profile: profile,
        has_system76_power: s76,
    }
}

#[test]
fn test_effect_profile_logic() {
    assert_eq!(state(true, Some(5), PowerProfile::Balanced, false).effect_profile(), EffectProfile::Skip);
    assert_eq!(state(true, Some(15), PowerProfile::Balanced, false).effect_profile(), EffectProfile::Minimal);
    assert_eq!(state(true, Some(45), PowerProfile::Balanced, false).effect_profile(), EffectProfile::Simple);
    assert_eq!(state(true, Some(72), PowerProfile::Balanced, false).effect_profile(), EffectProfile::Standard);
    assert_eq!(state(false, Some(100), PowerProfile::Performance, true).effect_profile(), EffectProfile::Full);
    assert_eq!(state(false, Some(80), PowerProfile::Balanced, true).effect_profile(), EffectProfile::Standard);
    assert_eq!(state(false, None, PowerProfile::Balanced, false).effect_profile(), EffectProfile::Standard);
    assert_eq!(state(false, Some(90), PowerProfile::PowerSaver, true).effect_profile(), EffectProfile::Standard);
    assert_eq!(state(true, Some(10), PowerProfile::Balanced, false).effect_profile(), EffectProfile::Minimal);
    assert_eq!(state(true, Some(20), PowerProfile::Balanced, false).effect_profile(), EffectProfile::Simple);
    assert_eq!(state(true, Some(50), PowerProfile::Balanced, false).effect_profile(), EffectProfile::Standard);
}

#[test]
fn test_env_format() {
    let env = state(true, Some(45), PowerProfile::PowerSaver, true).to_env_format();

    assert!(env.contains("ON_BATTERY=\"true\""));
    assert!(env.contains("BATTERY_PERCENT=\"45\""));
    assert!(env.contains("POWER_PROFILE=\"power-saver\""));
    assert!(env.contains("EFFECT_PROFILE=\"simple\""));

    let env = state(false, None, PowerProfile::Balanced, false).to_env_format();

    assert!(env.contains("ON_BATTERY=\"false\""));
    assert!(env.contains("BATTERY_PERCENT=\"\""));
    assert!(env.contains("POWER_PROFILE=\"balanced\""));
    assert!(env.contains("EFFECT_PROFILE=\"standard\""));
}

#[test]
fn test_effect_profile_display() {
    assert_eq!(EffectProfile::Full.as_str(), "full");
    assert_eq!(EffectProfile::Standard.as_str(), "standard");
    assert_eq!(EffectProfile::Simple.as_str(), "simple");
    assert_eq!(EffectProfile::Minimal.as_str(), "minimal");
    assert_eq!(EffectProfile::Skip.as_str(), "skip");
}

#[test]
fn test_default_power_state() {
    let state = PowerState::default();
    assert!(!state.on_battery);
    assert_eq!(state.battery_percent, None);
    assert_eq!(state.power_profile, PowerProfile::Balanced);
    assert!(!state.has_system76_power);
    assert_eq!(state.effect_profile(), EffectProfile::Standard);
}
