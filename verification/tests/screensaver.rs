use cosmic_order::compositor::{plan_disable, restore_writes, CompositorBackup, CompositorKey};
use cosmic_order::cosmic_idle::{screen_off_seconds, screen_off_value};
use cosmic_order::idle::{
    compute_idle_config, IdleAction, IdleControl, IdleEvent, IdleSubscriptionConfig, LaunchOutcome,
};
use cosmic_order::pages::{EffectProfileSlot, ScreensaverMessage};
use cosmic_order::screensaver_config::ScreensaverConfig;
use cosmic_order::screensaver_page::{SaveStatus, ScreensaverAction, ScreensaverPage};

#[test]
fn test_parse_config() {
    let content = r#"
# Test config
ENABLED="true"
IDLE_TIMEOUT="300"
LOCK_TIMEOUT="600"
SHOW_CLOCK="false"
LOGO_FILE="/home/user/.config/cosmic-screensaver/logo.txt"
CURSOR_HIDE="false"
HIDE_MOUSE="true"
DISMISS_ON_KEY="false"
"#;

    let config = ScreensaverConfig::parse(content).ok().unwrap();
    assert!(config.enabled);
    assert_eq!(config.idle_timeout, 300);
    assert_eq!(config.lock_timeout, 600);
    assert!(!config.show_clock);
    assert!(config.logo_file.contains("logo.txt"));
    assert!(!config.cursor_hide);
    assert!(config.hide_mouse);
    assert!(!config.dismiss_on_key);
}

#[test]
fn test_parse_config_defaults_for_new_fields() {
    let content = r#"
ENABLED="true"
IDLE_TIMEOUT="300"
"#;
    let config = ScreensaverConfig::parse(content).ok().unwrap();
    assert!(config.cursor_hide);
    assert!(config.hide_mouse);
    assert!(config.dismiss_on_key);
    assert!(!config.session_lock);
}

fn full_config() -> ScreensaverConfig {
    ScreensaverConfig {
        enabled: true,
        idle_timeout: 300,
        lock_timeout: 600,
        dpms_timeout: 900,
        frame_rate: 120,
        include_effects: "matrix,rain".to_string(),
        exclude_effects: "dev_worm".to_string(),
        fade_in_effect: "fade".to_string(),
        fade_out_effect: "slide".to_string(),
        show_clock: true,
        clock_duration: 10,
        clock_format: "%H:%M:%S".to_string(),
        clock_font: "monospace".to_string(),
        logo_file: "/home/user/logo.txt".to_string(),
        disable_on_battery: true,
        battery_idle_timeout: 120,
        terminal: "cosmic-term".to_string(),
        effects_performance: "matrix,rain,fire".to_string(),
        effects_balanced: "matrix,rain".to_string(),
        effects_battery: "clock".to_string(),
        effects_minimal: "blank".to_string(),
        cursor_hide: false,
        hide_mouse: true,
        dismiss_on_key: false,
        session_lock: true,
    }
}

#[test]
fn test_serialize_roundtrip() {
    let config = full_config();

    let serialized = config.serialize();
    let parsed = ScreensaverConfig::parse(&serialized).ok().unwrap();

    assert_eq!(parsed.enabled, config.enabled);
    assert_eq!(parsed.idle_timeout, config.idle_timeout);
    assert_eq!(parsed.lock_timeout, config.lock_timeout);
    assert_eq!(parsed.dpms_timeout, config.dpms_timeout);
    assert_eq!(parsed.frame_rate, config.frame_rate);
    assert_eq!(parsed.include_effects, config.include_effects);
    assert_eq!(parsed.exclude_effects, config.exclude_effects);
    assert_eq!(parsed.fade_in_effect, config.fade_in_effect);
    assert_eq!(parsed.fade_out_effect, config.fade_out_effect);
    assert_eq!(parsed.show_clock, config.show_clock);
    assert_eq!(parsed.clock_duration, config.clock_duration);
    assert_eq!(parsed.clock_format, config.clock_format);
    assert_eq!(parsed.clock_font, config.clock_font);
    assert_eq!(parsed.logo_file, config.logo_file);
    assert_eq!(parsed.disable_on_battery, config.disable_on_battery);
    assert_eq!(parsed.battery_idle_timeout, config.battery_idle_timeout);
    assert_eq!(parsed.terminal, config.terminal);
    assert_eq!(parsed.effects_performance, config.effects_performance);
    assert_eq!(parsed.effects_balanced, config.effects_balanced);
    assert_eq!(parsed.effects_battery, config.effects_battery);
    assert_eq!(parsed.effects_minimal, config.effects_minimal);
    assert_eq!(parsed.cursor_hide, config.cursor_hide);
    assert_eq!(parsed.hide_mouse, config.hide_mouse);
    assert_eq!(parsed.dismiss_on_key, config.dismiss_on_key);
    assert_eq!(parsed.session_lock, config.session_lock);
}

const LAUNCHER: &str = "/usr/share/cosmic-order/screensaver/launch-fullscreen.sh";

#[test]
fn test_generate_swayidle_config_content() {
    let config = ScreensaverConfig {
        idle_timeout: 300,
        lock_timeout: 600,
        dpms_timeout: 900,
        ..ScreensaverConfig::default_config()
    };

    let content = config.generate_swayidle_config_content(LAUNCHER);

    assert!(content.contains("timeout 300 '"));
    assert!(content.contains("launch' resume '"));
    assert!(content.contains("kill'"));

    assert!(content.contains("timeout 900 'loginctl lock-session'"));

    assert!(content.contains("timeout 900 'cosmic-randr output \"*\" --off'"));
    assert!(content.contains("resume 'cosmic-randr output \"*\" --on'"));

    assert!(content.contains("before-sleep 'loginctl lock-session'"));
}

#[test]
fn test_generate_swayidle_config_no_lock_no_dpms() {
    let config = ScreensaverConfig {
        idle_timeout: 600,
        lock_timeout: 0,
        dpms_timeout: 0,
        ..ScreensaverConfig::default_config()
    };

    let content = config.generate_swayidle_config_content(LAUNCHER);

    assert!(content.contains("timeout 600 '"));

    let lines: Vec<&str> = content.lines().collect();
    let timeout_lines: Vec<&&str> = lines.iter().filter(|l| l.starts_with("timeout")).collect();
    assert_eq!(timeout_lines.len(), 1, "Only idle timeout line expected");

    assert!(content.contains("before-sleep 'loginctl lock-session'"));
}

fn page(config: ScreensaverConfig) -> ScreensaverPage {
    ScreensaverPage {
        config,
        session_lock_enabled: false,
        status: None,
        native_idle_active: false,
        idle_config: IdleSubscriptionConfig { screensaver_timeout_ms: 0, lock_timeout_ms: 0, enabled: false },
        compositor_backup: None,
    }
}

#[test]
fn idle_timeout_raises_lock_and_screen_off() {
    let mut p = page(ScreensaverConfig { idle_timeout: 300, lock_timeout: 400, dpms_timeout: 0, ..full_config() });
    p.update(ScreensaverMessage::SetIdleTimeout(500));
    assert_eq!((p.config.idle_timeout, p.config.lock_timeout, p.config.dpms_timeout), (500, 500, 0));
    p.update(ScreensaverMessage::SetLockTimeout(100));
    assert_eq!(p.config.lock_timeout, 500);
    p.update(ScreensaverMessage::SetLockTimeout(0));
    assert_eq!(p.config.lock_timeout, 0);
    p.update(ScreensaverMessage::SetDpmsTimeout(900));
    assert_eq!(p.config.dpms_timeout, 900);
}

#[test]
fn dropdowns_ignore_unknown_entries() {
    let mut p = page(full_config());
    p.update(ScreensaverMessage::SetFrameRate(0));
    assert_eq!(p.config.frame_rate, 30);
    p.update(ScreensaverMessage::SetFrameRate(7));
    assert_eq!(p.config.frame_rate, 30);
    p.update(ScreensaverMessage::SetClockFormat(2));
    assert_eq!(p.config.clock_format, "%I:%M %p");
    p.update(ScreensaverMessage::SetTerminal(1));
    assert_eq!(p.config.terminal, "ghostty");
    p.update(ScreensaverMessage::SetFadeInEffect(0));
    assert_eq!(p.config.fade_in_effect, "");
    p.update(ScreensaverMessage::SetBatteryIdleTimeout(3));
    assert_eq!(p.config.battery_idle_timeout, 1800);
    p.update(ScreensaverMessage::SetEffectsForProfile(EffectProfileSlot::Battery, "clock".to_string()));
    assert_eq!(p.config.effects_battery, "clock");
}

#[test]
fn save_then_test_flow() {
    let mut p = page(full_config());
    match p.update(ScreensaverMessage::SaveAndTest) {
        ScreensaverAction::Save { launch_test, restart_service, .. } => {
            assert!(launch_test);
            assert!(restart_service);
        }
        _ => panic!("expected a save"),
    }
    assert!(matches!(p.update(ScreensaverMessage::SaveComplete(Ok(()), true)), ScreensaverAction::StartTest));
    assert_eq!(p.status, Some(SaveStatus::Saved));
    assert_eq!(p.idle_config, IdleSubscriptionConfig { screensaver_timeout_ms: 300_000, lock_timeout_ms: 900_000, enabled: true });
    p.on_test_prepared(Some(CompositorBackup { autotile: Some(true), focus_follows_cursor: None }));
    assert!(matches!(p.update(ScreensaverMessage::SaveComplete(Ok(()), true)), ScreensaverAction::Nothing));
    p.update(ScreensaverMessage::ScreensaverTestExited(Ok(())));
    assert!(p.compositor_backup.is_none());
    p.update(ScreensaverMessage::SaveComplete(Err("x".to_string()), false));
    assert_eq!(p.status, Some(SaveStatus::Failed));
}

#[test]
fn idle_timeouts_saturate() {
    let c = ScreensaverConfig { enabled: true, idle_timeout: 5_000_000, lock_timeout: 0, ..full_config() };
    let i = compute_idle_config(&c);
    assert_eq!(i.screensaver_timeout_ms, u32::MAX);
    assert_eq!(i.lock_timeout_ms, 0);
    let off = ScreensaverConfig { enabled: false, ..full_config() };
    assert_eq!(compute_idle_config(&off).screensaver_timeout_ms, 0);
}

#[test]
fn lock_time_past_u32_saturates() {
    let c = ScreensaverConfig { enabled: true, idle_timeout: u32::MAX, lock_timeout: 10, ..full_config() };
    let i = compute_idle_config(&c);
    assert_eq!(i.lock_timeout_ms, u32::MAX);
    let mut p = page(c.clone());
    p.update(ScreensaverMessage::SaveComplete(Ok(()), false));
    assert_eq!(p.idle_config.lock_timeout_ms, u32::MAX);
}

#[test]
fn idle_events_drive_screensaver_and_lock() {
    let mut c = IdleControl::new(true);
    assert_eq!(c.on_event(&IdleEvent::Connected), IdleAction::StopSwayidle);
    assert_eq!(c.on_event(&IdleEvent::ScreensaverIdle), IdleAction::LaunchScreensaver);
    assert_eq!(c.on_screensaver_launched(LaunchOutcome::Spawned(42), 60), Some(60));
    assert_eq!(c.on_screensaver_launched(LaunchOutcome::Spawned(43), 60), None);
    assert_eq!(
        c.on_event(&IdleEvent::ScreensaverResumed),
        IdleAction::Resume { kill_screensaver: true, cancel_lock_timer: true }
    );
    assert_eq!(c.on_screensaver_launched(LaunchOutcome::LauncherMissing, 60), None);
    c.caffeine_active = true;
    assert_eq!(c.on_event(&IdleEvent::ScreensaverIdle), IdleAction::Nothing);
    assert_eq!(c.on_event(&IdleEvent::Error("gone".to_string())), IdleAction::RestartSwayidle);
    assert!(!c.native_idle_active);
}

#[test]
fn compositor_restore_undoes_disable() {
    let (backup, writes) = plan_disable(Some(true), Some(false));
    assert_eq!(writes, vec![(CompositorKey::Autotile, false)]);
    assert_eq!(
        restore_writes(&backup),
        vec![(CompositorKey::Autotile, true), (CompositorKey::FocusFollowsCursor, false)]
    );
    let (none, w) = plan_disable(None, None);
    assert!(w.is_empty());
    assert!(restore_writes(&none).is_empty());
}

#[test]
fn screen_off_time_round_trip() {
    assert_eq!(screen_off_seconds(Some(900_000)), 900);
    assert_eq!(screen_off_seconds(Some(1_500)), 1);
    assert_eq!(screen_off_seconds(None), 0);
    assert_eq!(screen_off_value(0), None);
    assert_eq!(screen_off_value(900), Some(900_000));
    assert_eq!(screen_off_seconds(screen_off_value(900)), 900);
    assert_eq!(screen_off_value(5_000_000), Some(u32::MAX));
}
