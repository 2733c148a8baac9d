use cosmic_order::applet::{applet_command, script_candidates, AppletCommand, AppletControl};
use cosmic_order::bundled_themes::{theme_at, themes_of_mode, BundledTheme};
use cosmic_order::colors::{hex_to_rgb, rgb_to_hex, Rgb};
use cosmic_order::logos::{collect_logos, is_logo_path};
use cosmic_order::power::{
    battery_reading, combine_power_state, profile_from_name, PowerProfile, PowerState,
};
use cosmic_order::screensaver_view::{
    battery_timeout_selected, clock_duration_selected, clock_format_selected,
    exclude_preset_selected, exclude_preset_value, fade_selected, frame_rate_selected,
    include_preset_selected, include_preset_value, nearest_tick, power_daemon_line,
    power_profile_line, power_status_line, terminal_selected, tick_seconds, timeout_label,
};
use cosmic_order::session_lock::{
    argb_pixel, buffer_layout, key_unlocks, lock_color, lock_global, lock_globals_check,
    sleep_event, LockGlobal, SessionLockEvent, SleepEvent,
};
use cosmic_order::sort::sort_strings;
use cosmic_order::text::LocalizedText;
use cosmic_order::wallpaper_config::ThumbnailCache;

fn args_of(t: &LocalizedText) -> Vec<(String, String)> {
    t.args.clone()
}

#[test]
fn dropdowns_select_known_entries() {
    assert_eq!(frame_rate_selected(60), Some(1));
    assert_eq!(frame_rate_selected(45), None);
    assert_eq!(fade_selected(""), Some(0));
    assert_eq!(fade_selected("slide"), Some(2));
    assert_eq!(clock_duration_selected(15), Some(3));
    assert_eq!(clock_format_selected("%I:%M %p"), Some(2));
    assert_eq!(terminal_selected("ghostty"), Some(1));
    assert_eq!(terminal_selected("kitty"), None);
    assert_eq!(battery_timeout_selected(900), Some(2));
}

#[test]
fn effect_presets_round_trip() {
    assert_eq!(exclude_preset_value(1), "dev_worm");
    assert_eq!(exclude_preset_selected("dev_worm"), Some(1));
    assert_eq!(include_preset_value(9), "");
    for i in 0..3 {
        assert_eq!(include_preset_selected(&include_preset_value(i)), Some(i));
        assert_eq!(exclude_preset_selected(&exclude_preset_value(i)), Some(i));
    }
    assert_eq!(include_preset_selected("rain"), None);
}

#[test]
fn timeout_sliders_snap_to_nearest_tick() {
    assert_eq!(nearest_tick(0), 0);
    assert_eq!(nearest_tick(600), 2);
    assert_eq!(nearest_tick(7 * 60), 1);
    assert_eq!(nearest_tick(40 * 60), 5);
    assert_eq!(nearest_tick(7200), 6);
    assert_eq!(tick_seconds(4), 1800);
    assert_eq!(tick_seconds(9), 0);
    for i in 0..7 {
        assert_eq!(nearest_tick(tick_seconds(i)), i);
    }
}

#[test]
fn timeout_labels() {
    let off = timeout_label(30);
    assert_eq!(off.id, "screensaver-timeout-disabled");
    assert!(off.args.is_empty());
    let five = timeout_label(300);
    assert_eq!(five.id, "timeout-minutes");
    assert_eq!(args_of(&five), vec![("minutes".to_string(), "5".to_string())]);
    let hours = timeout_label(5400);
    assert_eq!(hours.id, "timeout-hours");
    assert_eq!(args_of(&hours), vec![("hours".to_string(), "1".to_string())]);
}

#[test]
fn power_status_lines() {
    assert_eq!(power_status_line(None).id, "screensaver-power-status-unknown");
    let ac = PowerState::default();
    assert_eq!(power_status_line(Some(ac)).id, "screensaver-power-status-ac");
    let battery = PowerState {
        on_battery: true,
        battery_percent: Some(42),
        power_profile: PowerProfile::PowerSaver,
        has_system76_power: true,
    };
    let line = power_status_line(Some(battery));
    assert_eq!(line.id, "screensaver-power-status-battery");
    assert_eq!(args_of(&line), vec![("pct".to_string(), "42".to_string())]);
    let unknown_pct = PowerState { battery_percent: None, ..battery };
    assert_eq!(
        power_status_line(Some(unknown_pct)).id,
        "screensaver-power-status-battery-no-pct"
    );
    let profile = power_profile_line(battery);
    assert_eq!(args_of(&profile), vec![("profile".to_string(), "Power Saver".to_string())]);
    assert_eq!(power_daemon_line(battery).id, "screensaver-power-system76-yes");
    assert_eq!(power_daemon_line(ac).id, "screensaver-power-system76-no");
}

#[test]
fn power_readings_combine() {
    assert_eq!(profile_from_name("Performance"), PowerProfile::Performance);
    assert_eq!(profile_from_name("Battery"), PowerProfile::PowerSaver);
    assert_eq!(profile_from_name("Custom"), PowerProfile::Balanced);
    assert_eq!(battery_reading(0, Some(50)), None);
    assert_eq!(battery_reading(2, Some(50)), Some(50));
    let s = combine_power_state(Some((true, Some(40))), None);
    assert!(s.on_battery);
    assert_eq!(s.battery_percent, Some(40));
    assert_eq!(s.power_profile, PowerProfile::Balanced);
    assert!(!s.has_system76_power);
    let t = combine_power_state(None, Some(PowerProfile::Performance));
    assert!(!t.on_battery);
    assert_eq!(t.battery_percent, None);
    assert_eq!(t.power_profile, PowerProfile::Performance);
    assert!(t.has_system76_power);
}

#[test]
fn logos_are_deduplicated_and_sorted() {
    let paths = vec![
        "/usr/share/cosmic-order/screensaver/logos/cosmic-order.txt".to_string(),
        "/usr/share/cosmic-order/screensaver/logos/notes.md".to_string(),
        "/home/u/src/screensaver/logos/cosmic_order.txt".to_string(),
        "/home/u/src/screensaver/logos/arch.txt".to_string(),
    ];
    let logos = collect_logos(&paths);
    assert_eq!(
        logos,
        vec![
            ("Arch".to_string(), "/home/u/src/screensaver/logos/arch.txt".to_string()),
            (
                "Cosmic Order".to_string(),
                "/usr/share/cosmic-order/screensaver/logos/cosmic-order.txt".to_string()
            ),
        ]
    );
    assert!(is_logo_path("/a/b.txt"));
    assert!(!is_logo_path("/a/.txt"));
    assert!(!is_logo_path("/a/b.TXT"));
    assert!(!is_logo_path("/a/b"));
    assert!(collect_logos(&Vec::new()).is_empty());
}

#[test]
fn session_lock_decisions() {
    assert_eq!(lock_color("#ff0000"), Rgb { r: 255, g: 0, b: 0 });
    assert_eq!(lock_color("#12345"), Rgb { r: 27, g: 27, b: 27 });
    assert_eq!(argb_pixel(Rgb { r: 1, g: 2, b: 3 }), [3, 2, 1, 255]);
    assert_eq!(buffer_layout(1920, 1080), (7680, 8_294_400));
    assert_eq!(lock_global("wl_seat", true), None);
    assert_eq!(lock_global("wl_seat", false), Some(LockGlobal::Seat));
    assert_eq!(lock_global("wl_shm", false), Some(LockGlobal::Shm));
    assert_eq!(lock_global("ext_session_lock_manager_v1", true), Some(LockGlobal::LockManager));
    assert_eq!(lock_global("xdg_wm_base", false), None);
    assert!(!key_unlocks(true, false));
    assert!(key_unlocks(true, true));
    assert_eq!(
        lock_globals_check(false, false),
        Err("ext_session_lock_manager_v1 not available".to_string())
    );
    assert_eq!(lock_globals_check(true, false), Err("wl_compositor not available".to_string()));
    assert_eq!(lock_globals_check(true, true), Ok(()));
    assert_eq!(sleep_event(true), Some(SleepEvent::PrepareForSleep));
    assert_eq!(sleep_event(false), None);
    assert!(!SessionLockEvent::Locked.is_terminal());
    assert!(SessionLockEvent::Failed("denied".to_string()).is_terminal());
    assert!(SessionLockEvent::UnlockRequested.is_terminal());
}

#[test]
fn applet_controls_run_the_right_commands() {
    match applet_command(AppletControl::ToggleScreensaver(false)) {
        AppletCommand::Script { name, args } => {
            assert_eq!(name, "screensaver-ctl.sh");
            assert_eq!(args, vec!["disable".to_string()]);
        }
        other => panic!("unexpected command {other:?}"),
    }
    match applet_command(AppletControl::OpenSettings) {
        AppletCommand::Program { program, args } => {
            assert_eq!(program, "cosmic-order");
            assert_eq!(args, vec!["--page".to_string(), "screensaver".to_string()]);
        }
        other => panic!("unexpected command {other:?}"),
    }
    let c = script_candidates(Some("/opt/s".to_string()), "screensaver-ctl.sh");
    assert_eq!(
        c,
        vec![
            "/opt/s/screensaver-ctl.sh".to_string(),
            "/usr/share/cosmic-order/screensaver/screensaver-ctl.sh".to_string(),
            "/usr/local/share/cosmic-order/screensaver/screensaver-ctl.sh".to_string(),
        ]
    );
    assert_eq!(script_candidates(Some(String::new()), "x.sh").len(), 2);
}

#[test]
fn hex_colors_parse_and_format() {
    assert_eq!(hex_to_rgb("#1a2B3c"), Some(Rgb { r: 26, g: 43, b: 60 }));
    assert_eq!(hex_to_rgb("1a2b3c"), Some(Rgb { r: 26, g: 43, b: 60 }));
    assert_eq!(hex_to_rgb("#1a2b3"), None);
    assert_eq!(rgb_to_hex(Rgb { r: 26, g: 43, b: 60 }), "#1A2B3C");
    assert_eq!(hex_to_rgb("+F+F+F"), None);
    assert_eq!(hex_to_rgb("#ééé"), None);
    assert_eq!(hex_to_rgb("#aéaaa"), None);
    assert_eq!(hex_to_rgb("1é234"), None);
    assert_eq!(hex_to_rgb("##ff8000"), Some(Rgb { r: 255, g: 128, b: 0 }));
}

#[test]
fn strings_sort_by_code_point() {
    let v = vec!["b".to_string(), "a".to_string(), "B".to_string(), "ab".to_string()];
    assert_eq!(sort_strings(v), vec!["B", "a", "ab", "b"]);
}

#[test]
fn bundled_themes_by_mode() {
    let themes = vec![
        BundledTheme::new(0, "busy-bee.ron", true),
        BundledTheme::new(1, "paper.ron", false),
        BundledTheme::new(2, "night-owl.ron", true),
    ];
    assert_eq!(themes_of_mode(&themes, true), vec![0, 2]);
    assert_eq!(themes_of_mode(&themes, false), vec![1]);
    assert_eq!(theme_at(&themes, 2).map(|t| t.name.clone()).ok(), Some("Night Owl".to_string()));
    match theme_at(&themes, 5) {
        Err(e) => assert_eq!(e.message(), "Failed to access theme config: Invalid theme index: 5"),
        Ok(_) => panic!("index 5 is not in the registry"),
    }
}

#[test]
fn thumbnail_cache_paths() {
    let c = ThumbnailCache::new("/home/u/.cache");
    assert_eq!(c.cache_dir, "/home/u/.cache/cosmic-order/thumbnails");
    let thumb = "/home/u/.cache/cosmic-order/thumbnails/gruvbox__a.png".to_string();
    assert_eq!(c.thumb_path_for("/w/gruvbox/a.png"), thumb);
    assert_eq!(c.get_cached("/w/gruvbox/a.png", true, Some(false)), Some(thumb.clone()));
    assert_eq!(c.get_cached("/w/gruvbox/a.png", true, None), Some(thumb));
    assert_eq!(c.get_cached("/w/gruvbox/a.png", true, Some(true)), None);
    assert_eq!(c.get_cached("/w/gruvbox/a.png", false, None), None);
}
