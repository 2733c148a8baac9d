use cosmic_order::cli::{
    background_ron, download_file_name, hooks_report, hooks_succeeded, theme_mode_name,
    ColorsOutput, HooksOutput,
};
use cosmic_order::colors::ColorPalette;
use cosmic_order::hooks::HookResults;
use cosmic_order::cli::wallpaper_request;
use cosmic_order::wallpaper_config::{
    thumb_path_for, wallpaper_extension, BgSource, CosmicBgEntry, FilterMethod, SamplingMethod,
    ScalingMode, ThemeWallpapers, WallpaperConfig,
};

#[test]
fn test_format_rotation() {
    let mut config = WallpaperConfig::default();

    config.rotation_enabled = false;
    assert_eq!(config.format_rotation(), "Disabled");

    config.rotation_enabled = true;
    config.rotation_frequency = 0;
    assert_eq!(config.format_rotation(), "Disabled");

    config.rotation_frequency = 30;
    assert_eq!(config.format_rotation(), "30 seconds");

    config.rotation_frequency = 60;
    assert_eq!(config.format_rotation(), "1 minute");

    config.rotation_frequency = 600;
    assert_eq!(config.format_rotation(), "10 minutes");

    config.rotation_frequency = 90;
    assert_eq!(config.format_rotation(), "1m 30s");
}

#[test]
fn test_scaling_mode_display() {
    assert_eq!(ScalingMode::Zoom.as_str(), "Zoom");
    assert_eq!(ScalingMode::Fit.as_str(), "Fit");
    assert_eq!(ScalingMode::Stretch.as_str(), "Stretch");
    assert_eq!(ScalingMode::Center.as_str(), "Center");
}

#[test]
fn test_to_bg_entry() {
    let mut config = WallpaperConfig::default();
    config.current_source = "/test/path.jpg".to_string();
    config.rotation_enabled = false;
    config.rotation_frequency = 600;

    let entry = config.to_bg_entry();
    assert_eq!(entry.rotation_frequency, 0);
    match &entry.source {
        BgSource::Path(p) => assert_eq!(p, "/test/path.jpg"),
    }
}

#[test]
fn test_parse_config_fallback() {
    let content = r#"
(
    output: "all",
    source: Path("/usr/share/backgrounds/gruvbox/1-gruvbox.png"),
    filter_by_theme: true,
    rotation_frequency: 300,
    scaling_mode: Fit,
)
"#;
    let mut config = WallpaperConfig::default();
    config.parse_cosmic_config(content, None);

    assert_eq!(
        config.current_source,
        "/usr/share/backgrounds/gruvbox/1-gruvbox.png"
    );
    assert_eq!(config.rotation_frequency, 300);
    assert!(config.filter_by_theme);
    assert_eq!(config.scaling_mode, ScalingMode::Fit);
}

#[test]
fn wallpaper_names_and_listing() {
    let mut config = WallpaperConfig::default();
    assert_eq!(config.current_wallpaper_name(), "None");
    config.current_source = "/usr/share/backgrounds/gruvbox/1-gruvbox.png".to_string();
    assert_eq!(config.current_wallpaper_name(), "1-gruvbox.png");
    assert_eq!(config.current_theme_name(), "gruvbox");
    config.insert_theme(ThemeWallpapers { name: "zen".to_string(), path: "/z".to_string(), count: 2, wallpapers: vec![] });
    config.insert_theme(ThemeWallpapers { name: "aqua".to_string(), path: "/a".to_string(), count: 3, wallpapers: vec![] });
    config.insert_theme(ThemeWallpapers { name: "zen".to_string(), path: "/z".to_string(), count: 4, wallpapers: vec![] });
    assert_eq!(config.theme_names(), vec!["aqua".to_string(), "zen".to_string()]);
    assert_eq!(config.total_wallpaper_count(), 7);
    assert!(wallpaper_extension("JPG"));
    assert!(wallpaper_extension("webp"));
    assert!(!wallpaper_extension("txt"));
    assert_eq!(thumb_path_for("/c", "/w/gruvbox/a.png"), "/c/gruvbox__a.png");
}

#[test]
fn test_colors_output_from_palette() {
    let palette = ColorPalette::sample();
    let output = ColorsOutput::from(&palette);
    assert_eq!(output.accent, "#63D1D6");
    assert_eq!(output.background, "#1B1B1B");
    assert_eq!(output.colors.len(), 16);
}

#[test]
fn test_hooks_output_from_results() {
    let results = HookResults {
        hooks_run: 5,
        hooks_succeeded: 3,
        hooks_failed: 1,
        hooks_timed_out: 1,
    };
    let output = HooksOutput::from(&results);
    assert_eq!(output.hooks_run, 5);
    assert_eq!(output.hooks_succeeded, 3);
    assert_eq!(output.hooks_failed, 1);
    assert_eq!(output.hooks_timed_out, 1);
}

#[test]
fn cli_decisions() {
    let ok = HookResults { hooks_run: 2, hooks_succeeded: 2, hooks_failed: 0, hooks_timed_out: 0 };
    let bad = HookResults { hooks_run: 2, hooks_succeeded: 1, hooks_failed: 0, hooks_timed_out: 1 };
    assert!(hooks_succeeded(&ok));
    assert!(!hooks_succeeded(&bad));
    assert_eq!(hooks_report(&bad), "  run: 2, succeeded: 1, failed: 0, timed_out: 1");
    assert_eq!(theme_mode_name(true), "dark");
    assert_eq!(download_file_name("/img/sunset%20sky.png"), "sunset_20sky.png");
    assert_eq!(download_file_name("/img/"), "downloaded-wallpaper.png");
    assert_eq!(download_file_name("/noext"), "downloaded-wallpaper.png");
    assert!(background_ron("/a\"b.png").is_err());
    let ron = background_ron("/home/u/w.png").ok().unwrap();
    assert!(ron.starts_with("(output: All, source: Path(\"/home/u/w.png\")"));
}

#[test]
fn background_entry_reads_back_as_written() {
    let mut written = WallpaperConfig::default();
    written.current_source = "/usr/share/backgrounds/nord/2.png".to_string();
    written.rotation_frequency = 300;
    written.scaling_mode = ScalingMode::Fit;
    written.filter_by_theme = false;
    let entry = written.to_bg_entry();
    let mut read = WallpaperConfig::default();
    read.apply_entry(entry);
    assert_eq!(read.current_source, written.current_source);
    assert_eq!(read.rotation_frequency, 300);
    assert!(read.rotation_enabled);
    assert_eq!(read.scaling_mode, ScalingMode::Fit);
    assert!(!read.filter_by_theme);

    // Rotation switched off is written as frequency 0 and read back off.
    written.rotation_enabled = false;
    let mut again = WallpaperConfig::default();
    again.apply_entry(written.to_bg_entry());
    assert_eq!(again.rotation_frequency, 0);
    assert!(!again.rotation_enabled);
}

#[test]
fn test_parse_config_ron() {
    let content = r#"(
    output: "all",
    source: Path("/usr/share/backgrounds/gruvbox/1-gruvbox.png"),
    filter_by_theme: true,
    rotation_frequency: 300,
    filter_method: Lanczos,
    scaling_mode: Fit,
    sampling_method: Random,
)"#;
    // The entry the settings file holds, as its RON reader gives it.
    let parsed = CosmicBgEntry {
        output: "all".to_string(),
        source: BgSource::Path("/usr/share/backgrounds/gruvbox/1-gruvbox.png".to_string()),
        filter_by_theme: true,
        rotation_frequency: 300,
        filter_method: FilterMethod::Lanczos,
        scaling_mode: ScalingMode::Fit,
        sampling_method: SamplingMethod::Random,
    };
    let mut config = WallpaperConfig::default();
    config.parse_cosmic_config(content, Some(parsed));

    assert_eq!(config.current_source, "/usr/share/backgrounds/gruvbox/1-gruvbox.png");
    assert_eq!(config.rotation_frequency, 300);
    assert_eq!(config.scaling_mode, ScalingMode::Fit);
    assert_eq!(config.filter_method, FilterMethod::Lanczos);
    assert_eq!(config.sampling_method, SamplingMethod::Random);
    assert!(config.filter_by_theme);
    assert!(config.rotation_enabled);
}

#[test]
fn set_wallpaper_keeps_other_settings() {
    let mut config = WallpaperConfig::default();
    config.scaling_mode = ScalingMode::Center;
    config.filter_by_theme = false;
    let entry = config.set_wallpaper("/w/a.png");
    assert_eq!(config.current_source, "/w/a.png");
    assert_eq!(config.scaling_mode, ScalingMode::Center);
    assert!(!config.filter_by_theme);
    assert_eq!(entry.output, "all");
    assert_eq!(entry.scaling_mode, ScalingMode::Center);
    assert!(!entry.filter_by_theme);
}

#[test]
fn theme_names_have_no_duplicates() {
    let mut config = WallpaperConfig::default();
    for (name, count) in [("nord", 2), ("gruvbox", 1), ("nord", 5)] {
        config.insert_theme(ThemeWallpapers {
            name: name.to_string(),
            path: format!("/usr/share/backgrounds/{name}"),
            count,
            wallpapers: Vec::new(),
        });
    }
    assert_eq!(config.theme_names(), vec!["gruvbox".to_string(), "nord".to_string()]);
}

#[test]
fn theme_names_are_listed_once_even_when_pushed_twice() {
    let mut config = WallpaperConfig::default();
    for name in ["nord", "dracula", "nord", "alpha"] {
        config.available_themes.push(ThemeWallpapers {
            name: name.to_string(),
            path: format!("/usr/share/backgrounds/{name}"),
            count: 1,
            wallpapers: Vec::new(),
        });
    }
    assert_eq!(
        config.theme_names(),
        vec!["alpha".to_string(), "dracula".to_string(), "nord".to_string()]
    );
}

#[test]
fn wallpaper_urls_are_checked_before_download() {
    assert_eq!(wallpaper_request("https://example.com/wall.png"), Ok("https://example.com/wall.png".to_string()));
    assert!(wallpaper_request("not a url").is_err());
}
