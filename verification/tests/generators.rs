use cosmic_order::bundled_themes::display_name_from_filename;
use cosmic_order::colors::ColorPalette;
use cosmic_order::generators::ghostty::{activate_config_text, generate_theme};
use cosmic_order::generators::lazygit::{generate_theme_block, update_config, MARKER};

#[test]
fn test_display_name_from_filename() {
    assert_eq!(display_name_from_filename("busy-bee.ron"), "Busy Bee");
    assert_eq!(display_name_from_filename("accent-dark.ron"), "Accent Dark");
    assert_eq!(
        display_name_from_filename("ubuntu-classic-dark.ron"),
        "Ubuntu Classic Dark"
    );
    assert_eq!(display_name_from_filename("monokai.ron"), "Monokai");
}

#[test]
fn test_generate_theme_format() {
    let palette = ColorPalette::sample();
    let theme = generate_theme(&palette);

    assert!(theme.contains("background = #1B1B1B"));
    assert!(theme.contains("foreground = #FFFFFF"));
    assert!(theme.contains("cursor-color = #FFFFFF"));
    assert!(theme.contains("selection-foreground = #1B1B1B"));
    assert!(theme.contains("selection-background = #FFFFFF"));
    assert!(theme.contains("palette = 0=#3B3B3B"));
    assert!(theme.contains("palette = 15=#E8E8E8"));

    let non_empty: Vec<&str> = theme.lines().filter(|l| !l.is_empty()).collect();
    assert_eq!(non_empty.len(), 21);
}

#[test]
fn test_no_font_settings() {
    let palette = ColorPalette::sample();
    let theme = generate_theme(&palette);

    assert!(!theme.contains("font-family"));
    assert!(!theme.contains("font-size"));
}

#[test]
fn test_generate_theme_block_format() {
    let palette = ColorPalette::sample();
    let block = generate_theme_block(&palette);

    assert!(block.starts_with(MARKER));
    assert!(block.contains("gui:"));
    assert!(block.contains("  theme:"));
    assert!(block.contains("activeBorderColor:"));
    assert!(block.contains("defaultFgColor:"));
}

#[test]
fn test_generate_theme_block_colors() {
    let palette = ColorPalette::sample();
    let block = generate_theme_block(&palette);

    assert!(block.contains("\"#63D1D6\""));
    assert!(block.contains("\"#5A5A5A\""));
    assert!(block.contains("\"#FF6B6B\""));
    assert!(block.contains("\"#6B9FFF\""));
    assert!(block.contains("\"#FFFFFF\""));
}

#[test]
fn test_generate_theme_block_has_11_keys() {
    let palette = ColorPalette::sample();
    let block = generate_theme_block(&palette);

    let key_lines: Vec<&str> = block
        .lines()
        .filter(|l| {
            let t = l.trim();
            t.ends_with(':') && t != "gui:" && t != "theme:"
        })
        .collect();
    assert_eq!(key_lines.len(), 11);
}

#[test]
fn test_update_config_fresh() {
    let block = "# COSMIC ORDER theme — auto-generated\ngui:\n  theme:\n    defaultFgColor:\n      - \"#FFFFFF\"";
    let result = update_config("", block);
    assert!(result.contains(MARKER));
    assert!(result.contains("defaultFgColor:"));
}

#[test]
fn test_update_config_preserves_other_settings() {
    let existing = "notATheme:\n  someSetting: true\n\nother: value\n";
    let block = "# COSMIC ORDER theme — auto-generated\ngui:\n  theme:\n    defaultFgColor:\n      - \"#FFFFFF\"";
    let result = update_config(existing, block);
    assert!(result.contains("notATheme:"));
    assert!(result.contains("someSetting: true"));
    assert!(result.contains("other: value"));
    assert!(result.contains(MARKER));
}

#[test]
fn test_update_config_replaces_old_block() {
    let existing = "someOther: true\n\n# COSMIC ORDER theme — auto-generated\ngui:\n  theme:\n    defaultFgColor:\n      - \"#000000\"\n\nanotherSetting: yes\n";
    let block = "# COSMIC ORDER theme — auto-generated\ngui:\n  theme:\n    defaultFgColor:\n      - \"#FFFFFF\"";
    let result = update_config(existing, block);

    assert!(result.contains("\"#FFFFFF\""));
    assert!(!result.contains("\"#000000\""));
    assert!(result.contains("someOther: true"));
    assert!(result.contains("anotherSetting: yes"));
}

#[test]
fn update_config_exact_layout() {
    let block = "# COSMIC ORDER theme — auto-generated\ngui:\n  x\n\n";
    assert_eq!(
        update_config("a: 1\n\n\n", block),
        "a: 1\n\n# COSMIC ORDER theme — auto-generated\ngui:\n  x\n"
    );
    assert_eq!(
        update_config("", block),
        "# COSMIC ORDER theme — auto-generated\ngui:\n  x\n"
    );
}

#[test]
fn update_config_twice_keeps_one_block() {
    let palette = ColorPalette::sample();
    let block = generate_theme_block(&palette);
    let once = update_config("editor: vim\n", &block);
    let twice = update_config(&once, &block);
    assert_eq!(once, twice);
    assert_eq!(twice.matches(MARKER).count(), 1);
}

#[test]
fn update_config_twice_with_carriage_returns() {
    let palette = ColorPalette::sample();
    let block = generate_theme_block(&palette);
    let once = update_config("a\rb: 1\r\nc: 2\r\n", &block);
    let twice = update_config(&once, &block);
    assert_eq!(once, twice);
    assert!(once.starts_with("a\rb: 1\nc: 2\n\n"));
    assert_eq!(once.lines().filter(|l| l.trim() == MARKER).count(), 1);
}

#[test]
fn update_config_ends_with_generated_block() {
    let palette = ColorPalette::sample();
    let block = generate_theme_block(&palette);
    let old = format!("a: 1\n{}\n  theme:\n    x: y\nb: 2\n", MARKER);
    let out = update_config(&old, &block);
    assert!(out.ends_with(&format!("{}\n", block.trim_end())));
    assert_eq!(out.lines().filter(|l| l.trim() == MARKER).count(), 1);
    assert!(out.starts_with("a: 1\nb: 2\n\n"));
}

#[test]
fn ghostty_activation_replaces_theme_and_drops_colors() {
    let cfg = "font-size = 12\ntheme = old\nbackground = #000000\npalette = 0=#111111\n";
    assert_eq!(
        activate_config_text(cfg),
        "font-size = 12\ntheme = cosmic-synced\n"
    );
    assert_eq!(
        activate_config_text("font-size = 12\n"),
        "font-size = 12\n\ntheme = cosmic-synced\n"
    );
}

#[test]
fn ghostty_activation_twice_with_carriage_returns() {
    let once = activate_config_text("font-family = a\rb\r\ntheme = old\r\n");
    assert_eq!(activate_config_text(&once), once);
}
