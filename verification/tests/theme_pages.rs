use cosmic_order::colors::Rgb;
use cosmic_order::pages::{ThemesMessage, WizardMessage};
use cosmic_order::theme_config::{ThemeConfig, ThemeId, ThemePreview};
use cosmic_order::themes_page::{PreviewOutcome, SyncStatus, ThemesAction, ThemesPage};
use cosmic_order::tool_sync::ToolSyncConfig;
use cosmic_order::wizard::{
    accent_swatch_selected, BuilderSettings, WizardAction, WizardModel, WizardStep,
};

fn themes_page() -> ThemesPage {
    ThemesPage {
        theme: ThemeConfig { name: "COSMIC Dark".to_string(), is_dark: true },
        preview_backup: None,
        tool_sync: ToolSyncConfig::default(),
        sync_status: None,
    }
}

#[test]
fn wizard_steps_go_forward_and_back() {
    assert_eq!(WizardStep::Base.next(), Some(WizardStep::Colors));
    assert_eq!(WizardStep::Save.next(), None);
    assert_eq!(WizardStep::Colors.prev(), Some(WizardStep::Base));
    assert_eq!(WizardStep::Base.prev(), None);
    assert_eq!(WizardStep::Appearance.index(), 3);
    for s in [WizardStep::Base, WizardStep::Colors, WizardStep::Appearance] {
        assert_eq!(s.next().and_then(|n| n.prev()), Some(s));
    }
}

fn builder() -> BuilderSettings {
    BuilderSettings {
        accent: None,
        bg_color: Some(Rgb { r: 0x10, g: 0x20, b: 0x30 }),
        outer_gap: 8,
        inner_gap: 4,
        active_hint: 3,
        corner_preset: 2,
        is_frosted: false,
    }
}

#[test]
fn wizard_edits_the_builder() {
    let mut w = WizardModel::open(builder(), true);
    assert_eq!(w.accent_hex, "#63D0DE");
    assert_eq!(w.bg_hex, "#102030");
    assert!(w.bg_override);
    match w.update(WizardMessage::SetAccentPreset(0xFF5733)) {
        WizardAction::WriteBuilder { settings, is_dark, reload } => {
            assert_eq!(settings.accent, Some(Rgb { r: 0xFF, g: 0x57, b: 0x33 }));
            assert!(is_dark);
            assert!(reload);
        }
        _ => panic!("expected a write"),
    }
    assert_eq!(w.accent_hex, "#FF5733");
    assert_eq!(w.update(WizardMessage::SetAccentHex("zz".to_string())), WizardAction::Nothing);
    assert_eq!(w.accent_hex, "zz");
    match w.update(WizardMessage::SetOuterGap(12)) {
        WizardAction::WriteBuilder { settings, reload, .. } => {
            assert_eq!((settings.outer_gap, settings.inner_gap), (12, 4));
            assert!(!reload);
        }
        _ => panic!("expected a write"),
    }
    assert_eq!(w.update(WizardMessage::SetCornerPreset(9)), WizardAction::Nothing);
    assert_eq!(w.update(WizardMessage::SetBaseTheme(usize::MAX)), WizardAction::ApplyBase(None));
    w.update(WizardMessage::NextStep);
    assert_eq!(w.step, WizardStep::Colors);
    assert_eq!(w.update(WizardMessage::Apply), WizardAction::KeepAndClose);
}

#[test]
fn preview_then_cancel_restores_the_theme() {
    let mut p = themes_page();
    match p.update(ThemesMessage::PreviewTheme(ThemeId::Light)) {
        ThemesAction::Preview { id, take_snapshot } => {
            assert_eq!(id, ThemeId::Light);
            assert!(take_snapshot);
        }
        _ => panic!("expected a preview"),
    }
    p.begin_preview(ThemeId::Light, true);
    p.finish_preview(PreviewOutcome::Applied { name: "COSMIC Light".to_string(), is_dark: false });
    p.begin_preview(ThemeId::Bundled(3), false);
    p.finish_preview(PreviewOutcome::Applied { name: "Busy Bee".to_string(), is_dark: true });
    assert_eq!(p.theme.name, "Busy Bee");
    match p.update(ThemesMessage::CancelPreview) {
        ThemesAction::RestorePreview(b) => {
            assert!(b.has_snapshot);
            assert_eq!(b.previewing_id, ThemeId::Bundled(3));
            p.restored(b.config);
        }
        _ => panic!("expected a restore"),
    }
    assert_eq!(p.theme.name, "COSMIC Dark");
    assert!(p.theme.is_dark);
    assert!(p.preview_backup.is_none());
}

#[test]
fn failed_preview_drops_the_backup() {
    let mut p = themes_page();
    p.begin_preview(ThemeId::Dark, false);
    p.finish_preview(PreviewOutcome::Failed);
    assert!(p.preview_backup.is_none());
    assert!(matches!(p.update(ThemesMessage::CancelPreview), ThemesAction::Nothing));
}

#[test]
fn tool_switches_and_sync_status() {
    let mut p = themes_page();
    match p.update(ThemesMessage::SetBtopSync(false)) {
        ThemesAction::SaveToolSync(c) => assert!(!c.btop_enabled),
        _ => panic!("expected a save"),
    }
    assert!(!p.tool_sync.btop_enabled);
    p.update(ThemesMessage::SyncComplete(Ok(String::new())));
    assert_eq!(p.sync_status, None);
    p.update(ThemesMessage::SyncComplete(Ok("done".to_string())));
    assert_eq!(p.sync_status, Some(SyncStatus::Success));
    p.update(ThemesMessage::SyncTools);
    assert_eq!(p.sync_status, None);
    match p.update(ThemesMessage::Export) {
        ThemesAction::ChooseExportFile(n) => assert_eq!(n, "cosmic-dark.ron"),
        _ => panic!("expected an export"),
    }
}

#[test]
fn presets_and_export_names() {
    let preview = ThemePreview { id: ThemeId::HighContrastLight, name: "HC".to_string(), is_dark: false };
    assert!(!preview.apply());
    assert_eq!(ThemeConfig::default_export_filename("My Night Theme"), "my-night-theme.ron");
}

#[test]
fn accent_swatch_matches_in_any_case() {
    let blue = Rgb { r: 99, g: 208, b: 222 };
    assert!(accent_swatch_selected("#63D0DE", blue));
    assert!(accent_swatch_selected("#63d0de", blue));
    assert!(!accent_swatch_selected("#63D0DF", blue));
    assert!(!accent_swatch_selected("63D0DE", blue));
}

#[test]
fn test_color_to_rgb() {
    assert_eq!(ThemeConfig::color_to_rgb(Rgb { r: 255, g: 127, b: 0 }), "rgb(255, 127, 0)");
}

#[test]
fn wizard_keeps_unparsable_color_text() {
    let mut w = WizardModel::open(builder(), true);
    let before = w.builder;
    assert_eq!(w.update(WizardMessage::SetAccentHex("1é234".to_string())), WizardAction::Nothing);
    assert_eq!(w.accent_hex, "1é234");
    assert_eq!(w.builder, before);
    assert_eq!(w.update(WizardMessage::SetBgHex("+F+F+F".to_string())), WizardAction::Nothing);
    assert_eq!(w.bg_hex, "+F+F+F");
    assert_eq!(w.builder, before);
}
