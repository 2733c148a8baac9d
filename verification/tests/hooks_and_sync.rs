use cosmic_order::colors::ColorPalette;
use cosmic_order::hooks::{build_env_vars, hook_name, should_run, HookResults, HookRun};
use cosmic_order::paths::{hooks_dir, UserDirs};
use cosmic_order::tool_sync::{
    live_summary, nvim_reload_label, is_nvim_socket, sync_plan, write_error, SyncResult, Tool,
    ToolSyncConfig,
};

fn dirs() -> UserDirs {
    UserDirs { config: "/home/user/.config".to_string(), home: "/home/user".to_string() }
}

#[test]
fn test_build_env_vars_count() {
    let palette = ColorPalette::sample();
    let vars = build_env_vars(&palette, "/tmp/colors.toml");
    assert_eq!(vars.len(), 23);
}

#[test]
fn test_build_env_vars_content() {
    let palette = ColorPalette::sample();
    let vars = build_env_vars(&palette, "/tmp/colors.toml");

    let find = |key: &str| vars.iter().find(|(k, _)| k == key).map(|(_, v)| v.as_str());

    assert_eq!(find("COSMIC_BG"), Some("#1B1B1B"));
    assert_eq!(find("COSMIC_FG"), Some("#FFFFFF"));
    assert_eq!(find("COSMIC_ACCENT"), Some("#63D1D6"));
    assert_eq!(find("COSMIC_CURSOR"), Some("#FFFFFF"));
    assert_eq!(find("COSMIC_SEL_FG"), Some("#1B1B1B"));
    assert_eq!(find("COSMIC_SEL_BG"), Some("#FFFFFF"));
    assert_eq!(find("COSMIC_COLOR0"), Some("#3B3B3B"));
    assert_eq!(find("COSMIC_COLOR15"), Some("#E8E8E8"));
    assert_eq!(find("COSMIC_COLORS_PATH"), Some("/tmp/colors.toml"));
}

#[test]
fn test_hooks_dir_path() {
    let dir = hooks_dir(&dirs());
    assert!(dir.contains("hooks.d"));
}

#[test]
fn test_hook_results_default() {
    let results = HookResults::default();
    assert_eq!(results.hooks_run, 0);
    assert_eq!(results.hooks_succeeded, 0);
    assert_eq!(results.hooks_failed, 0);
    assert_eq!(results.hooks_timed_out, 0);
}

#[test]
fn hook_tally_counts_every_run_once() {
    let mut r = HookResults::default();
    r.record(HookRun::Exited { success: true });
    r.record(HookRun::Exited { success: false });
    r.record(HookRun::SpawnError);
    r.record(HookRun::TimedOut);
    assert_eq!(r.hooks_run, 4);
    assert_eq!(r.hooks_succeeded, 1);
    assert_eq!(r.hooks_failed, 2);
    assert_eq!(r.hooks_timed_out, 1);
}

#[test]
fn hooks_run_only_when_executable() {
    assert!(should_run(Some(0o755)));
    assert!(should_run(Some(0o100)));
    assert!(!should_run(Some(0o644)));
    assert!(should_run(None));
    assert_eq!(hook_name("/x/hooks.d/10-reload.sh"), "10-reload.sh");
    assert_eq!(hook_name("/"), "unknown");
}

#[test]
fn test_default_config() {
    let config = ToolSyncConfig::default();
    assert!(config.ghostty_enabled);
    assert!(config.btop_enabled);
    assert!(config.nvim_enabled);
    assert_eq!(config.nvim_colorscheme, "tokyonight");
    assert!(config.zellij_enabled);
    assert!(config.fzf_enabled);
    assert!(!config.fzf_shell_integration);
    assert!(config.lazygit_enabled);
    assert!(config.hooks_enabled);
    assert!(!config.auto_sync);
}

#[test]
fn sync_order_puts_neovim_last() {
    let mut config = ToolSyncConfig::default();
    config.btop_enabled = false;
    assert_eq!(
        sync_plan(&config),
        vec![Tool::Ghostty, Tool::Zellij, Tool::Fzf, Tool::Lazygit, Tool::Neovim]
    );
    assert_eq!(write_error(Tool::Btop, "denied"), "Failed to write btop theme: denied");
}

#[test]
fn sync_summary_lists_everything() {
    let r = SyncResult {
        colors_path: "/c/colors.toml".to_string(),
        synced_tools: vec!["Ghostty".to_string(), "fzf".to_string()],
        hooks_result: Some(HookResults {
            hooks_run: 3,
            hooks_succeeded: 2,
            hooks_failed: 1,
            hooks_timed_out: 0,
        }),
    };
    assert_eq!(
        r.summary(),
        "colors.toml: /c/colors.toml, Ghostty: synced, fzf: synced, hooks: 2/3 ok"
    );
    let quiet = SyncResult {
        colors_path: "/c".to_string(),
        synced_tools: vec![],
        hooks_result: Some(HookResults::default()),
    };
    assert_eq!(quiet.summary(), "colors.toml: /c");
}

#[test]
fn live_reload_reporting() {
    assert_eq!(nvim_reload_label(0), None);
    assert_eq!(nvim_reload_label(1).as_deref(), Some("Neovim"));
    assert_eq!(nvim_reload_label(3).as_deref(), Some("Neovim (3)"));
    assert!(is_nvim_socket("nvim.1234.0"));
    assert!(!is_nvim_socket("nvim.1234.1"));
    assert_eq!(
        live_summary("s".to_string(), &vec!["Ghostty".to_string()], &vec![]),
        "s, live: Ghostty"
    );
}
