//! The visuals page: previewing themes with confirm and cancel, the tool
//! sync switches, and running a sync.
use vstd::prelude::*;
use crate::theme_config::{ThemeId, ThemeConfig, ThemeView};
use crate::tool_sync::{ToolSyncConfig, same_config};
use crate::pages::ThemesMessage;
use crate::text::{LocalizedText, localized, str_lowercase, replace_char, is_ascii, ascii_lower};

verus! {

/// What the page saved before the first preview, to go back to on cancel.
pub struct ThemePreviewState {
    /// The theme settings before the first preview.
    pub config: ThemeConfig,
    /// The theme being previewed.
    pub previewing_id: ThemeId,
    /// A full snapshot of the theme was saved (otherwise only the dark
    /// mode can be restored).
    pub has_snapshot: bool,
}

/// Model of a preview backup.
pub struct BackupView {
    pub config: ThemeView,
    pub previewing_id: ThemeId,
    pub has_snapshot: bool,
}

/// Model of the preview state of the page.
pub struct PreviewView {
    pub theme: ThemeView,
    pub backup: Option<BackupView>,
}

/// How applying a previewed theme went.
pub enum PreviewOutcome {
    /// The theme could not be applied.
    Failed,
    /// The theme was applied; its name and mode.
    Applied { name: String, is_dark: bool },
    /// The theme was applied or nothing was to apply, and nothing is known
    /// of it (no such theme).
    Unknown,
}

/// Model of a preview outcome.
pub enum OutcomeView {
    Failed,
    Applied(Seq<char>, bool),
    Unknown,
}

pub open spec fn outcome_view(o: PreviewOutcome) -> OutcomeView {
    match o {
        PreviewOutcome::Failed => OutcomeView::Failed,
        PreviewOutcome::Applied { name, is_dark } => OutcomeView::Applied(name@, is_dark),
        PreviewOutcome::Unknown => OutcomeView::Unknown,
    }
}

/// Starting a preview: the first one saves the current theme, a later
/// one only changes the theme being previewed.
pub open spec fn begin_spec(v: PreviewView, id: ThemeId, has_snapshot: bool) -> PreviewView {
    PreviewView {
        theme: v.theme,
        backup: Some(
            match v.backup {
                None => BackupView { config: v.theme, previewing_id: id, has_snapshot },
                Some(b) => BackupView { previewing_id: id, ..b },
            },
        ),
    }
}

/// After applying the previewed theme: a failure drops the backup, an
/// applied theme is shown.
pub open spec fn finish_spec(v: PreviewView, o: OutcomeView) -> PreviewView {
    match o {
        OutcomeView::Failed => PreviewView { theme: v.theme, backup: None },
        OutcomeView::Applied(name, is_dark) => PreviewView {
            theme: ThemeView { name, is_dark },
            backup: v.backup,
        },
        OutcomeView::Unknown => v,
    }
}

/// A series of previews, each started and then applied.
pub open spec fn previews(v: PreviewView, steps: Seq<(ThemeId, bool, OutcomeView)>) -> PreviewView
    decreases steps.len(),
{
    if steps.len() == 0 {
        v
    } else {
        let w = previews(v, steps.drop_last());
        let s = steps.last();
        finish_spec(begin_spec(w, s.0, s.1), s.2)
    }
}

/// After any series of previews that all applied, the backup holds the
/// theme from before the first preview (and whether a snapshot was taken
/// then), and names the last previewed theme: cancelling goes back to the
/// theme the user had.
pub proof fn lemma_previews_keep_saved_theme(v: PreviewView, steps: Seq<(ThemeId, bool, OutcomeView)>)
    requires
        v.backup is None,
        steps.len() > 0,
        forall|i: int| 0 <= i < steps.len() ==> !(#[trigger] steps[i].2 is Failed),
    ensures
        previews(v, steps).backup == Some(
            BackupView { config: v.theme, previewing_id: steps.last().0, has_snapshot: steps[0].1 },
        ),
    decreases steps.len(),
{
    reveal_with_fuel(previews, 2);
    if steps.len() > 1 {
        let init = steps.drop_last();
        assert forall|i: int| 0 <= i < init.len() implies !(#[trigger] init[i].2 is Failed) by {
            assert(init[i] == steps[i]);
        }
        lemma_previews_keep_saved_theme(v, init);
        assert(init[0] == steps[0]);
    } else {
        assert(steps.drop_last().len() == 0);
    }
    assert(!(steps[steps.len() - 1].2 is Failed));
}

/// Outcome of the last sync, shown on the page.
#[derive(Clone, Copy, Debug, PartialEq, Eq, Structural)]
pub enum SyncStatus {
    Success,
    Error,
}

impl SyncStatus {
    /// The message shown for the outcome.
    pub fn message(self) -> (t: LocalizedText)
        ensures
            t.id@ == match self {
                SyncStatus::Success => "tool-sync-success"@,
                SyncStatus::Error => "tool-sync-error"@,
            },
            t.args@.len() == 0,
    {
        match self {
            SyncStatus::Success => localized("tool-sync-success"),
            SyncStatus::Error => localized("tool-sync-error"),
        }
    }
}

/// What the application does after a message of the page.
pub enum ThemesAction {
    Nothing,
    /// Ask for a file to export the theme to, offering this name.
    ChooseExportFile(String),
    /// Ask for a theme file to import.
    ChooseImportFile,
    /// Read the theme settings again.
    ReloadThemeSettings,
    /// Preview the theme: save a snapshot of the current theme first when
    /// `take_snapshot`, then apply it.
    Preview { id: ThemeId, take_snapshot: bool },
    /// Put back the theme saved before the preview.
    RestorePreview(ThemePreviewState),
    /// Save the tool sync switches.
    SaveToolSync(ToolSyncConfig),
    /// Save the switches, then add (or remove) the fzf line of the shell's
    /// rc files.
    SaveWithShellIntegration(ToolSyncConfig, bool),
    /// Run a sync of the enabled tools.
    Sync(ToolSyncConfig),
    /// A wizard message, for the wizard to handle.
    Wizard,
}

/// The state the visuals page works on.
pub struct ThemesPage {
    /// The theme settings shown.
    pub theme: ThemeConfig,
    /// Present while a preview is shown.
    pub preview_backup: Option<ThemePreviewState>,
    pub tool_sync: ToolSyncConfig,
    /// Outcome of the last sync, cleared when a new one starts.
    pub sync_status: Option<SyncStatus>,
}

pub open spec fn backup_view(b: Option<ThemePreviewState>) -> Option<BackupView> {
    match b {
        Some(b) => Some(
            BackupView { config: b.config@, previewing_id: b.previewing_id, has_snapshot: b.has_snapshot },
        ),
        None => None,
    }
}

/// The tool sync switches after a switch message.
pub open spec fn switches_after(c: ToolSyncConfig, d: ToolSyncConfig, m: ThemesMessage) -> bool {
    match m {
        ThemesMessage::SetGhosttySync(b) => same_config(d, ToolSyncConfig { ghostty_enabled: b, ..c }),
        ThemesMessage::SetBtopSync(b) => same_config(d, ToolSyncConfig { btop_enabled: b, ..c }),
        ThemesMessage::SetNvimSync(b) => same_config(d, ToolSyncConfig { nvim_enabled: b, ..c }),
        ThemesMessage::SetZellijSync(b) => same_config(d, ToolSyncConfig { zellij_enabled: b, ..c }),
        ThemesMessage::SetFzfSync(b) => same_config(d, ToolSyncConfig { fzf_enabled: b, ..c }),
        ThemesMessage::SetFzfShellIntegration(b) => same_config(
            d,
            ToolSyncConfig { fzf_shell_integration: b, ..c },
        ),
        ThemesMessage::SetLazygitSync(b) => same_config(d, ToolSyncConfig { lazygit_enabled: b, ..c }),
        ThemesMessage::SetHooksEnabled(b) => same_config(d, ToolSyncConfig { hooks_enabled: b, ..c }),
        ThemesMessage::SetAutoSync(b) => same_config(d, ToolSyncConfig { auto_sync: b, ..c }),
        _ => same_config(d, c),
    }
}

fn apply_switch(c: &mut ToolSyncConfig, m: &ThemesMessage)
    ensures
        switches_after(*old(c), *final(c), *m),
{
    match m {
        ThemesMessage::SetGhosttySync(b) => {
            c.ghostty_enabled = *b;
        },
        ThemesMessage::SetBtopSync(b) => {
            c.btop_enabled = *b;
        },
        ThemesMessage::SetNvimSync(b) => {
            c.nvim_enabled = *b;
        },
        ThemesMessage::SetZellijSync(b) => {
            c.zellij_enabled = *b;
        },
        ThemesMessage::SetFzfSync(b) => {
            c.fzf_enabled = *b;
        },
        ThemesMessage::SetFzfShellIntegration(b) => {
            c.fzf_shell_integration = *b;
        },
        ThemesMessage::SetLazygitSync(b) => {
            c.lazygit_enabled = *b;
        },
        ThemesMessage::SetHooksEnabled(b) => {
            c.hooks_enabled = *b;
        },
        ThemesMessage::SetAutoSync(b) => {
            c.auto_sync = *b;
        },
        _ => {},
    }
}

impl ThemesPage {
    pub open spec fn preview_view(&self) -> PreviewView {
        PreviewView { theme: self.theme@, backup: backup_view(self.preview_backup) }
    }

    /// Apply one message of the page.
    #[verifier::rlimit(40)]
    pub fn update(&mut self, msg: ThemesMessage) -> (a: ThemesAction)
        ensures
            switches_after(old(self).tool_sync, final(self).tool_sync, msg),
            final(self).sync_status == (match msg {
                ThemesMessage::SyncTools => None,
                ThemesMessage::SyncComplete(Ok(s)) => if s@.len() > 0 {
                    Some(SyncStatus::Success)
                } else {
                    old(self).sync_status
                },
                ThemesMessage::SyncComplete(Err(_)) => Some(SyncStatus::Error),
                _ => old(self).sync_status,
            }),
            final(self).theme@ == old(self).theme@,
            backup_view(final(self).preview_backup) == (match msg {
                ThemesMessage::ConfirmPreview => None,
                ThemesMessage::CancelPreview => None,
                _ => backup_view(old(self).preview_backup),
            }),
            (msg is Export && is_ascii(old(self).theme.name@)) ==> (a matches ThemesAction::ChooseExportFile(
                n,
            ) && n@ == replace_char(old(self).theme.name@.map_values(|c: char| ascii_lower(c)), ' ', '-')
                + ".ron"@),
            match msg {
                ThemesMessage::Export => a matches ThemesAction::ChooseExportFile(n) && n@ == replace_char(
                    str_lowercase(old(self).theme.name@),
                    ' ',
                    '-',
                ) + ".ron"@,
                ThemesMessage::Import => a is ChooseImportFile,
                ThemesMessage::ImportComplete(Ok(_)) => a is ReloadThemeSettings,
                ThemesMessage::PreviewTheme(id) => a == (ThemesAction::Preview {
                    id,
                    take_snapshot: old(self).preview_backup is None,
                }),
                ThemesMessage::CancelPreview => match old(self).preview_backup {
                    Some(b) => a matches ThemesAction::RestorePreview(r) && backup_view(Some(r))
                        == backup_view(Some(b)),
                    None => a is Nothing,
                },
                ThemesMessage::SetFzfShellIntegration(b) => a matches ThemesAction::SaveWithShellIntegration(
                    c,
                    e,
                ) && e == b && same_config(c, final(self).tool_sync),
                ThemesMessage::SyncTools => a matches ThemesAction::Sync(c) && same_config(
                    c,
                    final(self).tool_sync,
                ),
                ThemesMessage::Wizard(_) => a is Wizard,
                ThemesMessage::SetGhosttySync(_) | ThemesMessage::SetBtopSync(_)
                | ThemesMessage::SetNvimSync(_) | ThemesMessage::SetZellijSync(_)
                | ThemesMessage::SetFzfSync(_) | ThemesMessage::SetLazygitSync(_)
                | ThemesMessage::SetHooksEnabled(_) | ThemesMessage::SetAutoSync(
                    _,
                ) => a matches ThemesAction::SaveToolSync(c) && same_config(c, final(self).tool_sync),
                _ => a is Nothing,
            },
    {
        match msg {
            ThemesMessage::Export => {
                ThemesAction::ChooseExportFile(ThemeConfig::default_export_filename(self.theme.name.as_str()))
            },
            ThemesMessage::ExportComplete(_) => ThemesAction::Nothing,
            ThemesMessage::Import => ThemesAction::ChooseImportFile,
            ThemesMessage::ImportComplete(r) => {
                match r {
                    Ok(_) => ThemesAction::ReloadThemeSettings,
                    Err(_) => ThemesAction::Nothing,
                }
            },
            ThemesMessage::PreviewTheme(id) => ThemesAction::Preview {
                id,
                take_snapshot: self.preview_backup.is_none(),
            },
            ThemesMessage::ConfirmPreview => {
                self.preview_backup = None;
                ThemesAction::Nothing
            },
            ThemesMessage::CancelPreview => {
                match self.preview_backup.take() {
                    Some(b) => ThemesAction::RestorePreview(b),
                    None => ThemesAction::Nothing,
                }
            },
            ThemesMessage::SetFzfShellIntegration(b) => {
                apply_switch(&mut self.tool_sync, &msg);
                ThemesAction::SaveWithShellIntegration(self.tool_sync.clone(), b)
            },
            ThemesMessage::SetGhosttySync(_) | ThemesMessage::SetBtopSync(_)
            | ThemesMessage::SetNvimSync(_) | ThemesMessage::SetZellijSync(_)
            | ThemesMessage::SetFzfSync(_) | ThemesMessage::SetLazygitSync(_)
            | ThemesMessage::SetHooksEnabled(_) | ThemesMessage::SetAutoSync(_) => {
                apply_switch(&mut self.tool_sync, &msg);
                ThemesAction::SaveToolSync(self.tool_sync.clone())
            },
            ThemesMessage::SyncTools => {
                self.sync_status = None;
                ThemesAction::Sync(self.tool_sync.clone())
            },
            ThemesMessage::SyncComplete(r) => {
                match r {
                    Ok(s) => {
                        if !s.as_str().is_empty() {
                            self.sync_status = Some(SyncStatus::Success);
                        }
                    },
                    Err(_) => {
                        self.sync_status = Some(SyncStatus::Error);
                    },
                }
                ThemesAction::Nothing
            },
            ThemesMessage::Wizard(_) => ThemesAction::Wizard,
        }
    }

    /// Start showing a preview (after the snapshot, if one was asked for,
    /// was attempted): the first preview saves the shown theme.
    pub fn begin_preview(&mut self, id: ThemeId, has_snapshot: bool)
        ensures
            final(self).preview_view() == begin_spec(old(self).preview_view(), id, has_snapshot),
            same_config(final(self).tool_sync, old(self).tool_sync),
            final(self).sync_status == old(self).sync_status,
    {
        match self.preview_backup.take() {
            None => {
                self.preview_backup = Some(
                    ThemePreviewState { config: self.theme.clone(), previewing_id: id, has_snapshot },
                );
            },
            Some(b) => {
                self.preview_backup = Some(
                    ThemePreviewState { config: b.config, previewing_id: id, has_snapshot: b.has_snapshot },
                );
            },
        }
    }

    /// The previewed theme was applied, or not.
    pub fn finish_preview(&mut self, outcome: PreviewOutcome)
        ensures
            final(self).preview_view() == finish_spec(old(self).preview_view(), outcome_view(outcome)),
            same_config(final(self).tool_sync, old(self).tool_sync),
            final(self).sync_status == old(self).sync_status,
    {
        match outcome {
            PreviewOutcome::Failed => {
                self.preview_backup = None;
            },
            PreviewOutcome::Applied { name, is_dark } => {
                self.theme = ThemeConfig { name, is_dark };
            },
            PreviewOutcome::Unknown => {},
        }
    }

    /// The theme from before the preview was put back: show it.
    pub fn restored(&mut self, config: ThemeConfig)
        ensures
            final(self).theme@ == config@,
            backup_view(final(self).preview_backup) == backup_view(old(self).preview_backup),
            same_config(final(self).tool_sync, old(self).tool_sync),
            final(self).sync_status == old(self).sync_status,
    {
        self.theme = config;
    }

    /// Leave the preview without asking (navigation, wizard, exit): the
    /// saved theme is shown again and returned for restoring.
    pub fn abandon_preview(&mut self) -> (r: Option<ThemePreviewState>)
        ensures
            backup_view(r) == backup_view(old(self).preview_backup),
            final(self).preview_backup is None,
            final(self).theme@ == (match old(self).preview_backup {
                Some(b) => b.config@,
                None => old(self).theme@,
            }),
            same_config(final(self).tool_sync, old(self).tool_sync),
            final(self).sync_status == old(self).sync_status,
    {
        match self.preview_backup.take() {
            Some(b) => {
                self.theme = b.config.clone();
                Some(b)
            },
            None => None,
        }
    }
}

} // verus!
