//! The theme creation wizard: its steps, the values its controls edit,
//! and the theme-builder changes each control writes.
use vstd::prelude::*;
use crate::colors::{Rgb, hex_color, rgb_to_hex, unpack_rgb, hex_to_rgb, parse_hex};
use crate::pages::WizardMessage;
use crate::text::{
    LocalizedText, localized, string_from, chars_of, eq_ignore_ascii_case, range_eq_ignore_ascii_case,
};

verus! {

/// Wizard step identifiers.
#[derive(Clone, Copy, Debug, PartialEq, Eq, Structural)]
pub enum WizardStep {
    Base,
    Colors,
    Appearance,
    Save,
}

pub open spec fn step_number(s: WizardStep) -> u32 {
    match s {
        WizardStep::Base => 1,
        WizardStep::Colors => 2,
        WizardStep::Appearance => 3,
        WizardStep::Save => 4,
    }
}

impl WizardStep {
    /// The step's number, counted from one.
    pub fn index(self) -> (i: u32)
        ensures
            i == step_number(self),
    {
        match self {
            WizardStep::Base => 1,
            WizardStep::Colors => 2,
            WizardStep::Appearance => 3,
            WizardStep::Save => 4,
        }
    }

    /// The step's title.
    pub fn name(self) -> (t: LocalizedText)
        ensures
            t.id@ == match self {
                WizardStep::Base => "wizard-step-base"@,
                WizardStep::Colors => "wizard-step-colors"@,
                WizardStep::Appearance => "wizard-step-appearance"@,
                WizardStep::Save => "wizard-step-save"@,
            },
            t.args@.len() == 0,
    {
        match self {
            WizardStep::Base => localized("wizard-step-base"),
            WizardStep::Colors => localized("wizard-step-colors"),
            WizardStep::Appearance => localized("wizard-step-appearance"),
            WizardStep::Save => localized("wizard-step-save"),
        }
    }

    /// The step after this one; none after the last.
    pub fn next(self) -> (r: Option<WizardStep>)
        ensures
            r == next_step(self),
    {
        match self {
            WizardStep::Base => Some(WizardStep::Colors),
            WizardStep::Colors => Some(WizardStep::Appearance),
            WizardStep::Appearance => Some(WizardStep::Save),
            WizardStep::Save => None,
        }
    }

    /// The step before this one; none before the first.
    pub fn prev(self) -> (r: Option<WizardStep>)
        ensures
            r == prev_step(self),
    {
        match self {
            WizardStep::Base => None,
            WizardStep::Colors => Some(WizardStep::Base),
            WizardStep::Appearance => Some(WizardStep::Colors),
            WizardStep::Save => Some(WizardStep::Appearance),
        }
    }
}

pub open spec fn next_step(s: WizardStep) -> Option<WizardStep> {
    match s {
        WizardStep::Base => Some(WizardStep::Colors),
        WizardStep::Colors => Some(WizardStep::Appearance),
        WizardStep::Appearance => Some(WizardStep::Save),
        WizardStep::Save => None,
    }
}

pub open spec fn prev_step(s: WizardStep) -> Option<WizardStep> {
    match s {
        WizardStep::Base => None,
        WizardStep::Colors => Some(WizardStep::Base),
        WizardStep::Appearance => Some(WizardStep::Colors),
        WizardStep::Save => Some(WizardStep::Appearance),
    }
}

/// Going forward one step and back again returns to the same step, and
/// the other way round: `next` and `prev` undo each other. Each step moves
/// the step number by one; only the first step has no previous one and
/// only the last no next one.
pub proof fn lemma_next_prev_inverse(s: WizardStep, t: WizardStep)
    ensures
        next_step(s) == Some(t) <==> prev_step(t) == Some(s),
        next_step(s) == Some(t) ==> step_number(t) == step_number(s) + 1,
        next_step(s) is None <==> s == WizardStep::Save,
        prev_step(s) is None <==> s == WizardStep::Base,
{
}

/// Number of corner presets (sharp, subtle, rounded, very rounded).
pub const CORNER_PRESET_COUNT: usize = 4;

/// The corner preset assumed when the radii match none of the presets
/// ("rounded").
pub const DEFAULT_CORNER_PRESET: usize = 2;

/// The message key naming a corner preset.
pub fn corner_preset_label(i: usize) -> (r: Option<LocalizedText>)
    ensures
        match r {
            Some(t) => i < 4 && t.id@ == (if i == 0 {
                "wizard-corners-sharp"@
            } else if i == 1 {
                "wizard-corners-subtle"@
            } else if i == 2 {
                "wizard-corners-rounded"@
            } else {
                "wizard-corners-very-rounded"@
            }),
            None => i >= 4,
        },
{
    if i == 0 {
        Some(localized("wizard-corners-sharp"))
    } else if i == 1 {
        Some(localized("wizard-corners-subtle"))
    } else if i == 2 {
        Some(localized("wizard-corners-rounded"))
    } else if i == 3 {
        Some(localized("wizard-corners-very-rounded"))
    } else {
        None
    }
}

/// The theme-builder values the wizard edits (the builder's other values
/// stay as they were).
#[derive(Clone, Copy, Debug, PartialEq, Eq, Structural)]
pub struct BuilderSettings {
    pub accent: Option<Rgb>,
    pub bg_color: Option<Rgb>,
    pub outer_gap: u32,
    pub inner_gap: u32,
    pub active_hint: u32,
    /// Index of the corner preset whose radii the builder holds.
    pub corner_preset: usize,
    pub is_frosted: bool,
}

/// The accent color written when the builder has none.
pub open spec fn default_accent_hex() -> Seq<char> {
    "#63D0DE"@
}

/// The wizard's working state.
pub struct WizardModel {
    pub step: WizardStep,
    /// The builder values being edited.
    pub builder: BuilderSettings,
    /// Whether the working theme is dark.
    pub is_dark: bool,
    /// Name of the new theme.
    pub name: String,
    /// Text of the accent color field.
    pub accent_hex: String,
    /// Text of the background color field.
    pub bg_hex: String,
    /// Whether a custom background is set.
    pub bg_override: bool,
    pub outer_gap: u32,
    pub inner_gap: u32,
    pub active_hint: u32,
    pub corner_preset: usize,
    pub is_frosted: bool,
}

/// What the application does after a wizard message.
#[derive(Debug, PartialEq, Eq, Structural)]
pub enum WizardAction {
    Nothing,
    /// Put back the theme saved when the wizard opened, reload the theme
    /// settings, and close the wizard.
    RestoreAndClose,
    /// Apply the base theme: the bundled theme of that index, or with
    /// `None` the theme saved when the wizard opened; then report the
    /// builder read back.
    ApplyBase(Option<usize>),
    /// Set the desktop's dark mode, then report the builder read back.
    SetDarkMode(bool),
    /// Write the builder values for the given mode; reload the theme
    /// settings when `reload`.
    WriteBuilder { settings: BuilderSettings, is_dark: bool, reload: bool },
    /// Export the working theme under this name.
    Export,
    /// Keep the theme, reload the theme settings and close the wizard.
    KeepAndClose,
}

/// Text of a color field for an optional color.
fn hex_or(c: Option<Rgb>, fallback: &str) -> (s: String)
    ensures
        s@ == match c {
            Some(c) => hex_color(c),
            None => fallback@,
        },
{
    match c {
        Some(c) => rgb_to_hex(c),
        None => string_from(fallback),
    }
}

impl WizardModel {
    /// The wizard opened on the current theme's builder values.
    pub fn open(builder: BuilderSettings, is_dark: bool) -> (w: WizardModel)
        ensures
            w.step == WizardStep::Base,
            w.builder == builder,
            w.is_dark == is_dark,
            w.name@ == "My Custom Theme"@,
            w.accent_hex@ == match builder.accent {
                Some(c) => hex_color(c),
                None => default_accent_hex(),
            },
            w.bg_hex@ == match builder.bg_color {
                Some(c) => hex_color(c),
                None => Seq::<char>::empty(),
            },
            w.bg_override == builder.bg_color is Some,
            w.outer_gap == builder.outer_gap,
            w.inner_gap == builder.inner_gap,
            w.active_hint == builder.active_hint,
            w.corner_preset == builder.corner_preset,
            w.is_frosted == builder.is_frosted,
    {
        proof {
            reveal_strlit("");
        }
        WizardModel {
            step: WizardStep::Base,
            builder,
            is_dark,
            name: string_from("My Custom Theme"),
            accent_hex: hex_or(builder.accent, "#63D0DE"),
            bg_hex: hex_or(builder.bg_color, ""),
            bg_override: builder.bg_color.is_some(),
            outer_gap: builder.outer_gap,
            inner_gap: builder.inner_gap,
            active_hint: builder.active_hint,
            corner_preset: builder.corner_preset,
            is_frosted: builder.is_frosted,
        }
    }

    /// Take over the builder read back after a new base theme was applied.
    pub fn refresh_from(&mut self, builder: BuilderSettings, is_dark: bool)
        ensures
            final(self).step == old(self).step,
            final(self).name@ == old(self).name@,
            final(self).builder == builder,
            final(self).is_dark == is_dark,
            final(self).accent_hex@ == match builder.accent {
                Some(c) => hex_color(c),
                None => default_accent_hex(),
            },
            final(self).bg_hex@ == match builder.bg_color {
                Some(c) => hex_color(c),
                None => Seq::<char>::empty(),
            },
            final(self).bg_override == builder.bg_color is Some,
            final(self).outer_gap == builder.outer_gap,
            final(self).inner_gap == builder.inner_gap,
            final(self).active_hint == builder.active_hint,
            final(self).corner_preset == builder.corner_preset,
            final(self).is_frosted == builder.is_frosted,
    {
        proof {
            reveal_strlit("");
        }
        self.is_dark = is_dark;
        self.accent_hex = hex_or(builder.accent, "#63D0DE");
        self.bg_hex = hex_or(builder.bg_color, "");
        self.bg_override = builder.bg_color.is_some();
        self.outer_gap = builder.outer_gap;
        self.inner_gap = builder.inner_gap;
        self.active_hint = builder.active_hint;
        self.corner_preset = builder.corner_preset;
        self.is_frosted = builder.is_frosted;
        self.builder = builder;
    }

    /// Take over the builder of the other mode after the dark mode changed.
    pub fn replace_builder(&mut self, builder: BuilderSettings)
        ensures
            final(self).builder == builder,
            final(self).step == old(self).step,
            final(self).is_dark == old(self).is_dark,
            final(self).accent_hex@ == old(self).accent_hex@,
            final(self).bg_hex@ == old(self).bg_hex@,
    {
        self.builder = builder;
    }

    /// Apply one wizard message (other than opening the wizard).
    pub fn update(&mut self, msg: WizardMessage) -> (a: WizardAction)
        ensures
            final(self).step == (match msg {
                WizardMessage::NextStep => match old(self).step {
                    WizardStep::Base => WizardStep::Colors,
                    WizardStep::Colors => WizardStep::Appearance,
                    _ => WizardStep::Save,
                },
                WizardMessage::PrevStep => match old(self).step {
                    WizardStep::Save => WizardStep::Appearance,
                    WizardStep::Appearance => WizardStep::Colors,
                    _ => WizardStep::Base,
                },
                _ => old(self).step,
            }),
            final(self).name@ == (match msg {
                WizardMessage::SetName(n) => n@,
                _ => old(self).name@,
            }),
            final(self).is_dark == (match msg {
                WizardMessage::SetDarkMode(b) => b,
                _ => old(self).is_dark,
            }),
            final(self).accent_hex@ == (match msg {
                WizardMessage::SetAccentHex(h) => h@,
                WizardMessage::SetAccentPreset(p) => hex_color(unpack_spec(p)),
                _ => old(self).accent_hex@,
            }),
            final(self).bg_hex@ == (match msg {
                WizardMessage::SetBgHex(h) => h@,
                WizardMessage::SetBgOverride(false) => Seq::<char>::empty(),
                _ => old(self).bg_hex@,
            }),
            final(self).bg_override == (match msg {
                WizardMessage::SetBgOverride(b) => b,
                _ => old(self).bg_override,
            }),
            final(self).outer_gap == (match msg {
                WizardMessage::SetOuterGap(g) => g,
                _ => old(self).outer_gap,
            }),
            final(self).inner_gap == (match msg {
                WizardMessage::SetInnerGap(g) => g,
                _ => old(self).inner_gap,
            }),
            final(self).active_hint == (match msg {
                WizardMessage::SetActiveHint(h) => h,
                _ => old(self).active_hint,
            }),
            final(self).corner_preset == (match msg {
                WizardMessage::SetCornerPreset(i) => if i < 4 {
                    i
                } else {
                    old(self).corner_preset
                },
                _ => old(self).corner_preset,
            }),
            final(self).is_frosted == (match msg {
                WizardMessage::SetFrosted(b) => b,
                _ => old(self).is_frosted,
            }),
            final(self).builder == builder_after(old(self).builder, old(self).outer_gap, old(
                self,
            ).inner_gap, msg),
            a == action_after(old(self).builder, old(self).outer_gap, old(self).inner_gap, old(
                self,
            ).is_dark, msg),
    {
        let ghost m = msg;
        match msg {
            WizardMessage::Open => WizardAction::Nothing,
            WizardMessage::Close => WizardAction::RestoreAndClose,
            WizardMessage::NextStep => {
                if let Some(n) = self.step.next() {
                    self.step = n;
                }
                WizardAction::Nothing
            },
            WizardMessage::PrevStep => {
                if let Some(p) = self.step.prev() {
                    self.step = p;
                }
                WizardAction::Nothing
            },
            WizardMessage::SetBaseTheme(i) => {
                if i == usize::MAX {
                    WizardAction::ApplyBase(None)
                } else {
                    WizardAction::ApplyBase(Some(i))
                }
            },
            WizardMessage::SetDarkMode(b) => {
                self.is_dark = b;
                WizardAction::SetDarkMode(b)
            },
            WizardMessage::SetAccentHex(h) => {
                let parsed = hex_to_rgb(h.as_str());
                self.accent_hex = h;
                match parsed {
                    Some(c) => {
                        self.builder.accent = Some(c);
                        WizardAction::WriteBuilder {
                            settings: self.builder,
                            is_dark: self.is_dark,
                            reload: true,
                        }
                    },
                    None => WizardAction::Nothing,
                }
            },
            WizardMessage::SetAccentPreset(p) => {
                let c = unpack_rgb(p);
                self.accent_hex = rgb_to_hex(c);
                self.builder.accent = Some(c);
                WizardAction::WriteBuilder { settings: self.builder, is_dark: self.is_dark, reload: true }
            },
            WizardMessage::SetBgHex(h) => {
                let parsed = hex_to_rgb(h.as_str());
                self.bg_hex = h;
                match parsed {
                    Some(c) => {
                        self.builder.bg_color = Some(c);
                        WizardAction::WriteBuilder {
                            settings: self.builder,
                            is_dark: self.is_dark,
                            reload: true,
                        }
                    },
                    None => WizardAction::Nothing,
                }
            },
            WizardMessage::SetBgOverride(b) => {
                self.bg_override = b;
                if !b {
                    self.builder.bg_color = None;
                    self.bg_hex = String::new();
                    WizardAction::WriteBuilder {
                        settings: self.builder,
                        is_dark: self.is_dark,
                        reload: true,
                    }
                } else {
                    WizardAction::Nothing
                }
            },
            WizardMessage::SetOuterGap(g) => {
                self.outer_gap = g;
                self.builder.outer_gap = g;
                self.builder.inner_gap = self.inner_gap;
                WizardAction::WriteBuilder { settings: self.builder, is_dark: self.is_dark, reload: false }
            },
            WizardMessage::SetInnerGap(g) => {
                self.inner_gap = g;
                self.builder.outer_gap = self.outer_gap;
                self.builder.inner_gap = g;
                WizardAction::WriteBuilder { settings: self.builder, is_dark: self.is_dark, reload: false }
            },
            WizardMessage::SetActiveHint(h) => {
                self.active_hint = h;
                self.builder.active_hint = h;
                WizardAction::WriteBuilder { settings: self.builder, is_dark: self.is_dark, reload: false }
            },
            WizardMessage::SetCornerPreset(i) => {
                if i < CORNER_PRESET_COUNT {
                    self.corner_preset = i;
                    self.builder.corner_preset = i;
                    WizardAction::WriteBuilder {
                        settings: self.builder,
                        is_dark: self.is_dark,
                        reload: false,
                    }
                } else {
                    WizardAction::Nothing
                }
            },
            WizardMessage::SetFrosted(b) => {
                self.is_frosted = b;
                self.builder.is_frosted = b;
                WizardAction::WriteBuilder { settings: self.builder, is_dark: self.is_dark, reload: false }
            },
            WizardMessage::SetName(n) => {
                self.name = n;
                WizardAction::Nothing
            },
            WizardMessage::Export => WizardAction::Export,
            WizardMessage::ExportComplete(_) => WizardAction::Nothing,
            WizardMessage::Apply => WizardAction::KeepAndClose,
        }
    }
}

pub open spec fn unpack_spec(p: u32) -> Rgb {
    Rgb { r: ((p / 65536) % 256) as u8, g: ((p / 256) % 256) as u8, b: (p % 256) as u8 }
}

/// The builder values after a wizard message, from the values before and
/// the gap fields.
pub open spec fn builder_after(b: BuilderSettings, outer: u32, inner: u32, m: WizardMessage) -> BuilderSettings {
    match m {
        WizardMessage::SetAccentHex(h) => match parse_hex(h@) {
            Some(c) => BuilderSettings { accent: Some(c), ..b },
            None => b,
        },
        WizardMessage::SetAccentPreset(p) => BuilderSettings { accent: Some(unpack_spec(p)), ..b },
        WizardMessage::SetBgHex(h) => match parse_hex(h@) {
            Some(c) => BuilderSettings { bg_color: Some(c), ..b },
            None => b,
        },
        WizardMessage::SetBgOverride(false) => BuilderSettings { bg_color: None, ..b },
        WizardMessage::SetOuterGap(g) => BuilderSettings { outer_gap: g, inner_gap: inner, ..b },
        WizardMessage::SetInnerGap(g) => BuilderSettings { outer_gap: outer, inner_gap: g, ..b },
        WizardMessage::SetActiveHint(h) => BuilderSettings { active_hint: h, ..b },
        WizardMessage::SetCornerPreset(i) => if i < 4 {
            BuilderSettings { corner_preset: i, ..b }
        } else {
            b
        },
        WizardMessage::SetFrosted(f) => BuilderSettings { is_frosted: f, ..b },
        _ => b,
    }
}

/// The action of a wizard message.
pub open spec fn action_after(
    b: BuilderSettings,
    outer: u32,
    inner: u32,
    is_dark: bool,
    m: WizardMessage,
) -> WizardAction {
    let nb = builder_after(b, outer, inner, m);
    match m {
        WizardMessage::Close => WizardAction::RestoreAndClose,
        WizardMessage::SetBaseTheme(i) => WizardAction::ApplyBase(
            if i == usize::MAX {
                None
            } else {
                Some(i)
            },
        ),
        WizardMessage::SetDarkMode(d) => WizardAction::SetDarkMode(d),
        WizardMessage::SetAccentHex(h) => if parse_hex(h@) is Some {
            WizardAction::WriteBuilder { settings: nb, is_dark, reload: true }
        } else {
            WizardAction::Nothing
        },
        WizardMessage::SetAccentPreset(_) => WizardAction::WriteBuilder {
            settings: nb,
            is_dark,
            reload: true,
        },
        WizardMessage::SetBgHex(h) => if parse_hex(h@) is Some {
            WizardAction::WriteBuilder { settings: nb, is_dark, reload: true }
        } else {
            WizardAction::Nothing
        },
        WizardMessage::SetBgOverride(false) => WizardAction::WriteBuilder {
            settings: nb,
            is_dark,
            reload: true,
        },
        WizardMessage::SetOuterGap(_) => WizardAction::WriteBuilder {
            settings: nb,
            is_dark,
            reload: false,
        },
        WizardMessage::SetInnerGap(_) => WizardAction::WriteBuilder {
            settings: nb,
            is_dark,
            reload: false,
        },
        WizardMessage::SetActiveHint(_) => WizardAction::WriteBuilder {
            settings: nb,
            is_dark,
            reload: false,
        },
        WizardMessage::SetCornerPreset(i) => if i < 4 {
            WizardAction::WriteBuilder { settings: nb, is_dark, reload: false }
        } else {
            WizardAction::Nothing
        },
        WizardMessage::SetFrosted(_) => WizardAction::WriteBuilder {
            settings: nb,
            is_dark,
            reload: false,
        },
        WizardMessage::Export => WizardAction::Export,
        WizardMessage::Apply => WizardAction::KeepAndClose,
        _ => WizardAction::Nothing,
    }
}

/// Whether an accent swatch shows as selected: the accent field holds the
/// swatch's `#RRGGBB` text, in either case.
pub fn accent_swatch_selected(accent_hex: &str, swatch: Rgb) -> (b: bool)
    ensures
        b == eq_ignore_ascii_case(accent_hex@, hex_color(swatch)),
{
    let a = chars_of(accent_hex);
    let h = rgb_to_hex(swatch);
    let t = chars_of(h.as_str());
    assert(a@.subrange(0, a@.len() as int) == a@);
    range_eq_ignore_ascii_case(a.as_slice(), 0, a.len(), t.as_slice())
}

} // verus!
