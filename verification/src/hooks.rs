//! User hooks run after a theme sync: the environment each hook receives,
//! which files are run, and the tally of how the runs ended.
use vstd::prelude::*;
use crate::colors::ColorPalette;
use crate::text::{chars_of, dec, push_u32, string_from};
use crate::paths::{file_name, file_name_range, string_of_range};

verus! {

/// How many hooks were run and how each run ended.
#[derive(Clone, Copy, Debug, PartialEq, Eq, Structural)]
pub struct HookResults {
    pub hooks_run: u32,
    pub hooks_succeeded: u32,
    pub hooks_failed: u32,
    pub hooks_timed_out: u32,
}

impl Default for HookResults {
    fn default() -> (r: HookResults)
        ensures
            r.hooks_run == 0 && r.hooks_succeeded == 0 && r.hooks_failed == 0
                && r.hooks_timed_out == 0,
    {
        HookResults { hooks_run: 0, hooks_succeeded: 0, hooks_failed: 0, hooks_timed_out: 0 }
    }
}

/// How one hook run ended, as the process layer reports it.
#[derive(Clone, Copy, Debug, PartialEq, Eq, Structural)]
pub enum HookRun {
    /// The process exited; `success` is its exit status's verdict.
    Exited { success: bool },
    /// The process could not be started or waited for.
    SpawnError,
    /// The process did not finish within the time limit.
    TimedOut,
}

impl HookResults {
    /// Every run has been counted under exactly one ending.
    pub open spec fn tallied(self) -> bool {
        self.hooks_run == self.hooks_succeeded + self.hooks_failed + self.hooks_timed_out
    }

    /// Count one more run, under the ending it had.
    pub fn record(&mut self, run: HookRun)
        requires
            old(self).hooks_run < u32::MAX,
            old(self).tallied(),
        ensures
            final(self).tallied(),
            final(self).hooks_run == old(self).hooks_run + 1,
            final(self).hooks_succeeded == old(self).hooks_succeeded + (if run == (HookRun::Exited {
                success: true,
            }) {
                1int
            } else {
                0int
            }),
            final(self).hooks_failed == old(self).hooks_failed + (if run is SpawnError || run == (
            HookRun::Exited { success: false }) {
                1int
            } else {
                0int
            }),
            final(self).hooks_timed_out == old(self).hooks_timed_out + (if run is TimedOut {
                1int
            } else {
                0int
            }),
    {
        self.hooks_run = self.hooks_run + 1;
        match run {
            HookRun::Exited { success } => {
                if success {
                    self.hooks_succeeded = self.hooks_succeeded + 1;
                } else {
                    self.hooks_failed = self.hooks_failed + 1;
                }
            },
            HookRun::SpawnError => {
                self.hooks_failed = self.hooks_failed + 1;
            },
            HookRun::TimedOut => {
                self.hooks_timed_out = self.hooks_timed_out + 1;
            },
        }
    }
}

/// Whether a file of the hooks directory is run: it is skipped only when
/// its permission bits are known and no execute bit is set.
pub fn should_run(mode: Option<u32>) -> (b: bool)
    ensures
        b == match mode {
            Some(m) => m & 0o111u32 != 0,
            None => true,
        },
{
    match mode {
        Some(m) => m & 0o111u32 != 0,
        None => true,
    }
}

/// The name a hook is reported under: its file name, or `unknown`.
pub fn hook_name(path: &str) -> (r: String)
    ensures
        r@ == match file_name(path@) {
            Some(n) => n,
            None => "unknown"@,
        },
{
    let c = chars_of(path);
    match file_name_range(c.as_slice()) {
        Some((lo, hi)) => string_of_range(c.as_slice(), lo, hi),
        None => string_from("unknown"),
    }
}

/// The variables handed to every hook, by name.
pub open spec fn env_vars(p: ColorPalette, colors_path: Seq<char>) -> Seq<(Seq<char>, Seq<char>)> {
    seq![
        ("COSMIC_BG"@, p.background@),
        ("COSMIC_FG"@, p.foreground@),
        ("COSMIC_ACCENT"@, p.accent@),
        ("COSMIC_CURSOR"@, p.cursor@),
        ("COSMIC_SEL_FG"@, p.selection_foreground@),
        ("COSMIC_SEL_BG"@, p.selection_background@),
    ] + Seq::new(16, |i: int| ("COSMIC_COLOR"@ + dec(i as nat), p.colors[i]@)) + seq![
        ("COSMIC_COLORS_PATH"@, colors_path),
    ]
}

pub open spec fn pairs_view(v: Seq<(String, String)>) -> Seq<(Seq<char>, Seq<char>)> {
    v.map_values(|q: (String, String)| (q.0@, q.1@))
}

fn pair(k: &str, v: &String) -> (r: (String, String))
    ensures
        r.0@ == k@,
        r.1@ == v@,
{
    (string_from(k), string_from(v.as_str()))
}

/// The environment of a hook: the six named colors, `COSMIC_COLOR0` to
/// `COSMIC_COLOR15`, and the path of the colors file.
pub fn build_env_vars(palette: &ColorPalette, colors_path: &str) -> (r: Vec<(String, String)>)
    ensures
        pairs_view(r@) == env_vars(*palette, colors_path@),
{
    let mut vars: Vec<(String, String)> = Vec::new();
    vars.push(pair("COSMIC_BG", &palette.background));
    vars.push(pair("COSMIC_FG", &palette.foreground));
    vars.push(pair("COSMIC_ACCENT", &palette.accent));
    vars.push(pair("COSMIC_CURSOR", &palette.cursor));
    vars.push(pair("COSMIC_SEL_FG", &palette.selection_foreground));
    vars.push(pair("COSMIC_SEL_BG", &palette.selection_background));
    let ghost named = pairs_view(vars@);
    let ghost colors = Seq::new(
        16,
        |i: int| ("COSMIC_COLOR"@ + dec(i as nat), palette.colors[i]@),
    );
    let mut i: usize = 0;
    while i < 16
        invariant
            i <= 16,
            pairs_view(vars@) == named + colors.take(i as int),
            colors == Seq::new(
                16,
                |i: int| ("COSMIC_COLOR"@ + dec(i as nat), palette.colors[i]@),
            ),
        decreases 16 - i,
    {
        let mut key = string_from("COSMIC_COLOR");
        push_u32(&mut key, i as u32);
        let value = string_from(palette.colors[i].as_str());
        let ghost before = vars@;
        vars.push((key, value));
        assert(pairs_view(vars@) == pairs_view(before).push((key@, value@)));
        assert(colors[i as int] == (key@, value@));
        assert(colors.take(i + 1) == colors.take(i as int).push(colors[i as int]));
        i = i + 1;
    }
    assert(colors.take(16) == colors);
    let ghost before = vars@;
    vars.push((string_from("COSMIC_COLORS_PATH"), string_from(colors_path)));
    assert(pairs_view(vars@) == pairs_view(before).push(("COSMIC_COLORS_PATH"@, colors_path@)));
    assert(named =~= seq![
        ("COSMIC_BG"@, palette.background@),
        ("COSMIC_FG"@, palette.foreground@),
        ("COSMIC_ACCENT"@, palette.accent@),
        ("COSMIC_CURSOR"@, palette.cursor@),
        ("COSMIC_SEL_FG"@, palette.selection_foreground@),
        ("COSMIC_SEL_BG"@, palette.selection_background@),
    ]);
    assert(pairs_view(vars@) =~= env_vars(*palette, colors_path@));
    vars
}

} // verus!
