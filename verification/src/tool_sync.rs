//! Tool theme synchronisation: which tools are synced, in which order,
//! how failures are reported, the summary of a sync, and which running
//! programs are told to reload.
use vstd::prelude::*;
use crate::hooks::HookResults;
use crate::text::{
    string_from, push_str, push_u32, dec, join_sep, join_with, strings_view, starts_with, ends_with,
    str_starts_with, str_ends_with,
};

verus! {

/// Per-tool sync switches.
pub struct ToolSyncConfig {
    pub ghostty_enabled: bool,
    pub btop_enabled: bool,
    pub nvim_enabled: bool,
    /// Colorscheme Neovim is told to load.
    pub nvim_colorscheme: String,
    pub zellij_enabled: bool,
    pub fzf_enabled: bool,
    /// Source the fzf theme from the shell's rc files.
    pub fzf_shell_integration: bool,
    pub lazygit_enabled: bool,
    /// Run the user's hooks after the tools.
    pub hooks_enabled: bool,
    /// Sync whenever the desktop theme changes.
    pub auto_sync: bool,
}

impl Default for ToolSyncConfig {
    fn default() -> (c: ToolSyncConfig)
        ensures
            c.ghostty_enabled && c.btop_enabled && c.nvim_enabled && c.zellij_enabled
                && c.fzf_enabled && c.lazygit_enabled && c.hooks_enabled,
            !c.fzf_shell_integration && !c.auto_sync,
            c.nvim_colorscheme@ == "tokyonight"@,
    {
        ToolSyncConfig {
            ghostty_enabled: true,
            btop_enabled: true,
            nvim_enabled: true,
            nvim_colorscheme: string_from("tokyonight"),
            zellij_enabled: true,
            fzf_enabled: true,
            fzf_shell_integration: false,
            lazygit_enabled: true,
            hooks_enabled: true,
            auto_sync: false,
        }
    }
}

/// The two configurations hold the same switches and colorscheme.
pub open spec fn same_config(a: ToolSyncConfig, b: ToolSyncConfig) -> bool {
    &&& a.ghostty_enabled == b.ghostty_enabled
    &&& a.btop_enabled == b.btop_enabled
    &&& a.nvim_enabled == b.nvim_enabled
    &&& a.nvim_colorscheme@ == b.nvim_colorscheme@
    &&& a.zellij_enabled == b.zellij_enabled
    &&& a.fzf_enabled == b.fzf_enabled
    &&& a.fzf_shell_integration == b.fzf_shell_integration
    &&& a.lazygit_enabled == b.lazygit_enabled
    &&& a.hooks_enabled == b.hooks_enabled
    &&& a.auto_sync == b.auto_sync
}

impl Clone for ToolSyncConfig {
    fn clone(&self) -> (c: Self)
        ensures
            same_config(c, *self),
    {
        ToolSyncConfig {
            ghostty_enabled: self.ghostty_enabled,
            btop_enabled: self.btop_enabled,
            nvim_enabled: self.nvim_enabled,
            nvim_colorscheme: self.nvim_colorscheme.clone(),
            zellij_enabled: self.zellij_enabled,
            fzf_enabled: self.fzf_enabled,
            fzf_shell_integration: self.fzf_shell_integration,
            lazygit_enabled: self.lazygit_enabled,
            hooks_enabled: self.hooks_enabled,
            auto_sync: self.auto_sync,
        }
    }
}

/// A tool whose theme is synced.
#[derive(Clone, Copy, Debug, PartialEq, Eq, Structural)]
pub enum Tool {
    Ghostty,
    Btop,
    Zellij,
    Fzf,
    Lazygit,
    Neovim,
}

pub open spec fn tool_name(t: Tool) -> Seq<char> {
    match t {
        Tool::Ghostty => "Ghostty"@,
        Tool::Btop => "btop"@,
        Tool::Zellij => "Zellij"@,
        Tool::Fzf => "fzf"@,
        Tool::Lazygit => "lazygit"@,
        Tool::Neovim => "Neovim"@,
    }
}

impl Tool {
    /// The tool's display name.
    pub fn name(self) -> (s: &'static str)
        ensures
            s@ == tool_name(self),
    {
        match self {
            Tool::Ghostty => "Ghostty",
            Tool::Btop => "btop",
            Tool::Zellij => "Zellij",
            Tool::Fzf => "fzf",
            Tool::Lazygit => "lazygit",
            Tool::Neovim => "Neovim",
        }
    }

    /// Whether the generated theme must also be selected in the tool's
    /// own configuration after it is written.
    pub fn needs_activation(self) -> (b: bool)
        ensures
            b == (self == Tool::Ghostty || self == Tool::Btop),
    {
        match self {
            Tool::Ghostty | Tool::Btop => true,
            _ => false,
        }
    }
}

/// The enabled tools in the order they are synced: Ghostty, btop, Zellij,
/// fzf and lazygit, then Neovim.
pub open spec fn plan_of(c: ToolSyncConfig) -> Seq<Tool> {
    (if c.ghostty_enabled { seq![Tool::Ghostty] } else { seq![] }) + (if c.btop_enabled {
        seq![Tool::Btop]
    } else {
        seq![]
    }) + (if c.zellij_enabled { seq![Tool::Zellij] } else { seq![] }) + (if c.fzf_enabled {
        seq![Tool::Fzf]
    } else {
        seq![]
    }) + (if c.lazygit_enabled { seq![Tool::Lazygit] } else { seq![] }) + (if c.nvim_enabled {
        seq![Tool::Neovim]
    } else {
        seq![]
    })
}

/// The tools to sync, in order.
pub fn sync_plan(config: &ToolSyncConfig) -> (r: Vec<Tool>)
    ensures
        r@ == plan_of(*config),
{
    let mut r: Vec<Tool> = Vec::new();
    if config.ghostty_enabled {
        r.push(Tool::Ghostty);
    }
    if config.btop_enabled {
        r.push(Tool::Btop);
    }
    if config.zellij_enabled {
        r.push(Tool::Zellij);
    }
    if config.fzf_enabled {
        r.push(Tool::Fzf);
    }
    if config.lazygit_enabled {
        r.push(Tool::Lazygit);
    }
    if config.nvim_enabled {
        r.push(Tool::Neovim);
    }
    assert(r@ =~= plan_of(*config));
    r
}

/// Error of saving the palette file.
pub fn save_colors_error(e: &str) -> (s: String)
    ensures
        s@ == "Failed to save colors.toml: "@ + e@,
{
    let mut s = string_from("Failed to save colors.toml: ");
    push_str(&mut s, e);
    s
}

/// Error of writing a tool's theme.
pub fn write_error(tool: Tool, e: &str) -> (s: String)
    ensures
        s@ == "Failed to write "@ + tool_name(tool) + " theme: "@ + e@,
{
    let mut s = string_from("Failed to write ");
    push_str(&mut s, tool.name());
    push_str(&mut s, " theme: ");
    push_str(&mut s, e);
    s
}

/// Error of selecting a tool's theme in its configuration.
pub fn activate_error(tool: Tool, e: &str) -> (s: String)
    ensures
        s@ == "Failed to activate "@ + tool_name(tool) + " theme: "@ + e@,
{
    let mut s = string_from("Failed to activate ");
    push_str(&mut s, tool.name());
    push_str(&mut s, " theme: ");
    push_str(&mut s, e);
    s
}

/// Result of a sync.
pub struct SyncResult {
    /// Where the palette file was written.
    pub colors_path: String,
    /// Names of tools that were synced
    pub synced_tools: Vec<String>,
    /// Outcome of the hooks, when they ran.
    pub hooks_result: Option<HookResults>,
}

/// The parts of a sync summary: the palette file, each synced tool, and
/// the hooks when any ran.
pub open spec fn summary_parts(r: SyncResult) -> Seq<Seq<char>> {
    seq!["colors.toml: "@ + r.colors_path@] + strings_view(r.synced_tools@).map_values(
        |n: Seq<char>| n + ": synced"@,
    ) + match r.hooks_result {
        Some(h) => if h.hooks_run > 0 {
            seq![
                "hooks: "@ + dec(h.hooks_succeeded as nat) + "/"@ + dec(h.hooks_run as nat)
                    + " ok"@,
            ]
        } else {
            seq![]
        },
        None => seq![],
    }
}

impl SyncResult {
    /// A human-readable summary: the parts joined by commas.
    pub fn summary(&self) -> (s: String)
        ensures
            s@ == join_sep(summary_parts(*self), ", "@),
    {
        let mut parts: Vec<String> = Vec::new();
        let mut first = string_from("colors.toml: ");
        push_str(&mut first, self.colors_path.as_str());
        parts.push(first);
        let ghost names = strings_view(self.synced_tools@).map_values(
            |n: Seq<char>| n + ": synced"@,
        );
        let mut i: usize = 0;
        while i < self.synced_tools.len()
            invariant
                i <= self.synced_tools@.len(),
                names == strings_view(self.synced_tools@).map_values(
                    |n: Seq<char>| n + ": synced"@,
                ),
                strings_view(parts@) == seq!["colors.toml: "@ + self.colors_path@] + names.take(
                    i as int,
                ),
            decreases self.synced_tools.len() - i,
        {
            let mut p = string_from(self.synced_tools[i].as_str());
            push_str(&mut p, ": synced");
            let ghost before = parts@;
            parts.push(p);
            assert(strings_view(parts@) == strings_view(before).push(p@));
            assert(names.take(i + 1) == names.take(i as int).push(names[i as int]));
            i = i + 1;
        }
        assert(names.take(self.synced_tools@.len() as int) == names);
        let ghost mid = parts@;
        if let Some(hr) = self.hooks_result {
            if hr.hooks_run > 0 {
                let mut h = string_from("hooks: ");
                push_u32(&mut h, hr.hooks_succeeded);
                push_str(&mut h, "/");
                push_u32(&mut h, hr.hooks_run);
                push_str(&mut h, " ok");
                parts.push(h);
                assert(strings_view(parts@) == strings_view(mid).push(h@));
            }
        }
        assert(strings_view(parts@) =~= summary_parts(*self));
        join_with(&parts, ", ")
    }
}

/// The process name a running tool is signalled under (its name in lower
/// case), for the tools that reload on a signal.
pub fn process_name(tool: Tool) -> (s: Option<&'static str>)
    ensures
        match tool {
            Tool::Ghostty => s matches Some(n) && n@ == "ghostty"@,
            Tool::Btop => s matches Some(n) && n@ == "btop"@,
            _ => s is None,
        },
{
    match tool {
        Tool::Ghostty => Some("ghostty"),
        Tool::Btop => Some("btop"),
        _ => None,
    }
}

/// The tools that reload on a signal, among the enabled ones: Ghostty and
/// btop, in that order.
pub fn signal_targets(config: &ToolSyncConfig) -> (r: Vec<Tool>)
    ensures
        r@ == (if config.ghostty_enabled { seq![Tool::Ghostty] } else { seq![] }) + (
        if config.btop_enabled {
            seq![Tool::Btop]
        } else {
            seq![]
        }),
{
    let mut r: Vec<Tool> = Vec::new();
    if config.ghostty_enabled {
        r.push(Tool::Ghostty);
    }
    if config.btop_enabled {
        r.push(Tool::Btop);
    }
    assert(r@ =~= (if config.ghostty_enabled { seq![Tool::Ghostty] } else { seq![] }) + (
    if config.btop_enabled {
        seq![Tool::Btop]
    } else {
        seq![]
    }));
    r
}

/// A runtime-directory entry that is a Neovim server socket
/// (`nvim.<pid>.0`).
pub fn is_nvim_socket(name: &str) -> (b: bool)
    ensures
        b == (starts_with(name@, "nvim."@) && ends_with(name@, ".0"@)),
{
    str_starts_with(name, "nvim.") && str_ends_with(name, ".0")
}

/// The keys sent to a Neovim server to load the colorscheme.
pub fn nvim_colorscheme_command(scheme: &str) -> (s: String)
    ensures
        s@ == ":colorscheme "@ + scheme@ + "<CR>"@,
{
    let mut s = string_from(":colorscheme ");
    push_str(&mut s, scheme);
    push_str(&mut s, "<CR>");
    s
}

/// How reloaded Neovim servers are reported: none when there were none.
pub fn nvim_reload_label(count: u32) -> (r: Option<String>)
    ensures
        match r {
            None => count == 0,
            Some(s) => count > 0 && s@ == (if count == 1 {
                "Neovim"@
            } else {
                "Neovim ("@ + dec(count as nat) + ")"@
            }),
        },
{
    if count == 0 {
        None
    } else if count == 1 {
        Some(string_from("Neovim"))
    } else {
        let mut s = string_from("Neovim (");
        push_u32(&mut s, count);
        push_str(&mut s, ")");
        Some(s)
    }
}

/// The summary shown after a sync: the sync's summary, then the programs
/// that reloaded live and those to reload by hand, each list only when
/// not empty.
pub fn live_summary(summary: String, reloaded: &Vec<String>, skipped: &Vec<String>) -> (s: String)
    ensures
        s@ == summary@ + (if reloaded@.len() > 0 {
            ", live: "@ + join_sep(strings_view(reloaded@), ", "@)
        } else {
            Seq::empty()
        }) + (if skipped@.len() > 0 {
            ", manual: "@ + join_sep(strings_view(skipped@), ", "@)
        } else {
            Seq::empty()
        }),
{
    let mut s = summary;
    let ghost base = s@;
    if reloaded.len() > 0 {
        push_str(&mut s, ", live: ");
        let j = join_with(reloaded, ", ");
        push_str(&mut s, j.as_str());
    }
    let ghost mid = s@;
    assert(mid == base + (if reloaded@.len() > 0 {
        ", live: "@ + join_sep(strings_view(reloaded@), ", "@)
    } else {
        Seq::empty()
    }));
    if skipped.len() > 0 {
        push_str(&mut s, ", manual: ");
        let j = join_with(skipped, ", ");
        push_str(&mut s, j.as_str());
    }
    s
}

/// Whether the configuration turns syncing of one tool on.
pub open spec fn tool_enabled(c: ToolSyncConfig, t: Tool) -> bool {
    match t {
        Tool::Ghostty => c.ghostty_enabled,
        Tool::Btop => c.btop_enabled,
        Tool::Zellij => c.zellij_enabled,
        Tool::Fzf => c.fzf_enabled,
        Tool::Lazygit => c.lazygit_enabled,
        Tool::Neovim => c.nvim_enabled,
    }
}

/// The place of a tool in the sync order: Ghostty, btop, Zellij, fzf,
/// lazygit, Neovim.
pub open spec fn sync_rank(t: Tool) -> int {
    match t {
        Tool::Ghostty => 0,
        Tool::Btop => 1,
        Tool::Zellij => 2,
        Tool::Fzf => 3,
        Tool::Lazygit => 4,
        Tool::Neovim => 5,
    }
}

/// The tools of a list come in strictly rising sync order.
pub open spec fn in_sync_order(q: Seq<Tool>) -> bool {
    forall|i: int, j: int|
        0 <= i < j < q.len() ==> sync_rank(#[trigger] q[i]) < sync_rank(#[trigger] q[j])
}

/// The list with one more tool at its end when `on` holds.
pub open spec fn then_tool(q: Seq<Tool>, on: bool, t: Tool) -> Seq<Tool> {
    q + (if on { seq![t] } else { Seq::<Tool>::empty() })
}

proof fn lemma_then_tool(q: Seq<Tool>, on: bool, t: Tool)
    requires
        in_sync_order(q),
        forall|i: int| 0 <= i < q.len() ==> sync_rank(#[trigger] q[i]) < sync_rank(t),
    ensures
        in_sync_order(then_tool(q, on, t)),
        forall|i: int|
            0 <= i < then_tool(q, on, t).len() ==> sync_rank(#[trigger] then_tool(q, on, t)[i])
                <= sync_rank(t),
        forall|u: Tool| then_tool(q, on, t).contains(u) <==> (q.contains(u) || (on && u == t)),
{
    let r = then_tool(q, on, t);
    if on {
        assert(r == q.push(t));
        assert forall|u: Tool| r.contains(u) <==> (q.contains(u) || u == t) by {
            if r.contains(u) {
                let k = choose|k: int| 0 <= k < r.len() && r[k] == u;
                if k < q.len() {
                    assert(q[k] == u);
                }
            }
            if q.contains(u) {
                let k = choose|k: int| 0 <= k < q.len() && q[k] == u;
                assert(r[k] == u);
            }
            if u == t {
                assert(r[q.len() as int] == u);
            }
        }
    } else {
        assert(r =~= q);
    }
}

/// A tool is synced exactly when its own switch is on, and the tools come
/// in the fixed sync order (so none twice).
pub proof fn lemma_sync_plan_tools(c: ToolSyncConfig)
    ensures
        forall|t: Tool| plan_of(c).contains(t) <==> tool_enabled(c, t),
        in_sync_order(plan_of(c)),
{
    let q0 = Seq::<Tool>::empty();
    let q1 = then_tool(q0, c.ghostty_enabled, Tool::Ghostty);
    let q2 = then_tool(q1, c.btop_enabled, Tool::Btop);
    let q3 = then_tool(q2, c.zellij_enabled, Tool::Zellij);
    let q4 = then_tool(q3, c.fzf_enabled, Tool::Fzf);
    let q5 = then_tool(q4, c.lazygit_enabled, Tool::Lazygit);
    let q6 = then_tool(q5, c.nvim_enabled, Tool::Neovim);
    lemma_then_tool(q0, c.ghostty_enabled, Tool::Ghostty);
    lemma_then_tool(q1, c.btop_enabled, Tool::Btop);
    lemma_then_tool(q2, c.zellij_enabled, Tool::Zellij);
    lemma_then_tool(q3, c.fzf_enabled, Tool::Fzf);
    lemma_then_tool(q4, c.lazygit_enabled, Tool::Lazygit);
    lemma_then_tool(q5, c.nvim_enabled, Tool::Neovim);
    assert(q0 + (if c.ghostty_enabled { seq![Tool::Ghostty] } else { Seq::<Tool>::empty() })
        =~= (if c.ghostty_enabled { seq![Tool::Ghostty] } else { Seq::<Tool>::empty() }));
    assert(q6 == plan_of(c));
    assert forall|t: Tool| plan_of(c).contains(t) <==> tool_enabled(c, t) by {
        assert(!q0.contains(t));
    }
}

} // verus!
