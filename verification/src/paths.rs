//! Path arithmetic: where each configuration file lives, and the parts of
//! a path (`Path::join`, `file_name`, `file_stem`, `parent`) modelled on
//! the path text.
use vstd::prelude::*;
use crate::text::{chars_of, push_chars, push_str, string_from, find_last, rfind_char_range};

verus! {

/// `Path::join`: an absolute component replaces the path; otherwise it is
/// appended after a `/` unless the path is empty or already ends in one.
pub open spec fn join_path(base: Seq<char>, comp: Seq<char>) -> Seq<char> {
    if comp.len() > 0 && comp[0] == '/' {
        comp
    } else if base.len() == 0 || base.last() == '/' {
        base + comp
    } else {
        base + seq!['/'] + comp
    }
}

/// `base.join(comp)`.
pub fn join(base: &str, comp: &str) -> (r: String)
    ensures
        r@ == join_path(base@, comp@),
{
    let c = chars_of(comp);
    if c.len() > 0 && c[0] == '/' {
        return string_from(comp);
    }
    let b = chars_of(base);
    let mut r = string_from(base);
    if !(b.len() == 0 || b[b.len() - 1] == '/') {
        r.push('/');
    }
    push_chars(&mut r, c.as_slice());
    r
}

/// The user's base directories, as the platform reports them.
pub struct UserDirs {
    /// The XDG config directory (e.g. `~/.config`).
    pub config: String,
    /// The home directory.
    pub home: String,
}

impl UserDirs {
    /// Base directories from what the platform reports: the XDG directories
    /// when known, else `$HOME/.config` and `$HOME`, with `/tmp` standing in
    /// for an unset `$HOME`.
    pub fn resolve(xdg: Option<(String, String)>, home_env: Option<String>) -> (d: UserDirs)
        ensures
            match xdg {
                Some((config, home)) => d.config@ == config@ && d.home@ == home@,
                None => {
                    let h = match home_env {
                        Some(h) => h@,
                        None => "/tmp"@,
                    };
                    d.config@ == join_path(h, ".config"@) && d.home@ == h
                },
            },
    {
        match xdg {
            Some((config, home)) => UserDirs { config, home },
            None => {
                let h = match home_env {
                    Some(h) => h,
                    None => string_from("/tmp"),
                };
                UserDirs { config: join(h.as_str(), ".config"), home: h }
            },
        }
    }
}

pub open spec fn cosmic_order_dir_of(d: UserDirs) -> Seq<char> {
    join_path(d.config@, "cosmic-order"@)
}

pub open spec fn screensaver_dir_of(d: UserDirs) -> Seq<char> {
    join_path(d.config@, "cosmic-screensaver"@)
}

/// `~/.config/cosmic-order/`
pub fn cosmic_order_config_dir(d: &UserDirs) -> (r: String)
    ensures
        r@ == cosmic_order_dir_of(*d),
{
    join(d.config.as_str(), "cosmic-order")
}

/// `~/.config/ghostty/config`
pub fn ghostty_config(d: &UserDirs) -> (r: String)
    ensures
        r@ == join_path(join_path(d.config@, "ghostty"@), "config"@),
{
    join(join(d.config.as_str(), "ghostty").as_str(), "config")
}

/// `~/.config/ghostty/themes/`
pub fn ghostty_themes_dir(d: &UserDirs) -> (r: String)
    ensures
        r@ == join_path(join_path(d.config@, "ghostty"@), "themes"@),
{
    join(join(d.config.as_str(), "ghostty").as_str(), "themes")
}

/// `~/.config/btop/btop.conf`
pub fn btop_config(d: &UserDirs) -> (r: String)
    ensures
        r@ == join_path(join_path(d.config@, "btop"@), "btop.conf"@),
{
    join(join(d.config.as_str(), "btop").as_str(), "btop.conf")
}

/// `~/.config/btop/themes/`
pub fn btop_themes_dir(d: &UserDirs) -> (r: String)
    ensures
        r@ == join_path(join_path(d.config@, "btop"@), "themes"@),
{
    join(join(d.config.as_str(), "btop").as_str(), "themes")
}

/// `~/.config/nvim/lua/plugins/colorscheme.lua`
pub fn nvim_colorscheme(d: &UserDirs) -> (r: String)
    ensures
        r@ == join_path(
            join_path(join_path(join_path(d.config@, "nvim"@), "lua"@), "plugins"@),
            "colorscheme.lua"@,
        ),
{
    let a = join(d.config.as_str(), "nvim");
    let b = join(a.as_str(), "lua");
    let c = join(b.as_str(), "plugins");
    join(c.as_str(), "colorscheme.lua")
}

/// `~/.config/zellij/config.kdl`
pub fn zellij_config(d: &UserDirs) -> (r: String)
    ensures
        r@ == join_path(join_path(d.config@, "zellij"@), "config.kdl"@),
{
    join(join(d.config.as_str(), "zellij").as_str(), "config.kdl")
}

/// `~/.config/lazygit/config.yml`
pub fn lazygit_config(d: &UserDirs) -> (r: String)
    ensures
        r@ == join_path(join_path(d.config@, "lazygit"@), "config.yml"@),
{
    join(join(d.config.as_str(), "lazygit").as_str(), "config.yml")
}

/// `~/.config/cosmic-order/fzf-theme.sh`
pub fn fzf_theme(d: &UserDirs) -> (r: String)
    ensures
        r@ == join_path(cosmic_order_dir_of(*d), "fzf-theme.sh"@),
{
    join(cosmic_order_config_dir(d).as_str(), "fzf-theme.sh")
}

/// `~/.config/cosmic-order/tool-sync.toml`
pub fn tool_sync_config(d: &UserDirs) -> (r: String)
    ensures
        r@ == join_path(cosmic_order_dir_of(*d), "tool-sync.toml"@),
{
    join(cosmic_order_config_dir(d).as_str(), "tool-sync.toml")
}

/// `~/.config/cosmic-order/hooks.d/`
pub fn hooks_dir(d: &UserDirs) -> (r: String)
    ensures
        r@ == join_path(cosmic_order_dir_of(*d), "hooks.d"@),
{
    join(cosmic_order_config_dir(d).as_str(), "hooks.d")
}

/// `~/.config/cosmic-screensaver/`
pub fn screensaver_config_dir(d: &UserDirs) -> (r: String)
    ensures
        r@ == screensaver_dir_of(*d),
{
    join(d.config.as_str(), "cosmic-screensaver")
}

/// `~/.config/cosmic-screensaver/config`
pub fn screensaver_config(d: &UserDirs) -> (r: String)
    ensures
        r@ == join_path(screensaver_dir_of(*d), "config"@),
{
    join(screensaver_config_dir(d).as_str(), "config")
}

/// `~/.config/cosmic-screensaver/power-state.env`
pub fn screensaver_power_env(d: &UserDirs) -> (r: String)
    ensures
        r@ == join_path(screensaver_dir_of(*d), "power-state.env"@),
{
    join(screensaver_config_dir(d).as_str(), "power-state.env")
}

/// `~/.config/cosmic-screensaver/swayidle.conf`
pub fn screensaver_swayidle_config(d: &UserDirs) -> (r: String)
    ensures
        r@ == join_path(screensaver_dir_of(*d), "swayidle.conf"@),
{
    join(screensaver_config_dir(d).as_str(), "swayidle.conf")
}

/// System data directory for bundled screensaver scripts and logos.
pub fn screensaver_data_dir() -> (r: String)
    ensures
        r@ == "/usr/share/cosmic-order/screensaver"@,
{
    string_from("/usr/share/cosmic-order/screensaver")
}

/// `~/.local/bin/screensaver-ctl`
pub fn screensaver_ctl(d: &UserDirs) -> (r: String)
    ensures
        r@ == join_path(d.home@, ".local/bin/screensaver-ctl"@),
{
    join(d.home.as_str(), ".local/bin/screensaver-ctl")
}

/// A relative component joined onto a base keeps the base as prefix.
pub proof fn lemma_join_keeps_base(base: Seq<char>, comp: Seq<char>)
    requires
        comp.len() == 0 || comp[0] != '/',
    ensures
        join_path(base, comp).len() >= base.len(),
        join_path(base, comp).take(base.len() as int) == base,
{
    if base.len() == 0 || base.last() == '/' {
        assert((base + comp).take(base.len() as int) == base);
    } else {
        assert((base + seq!['/'] + comp).take(base.len() as int) == base);
    }
}

/// Everything the application keeps in its own directory lies below it:
/// the fzf theme, the tool-sync settings and the hooks directory have the
/// application directory as a prefix.
pub proof fn lemma_app_files_below_app_dir(d: UserDirs)
    ensures
        ({
            let base = cosmic_order_dir_of(d);
            &&& join_path(base, "fzf-theme.sh"@).take(base.len() as int) == base
            &&& join_path(base, "tool-sync.toml"@).take(base.len() as int) == base
            &&& join_path(base, "hooks.d"@).take(base.len() as int) == base
        }),
{
    reveal_strlit("fzf-theme.sh");
    reveal_strlit("tool-sync.toml");
    reveal_strlit("hooks.d");
    let base = cosmic_order_dir_of(d);
    lemma_join_keeps_base(base, "fzf-theme.sh"@);
    lemma_join_keeps_base(base, "tool-sync.toml"@);
    lemma_join_keeps_base(base, "hooks.d"@);
}

// ---------------------------------------------------------------------
// Path components
// ---------------------------------------------------------------------

pub open spec fn cur_dir() -> Seq<char> {
    seq!['.']
}

pub open spec fn parent_dir() -> Seq<char> {
    seq!['.', '.']
}

/// Add a finished segment to the components: empty segments vanish, and
/// `.` only survives as the first component of a relative path.
pub open spec fn add_component(done: Seq<Seq<char>>, cur: Seq<char>, rooted: bool) -> Seq<
    Seq<char>,
> {
    if cur.len() == 0 {
        done
    } else if cur == cur_dir() && !(done.len() == 0 && !rooted) {
        done
    } else {
        done.push(cur)
    }
}

pub open spec fn components_acc(p: Seq<char>, rooted: bool) -> (Seq<Seq<char>>, Seq<char>)
    decreases p.len(),
{
    if p.len() == 0 {
        (seq![], seq![])
    } else {
        let (done, cur) = components_acc(p.drop_last(), rooted);
        if p.last() == '/' {
            (add_component(done, cur, rooted), seq![])
        } else {
            (done, cur.push(p.last()))
        }
    }
}

/// The components of a path other than the root (`Path::components`).
pub open spec fn components(p: Seq<char>) -> Seq<Seq<char>> {
    let rooted = p.len() > 0 && p[0] == '/';
    let (done, cur) = components_acc(p, rooted);
    add_component(done, cur, rooted)
}

pub open spec fn is_special(n: Seq<char>) -> bool {
    n == cur_dir() || n == parent_dir()
}

/// `Path::file_name`: the last component, unless the path ends in `.` or
/// `..` or has none.
pub open spec fn file_name(p: Seq<char>) -> Option<Seq<char>> {
    let c = components(p);
    if c.len() == 0 || is_special(c.last()) {
        None
    } else {
        Some(c.last())
    }
}

/// `Path::parent` followed by `file_name`: the next-to-last component.
pub open spec fn parent_name(p: Seq<char>) -> Option<Seq<char>> {
    let c = components(p);
    if c.len() < 2 || is_special(c[c.len() - 2]) {
        None
    } else {
        Some(c[c.len() - 2])
    }
}

/// `Path::file_stem` of a file name: the part before its last `.`, unless
/// that dot is the first character or there is none.
pub open spec fn stem_of(name: Seq<char>) -> Seq<char> {
    match find_last(name, '.') {
        Some(k) => if k == 0 {
            name
        } else {
            name.take(k)
        },
        None => name,
    }
}

pub open spec fn ranges_view(c: Seq<char>, r: Seq<(usize, usize)>) -> Seq<Seq<char>> {
    r.map_values(|q: (usize, usize)| c.subrange(q.0 as int, q.1 as int))
}

pub open spec fn ranges_within(c: Seq<char>, r: Seq<(usize, usize)>) -> bool {
    forall|i: int| 0 <= i < r.len() ==> #[trigger] r[i].0 <= r[i].1 <= c.len()
}

fn is_cur_dir(c: &[char], lo: usize, hi: usize) -> (b: bool)
    requires
        lo <= hi <= c@.len(),
    ensures
        b == (c@.subrange(lo as int, hi as int) == cur_dir()),
{
    let r = hi - lo == 1 && c[lo] == '.';
    proof {
        if hi - lo == 1 && c[lo as int] == '.' {
            assert(c@.subrange(lo as int, hi as int) =~= cur_dir());
        }
        if c@.subrange(lo as int, hi as int) == cur_dir() {
            assert(c@.subrange(lo as int, hi as int).len() == 1);
            assert(hi - lo == 1);
            assert(c@.subrange(lo as int, hi as int)[0] == c@[lo as int]);
        }
    }
    r
}

fn is_special_range(c: &[char], lo: usize, hi: usize) -> (b: bool)
    requires
        lo <= hi <= c@.len(),
    ensures
        b == is_special(c@.subrange(lo as int, hi as int)),
{
    let ghost t = c@.subrange(lo as int, hi as int);
    let two = hi - lo == 2 && c[lo] == '.' && c[lo + 1] == '.';
    proof {
        if two {
            assert(t =~= parent_dir());
        }
        if t == parent_dir() {
            assert(t.len() == 2);
            assert(hi - lo == 2);
            assert(t[0] == c@[lo as int] && t[1] == c@[lo + 1]);
        }
    }
    is_cur_dir(c, lo, hi) || two
}

fn push_component(
    c: &[char],
    comps: &mut Vec<(usize, usize)>,
    lo: usize,
    hi: usize,
    rooted: bool,
)
    requires
        lo <= hi <= c@.len(),
        ranges_within(c@, old(comps)@),
    ensures
        ranges_within(c@, final(comps)@),
        ranges_view(c@, final(comps)@) == add_component(
            ranges_view(c@, old(comps)@),
            c@.subrange(lo as int, hi as int),
            rooted,
        ),
{
    if lo == hi {
        return ;
    }
    if is_cur_dir(c, lo, hi) && !(comps.len() == 0 && !rooted) {
        return ;
    }
    let ghost before = comps@;
    comps.push((lo, hi));
    assert(ranges_view(c@, comps@) == ranges_view(c@, before).push(
        c@.subrange(lo as int, hi as int),
    ));
    assert(ranges_within(c@, comps@)) by {
        assert forall|i: int| 0 <= i < comps@.len() implies #[trigger] comps@[i].0
            <= comps@[i].1 <= c@.len() by {
            if i < before.len() {
                assert(comps@[i] == before[i]);
            }
        }
    }
}

/// The components of the path text `c`, as ranges into it.
pub fn component_ranges(c: &[char]) -> (r: Vec<(usize, usize)>)
    ensures
        ranges_within(c@, r@),
        ranges_view(c@, r@) == components(c@),
{
    let rooted = c.len() > 0 && c[0] == '/';
    let mut comps: Vec<(usize, usize)> = Vec::new();
    let mut start: usize = 0;
    let mut i: usize = 0;
    while i < c.len()
        invariant
            start <= i <= c@.len(),
            rooted == (c@.len() > 0 && c@[0] == '/'),
            ranges_within(c@, comps@),
            components_acc(c@.take(i as int), rooted) == (
                ranges_view(c@, comps@),
                c@.subrange(start as int, i as int),
            ),
        decreases c.len() - i,
    {
        assert(c@.take(i + 1).drop_last() == c@.take(i as int));
        assert(c@.take(i + 1).last() == c@[i as int]);
        if c[i] == '/' {
            push_component(c, &mut comps, start, i, rooted);
            i = i + 1;
            start = i;
            assert(c@.subrange(start as int, i as int).len() == 0);
        } else {
            assert(c@.subrange(start as int, i + 1) == c@.subrange(start as int, i as int).push(
                c@[i as int],
            ));
            i = i + 1;
        }
    }
    assert(c@.take(i as int) == c@);
    push_component(c, &mut comps, start, i, rooted);
    comps
}

/// `Path::file_name`, as a range of the path text.
pub fn file_name_range(c: &[char]) -> (r: Option<(usize, usize)>)
    ensures
        match r {
            Some(q) => q.0 <= q.1 <= c@.len() && file_name(c@) == Some(
                c@.subrange(q.0 as int, q.1 as int),
            ),
            None => file_name(c@) is None,
        },
{
    let comps = component_ranges(c);
    if comps.len() == 0 {
        return None;
    }
    let q = comps[comps.len() - 1];
    assert(ranges_view(c@, comps@).last() == c@.subrange(q.0 as int, q.1 as int));
    if is_special_range(c, q.0, q.1) {
        None
    } else {
        Some(q)
    }
}

/// `Path::parent().file_name()`, as a range of the path text.
pub fn parent_name_range(c: &[char]) -> (r: Option<(usize, usize)>)
    ensures
        match r {
            Some(q) => q.0 <= q.1 <= c@.len() && parent_name(c@) == Some(
                c@.subrange(q.0 as int, q.1 as int),
            ),
            None => parent_name(c@) is None,
        },
{
    let comps = component_ranges(c);
    if comps.len() < 2 {
        return None;
    }
    let q = comps[comps.len() - 2];
    assert(ranges_view(c@, comps@)[comps@.len() - 2] == c@.subrange(q.0 as int, q.1 as int));
    if is_special_range(c, q.0, q.1) {
        None
    } else {
        Some(q)
    }
}

/// `Path::file_stem` of the file name `c[lo..hi]`, as its end.
pub fn stem_end(c: &[char], lo: usize, hi: usize) -> (e: usize)
    requires
        lo <= hi <= c@.len(),
    ensures
        lo <= e <= hi,
        c@.subrange(lo as int, e as int) == stem_of(c@.subrange(lo as int, hi as int)),
{
    match rfind_char_range(c, lo, hi, '.') {
        Some(k) => {
            if k == lo {
                hi
            } else {
                assert(c@.subrange(lo as int, hi as int).take(k - lo) == c@.subrange(
                    lo as int,
                    k as int,
                ));
                k
            }
        },
        None => hi,
    }
}

/// Copy of `c[lo..hi]`.
pub fn string_of_range(c: &[char], lo: usize, hi: usize) -> (s: String)
    requires
        lo <= hi <= c@.len(),
    ensures
        s@ == c@.subrange(lo as int, hi as int),
{
    let mut s = String::new();
    let mut i = lo;
    while i < hi
        invariant
            lo <= i <= hi <= c@.len(),
            s@ == c@.subrange(lo as int, i as int),
        decreases hi - i,
    {
        s.push(c[i]);
        i = i + 1;
        assert(c@.subrange(lo as int, i as int) == c@.subrange(lo as int, i - 1).push(c@[i - 1]));
    }
    s
}

} // verus!
