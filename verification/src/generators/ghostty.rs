//! Ghostty terminal theme: the theme file generated from the palette, and
//! the rewrite of the user's Ghostty config that activates it.
use vstd::prelude::*;
use crate::colors::ColorPalette;
use crate::text::{
    chars_of, dec, push_str, push_u32, string_from, is_ws, strip_start, starts_with, Strip,
    lines_of, line_ranges, spans_view, spans_within, range_starts_with, range_contains,
    join_nl, join_lines, strings_view, lines_acc, plain_line, lemma_join_split, lemma_lines_plain, no_cr_line_ends,
};
use crate::paths::string_of_range;

verus! {

/// `name = value` followed by a line break.
pub open spec fn setting(name: Seq<char>, value: Seq<char>) -> Seq<char> {
    name + " = "@ + value + "\n"@
}

/// `palette = i=color` lines for the first `n` colors.
pub open spec fn palette_lines(colors: Seq<Seq<char>>, n: nat) -> Seq<char>
    decreases n,
{
    if n == 0 {
        seq![]
    } else {
        palette_lines(colors, (n - 1) as nat) + "palette = "@ + dec((n - 1) as nat) + "="@
            + colors[n - 1] + "\n"@
    }
}

pub open spec fn palette_colors(p: ColorPalette) -> Seq<Seq<char>> {
    p.colors@.map_values(|s: String| s@)
}

/// The Ghostty theme file for a palette: the five named colors, then the
/// sixteen palette entries.
pub open spec fn ghostty_theme(p: ColorPalette) -> Seq<char> {
    setting("background"@, p.background@) + setting("foreground"@, p.foreground@) + setting(
        "cursor-color"@,
        p.cursor@,
    ) + setting("selection-foreground"@, p.selection_foreground@) + setting(
        "selection-background"@,
        p.selection_background@,
    ) + palette_lines(palette_colors(p), 16)
}

fn push_setting(s: &mut String, name: &str, value: &str)
    ensures
        final(s)@ == old(s)@ + setting(name@, value@),
{
    push_str(s, name);
    push_str(s, " = ");
    push_str(s, value);
    push_str(s, "\n");
    assert(final(s)@ =~= old(s)@ + setting(name@, value@));
}

/// Generate Ghostty theme file content from a color palette.
pub fn generate_theme(palette: &ColorPalette) -> (r: String)
    ensures
        r@ == ghostty_theme(*palette),
{
    let mut out = String::new();
    push_setting(&mut out, "background", palette.background.as_str());
    push_setting(&mut out, "foreground", palette.foreground.as_str());
    push_setting(&mut out, "cursor-color", palette.cursor.as_str());
    push_setting(&mut out, "selection-foreground", palette.selection_foreground.as_str());
    push_setting(&mut out, "selection-background", palette.selection_background.as_str());
    let ghost head = out@;
    let mut i: usize = 0;
    while i < 16
        invariant
            i <= 16,
            out@ == head + palette_lines(palette_colors(*palette), i as nat),
        decreases 16 - i,
    {
        push_str(&mut out, "palette = ");
        push_u32(&mut out, i as u32);
        push_str(&mut out, "=");
        push_str(&mut out, palette.colors[i].as_str());
        push_str(&mut out, "\n");
        assert(palette_colors(*palette)[i as int] == palette.colors@[i as int]@);
        i = i + 1;
        assert(out@ =~= head + palette_lines(palette_colors(*palette), i as nat));
    }
    out
}

// ---------------------------------------------------------------------
// Activating the theme in the user's config
// ---------------------------------------------------------------------

/// The line that selects the generated theme.
pub open spec fn theme_line() -> Seq<char> {
    "theme = cosmic-synced"@
}

/// Inline color settings that would override a theme file.
pub open spec fn color_keys() -> Seq<Seq<char>> {
    seq![
        "background"@,
        "foreground"@,
        "cursor-color"@,
        "selection-foreground"@,
        "selection-background"@,
        "palette"@,
    ]
}

/// `t` sets `key`: it starts with the key, then (after whitespace) `=`.
pub open spec fn sets_key(t: Seq<char>, key: Seq<char>) -> bool {
    starts_with(t, key) && {
        let r = strip_start(t.skip(key.len() as int), Strip::Whitespace);
        r.len() > 0 && r[0] == '='
    }
}

/// What activation does with one config line.
#[derive(PartialEq, Eq, Clone, Copy)]
pub enum LineFate {
    /// A `theme …=…` line: replaced by the generated theme line.
    Theme,
    /// An inline color setting: removed.
    Drop,
    /// Anything else: kept as it is.
    Keep,
}

pub open spec fn line_fate(line: Seq<char>) -> LineFate {
    let t = strip_start(line, Strip::Whitespace);
    if starts_with(t, "theme"@) && t.contains('=') {
        LineFate::Theme
    } else if exists|i: int| 0 <= i < 6 && sets_key(t, #[trigger] color_keys()[i]) {
        LineFate::Drop
    } else {
        LineFate::Keep
    }
}

/// Lines after replacing theme lines and dropping color settings.
pub open spec fn rewritten(lines: Seq<Seq<char>>) -> Seq<Seq<char>>
    decreases lines.len(),
{
    if lines.len() == 0 {
        seq![]
    } else {
        let prev = rewritten(lines.drop_last());
        match line_fate(lines.last()) {
            LineFate::Theme => prev.push(theme_line()),
            LineFate::Drop => prev,
            LineFate::Keep => prev.push(lines.last()),
        }
    }
}

/// Runs of blank lines shortened to at most two: the kept lines and the
/// length of the current blank run.
pub open spec fn collapse_acc(lines: Seq<Seq<char>>) -> (Seq<Seq<char>>, nat)
    decreases lines.len(),
{
    if lines.len() == 0 {
        (seq![], 0)
    } else {
        let (out, run) = collapse_acc(lines.drop_last());
        if lines.last().len() == 0 {
            if run + 1 <= 2 {
                (out.push(lines.last()), run + 1)
            } else {
                (out, run + 1)
            }
        } else {
            (out.push(lines.last()), 0)
        }
    }
}

pub open spec fn has_theme_line(lines: Seq<Seq<char>>) -> bool {
    exists|i: int| 0 <= i < lines.len() && line_fate(#[trigger] lines[i]) == LineFate::Theme
}

/// The config text with the generated theme selected: every `theme` line
/// replaced by `theme = cosmic-synced`, inline color settings removed, blank
/// runs shortened to two lines; without a theme line, one is appended
/// (after a blank line when the text does not end with one); the result
/// ends with a line break.
pub open spec fn activated_config(contents: Seq<char>) -> Seq<char> {
    let lines = lines_of(contents);
    let collapsed = collapse_acc(rewritten(lines)).0;
    let with_theme = if has_theme_line(lines) {
        collapsed
    } else if collapsed.len() > 0 && collapsed.last().len() > 0 {
        collapsed.push(Seq::empty()).push(theme_line())
    } else {
        collapsed.push(theme_line())
    };
    join_nl(with_theme.push(Seq::empty()))
}

fn line_fate_range(c: &[char], lo: usize, hi: usize) -> (f: LineFate)
    requires
        lo <= hi <= c@.len(),
    ensures
        f == line_fate(c@.subrange(lo as int, hi as int)),
{
    let ghost line = c@.subrange(lo as int, hi as int);
    let a = crate::text::strip_start_bound(c, lo, hi, Strip::Whitespace);
    let theme = chars_of("theme");
    proof {
        reveal_strlit("theme");
    }
    if range_starts_with(c, a, hi, theme.as_slice()) && range_contains(c, a, hi, '=') {
        return LineFate::Theme;
    }
    let ghost t = strip_start(line, Strip::Whitespace);
    assert(!(starts_with(t, "theme"@) && t.contains('=')));
    let keys: [&str; 6] = [
        "background",
        "foreground",
        "cursor-color",
        "selection-foreground",
        "selection-background",
        "palette",
    ];
    assert(forall|i: int| 0 <= i < 6 ==> #[trigger] keys@[i]@ == color_keys()[i]);
    let mut k: usize = 0;
    while k < 6
        invariant
            k <= 6,
            lo <= a <= hi <= c@.len(),
            c@.subrange(a as int, hi as int) == strip_start(line, Strip::Whitespace),
            t == strip_start(line, Strip::Whitespace),
            line == c@.subrange(lo as int, hi as int),
            !(starts_with(t, "theme"@) && t.contains('=')),
            forall|i: int| 0 <= i < 6 ==> #[trigger] keys@[i]@ == color_keys()[i],
            forall|i: int|
                0 <= i < k ==> !sets_key(strip_start(line, Strip::Whitespace), #[trigger] color_keys()[i]),
        decreases 6 - k,
    {
        let key = chars_of(keys[k]);
        if range_starts_with(c, a, hi, key.as_slice()) {
            let b = crate::text::strip_start_bound(c, a + key.len(), hi, Strip::Whitespace);
            proof {
                assert(strip_start(line, Strip::Whitespace).skip(key@.len() as int) == c@.subrange(
                    a + key@.len(),
                    hi as int,
                ));
            }
            if b < hi && c[b] == '=' {
                assert(c@.subrange(b as int, hi as int)[0] == c@[b as int]);
                assert(sets_key(t, color_keys()[k as int]));
                assert(line_fate(line) == LineFate::Drop);
                return LineFate::Drop;
            }
            assert(!sets_key(strip_start(line, Strip::Whitespace), color_keys()[k as int])) by {
                if b < hi {
                    assert(c@.subrange(b as int, hi as int)[0] == c@[b as int]);
                }
            }
        }
        k = k + 1;
    }
    assert(!exists|i: int| 0 <= i < 6 && sets_key(t, #[trigger] color_keys()[i]));
    LineFate::Keep
}

/// The config text with the `cosmic-synced` theme selected.
pub fn activate_config_text(contents: &str) -> (r: String)
    ensures
        r@ == activated_config(contents@),
{
    let c = chars_of(contents);
    let spans = line_ranges(c.as_slice());
    let ghost lines = spans_view(c@, spans@);
    let mut new_lines: Vec<String> = Vec::new();
    let mut found = false;
    let mut i: usize = 0;
    while i < spans.len()
        invariant
            i <= spans@.len(),
            spans_within(c@, spans@),
            lines == spans_view(c@, spans@),
            strings_view(new_lines@) == rewritten(lines.take(i as int)),
            found == has_theme_line(lines.take(i as int)),
        decreases spans.len() - i,
    {
        let (lo, hi) = spans[i];
        let ghost line = c@.subrange(lo as int, hi as int);
        assert(lines[i as int] == line);
        assert(lines.take(i + 1).drop_last() == lines.take(i as int));
        assert(lines.take(i + 1).last() == line);
        let f = line_fate_range(c.as_slice(), lo, hi);
        let ghost before = new_lines@;
        match f {
            LineFate::Theme => {
                new_lines.push(string_from("theme = cosmic-synced"));
                found = true;
            },
            LineFate::Drop => {},
            LineFate::Keep => {
                new_lines.push(string_of_range(c.as_slice(), lo, hi));
            },
        }
        assert(strings_view(new_lines@) =~= rewritten(lines.take(i + 1)));
        assert(has_theme_line(lines.take(i + 1)) == (found)) by {
            let t = lines.take(i + 1);
            if f == LineFate::Theme {
                assert(line_fate(t[i as int]) == LineFate::Theme);
            } else if has_theme_line(t) {
                let j = choose|j: int| 0 <= j < t.len() && line_fate(#[trigger] t[j]) == LineFate::Theme;
                assert(j < i);
                assert(lines.take(i as int)[j] == t[j]);
            }
            if has_theme_line(lines.take(i as int)) {
                let j = choose|j: int| 0 <= j < i && line_fate(#[trigger] lines.take(i as int)[j]) == LineFate::Theme;
                assert(t[j] == lines.take(i as int)[j]);
            }
        }
        i = i + 1;
    }
    assert(lines.take(spans@.len() as int) == lines);
    // Shorten runs of blank lines.
    let mut collapsed: Vec<String> = Vec::new();
    let mut run: usize = 0;
    let ghost rw = strings_view(new_lines@);
    let mut j: usize = 0;
    while j < new_lines.len()
        invariant
            j <= new_lines@.len(),
            rw == strings_view(new_lines@),
            collapse_acc(rw.take(j as int)) == (strings_view(collapsed@), run as nat),
            run <= j,
        decreases new_lines.len() - j,
    {
        assert(rw.take(j + 1).drop_last() == rw.take(j as int));
        assert(rw.take(j + 1).last() == new_lines@[j as int]@);
        let ghost before = collapsed@;
        if new_lines[j].as_str().is_empty() {
            run = run + 1;
            if run <= 2 {
                collapsed.push(new_lines[j].clone());
            }
        } else {
            run = 0;
            collapsed.push(new_lines[j].clone());
        }
        assert(strings_view(collapsed@) =~= collapse_acc(rw.take(j + 1)).0);
        j = j + 1;
    }
    assert(rw.take(new_lines@.len() as int) == rw);
    let ghost col = strings_view(collapsed@);
    if !found {
        let n = collapsed.len();
        if n > 0 && !collapsed[n - 1].as_str().is_empty() {
            collapsed.push(String::new());
        }
        collapsed.push(string_from("theme = cosmic-synced"));
    }
    collapsed.push(String::new());
    proof {
        reveal_strlit("");
        assert(""@ =~= Seq::<char>::empty());
    }
    assert(strings_view(collapsed@) =~= (if has_theme_line(lines) {
        col
    } else if col.len() > 0 && col.last().len() > 0 {
        col.push(Seq::empty()).push(theme_line())
    } else {
        col.push(theme_line())
    }).push(Seq::empty()));
    join_lines(&collapsed)
}

// ---------------------------------------------------------------------
// Activating twice
// ---------------------------------------------------------------------

/// A line activation leaves as it is: a kept line or the theme line.
pub open spec fn settled_line(l: Seq<char>) -> bool {
    line_fate(l) == LineFate::Keep || l == theme_line()
}

proof fn lemma_theme_line_fate()
    ensures
        line_fate(theme_line()) == LineFate::Theme,
        plain_line(theme_line()),
        theme_line().len() > 0,
        line_fate(Seq::<char>::empty()) == LineFate::Keep,
{
    reveal_strlit("theme = cosmic-synced");
    reveal_strlit("theme");
    let t = theme_line();
    assert(t[0] == 't');
    assert(!is_ws(t[0]));
    assert(strip_start(t, Strip::Whitespace) == t);
    assert(t.take(5) =~= "theme"@);
    assert(t[6] == '=');
    assert(!t.contains('\n')) by {
        if t.contains('\n') {
            let k = choose|k: int| 0 <= k < t.len() && t[k] == '\n';
            assert(t[k] == '\n');
        }
    }
    let e = Seq::<char>::empty();
    assert(strip_start(e, Strip::Whitespace) == e);
    assert(!e.contains('='));
    assert forall|i: int| 0 <= i < 6 implies !sets_key(e, #[trigger] color_keys()[i]) by {
        reveal_strlit("background");
        reveal_strlit("foreground");
        reveal_strlit("cursor-color");
        reveal_strlit("selection-foreground");
        reveal_strlit("selection-background");
        reveal_strlit("palette");
        assert(color_keys()[i].len() > 0);
    }
}

/// Rewriting settled lines changes nothing.
proof fn lemma_rewritten_settled(w: Seq<Seq<char>>)
    requires
        forall|i: int| 0 <= i < w.len() ==> settled_line(#[trigger] w[i]),
    ensures
        rewritten(w) == w,
    decreases w.len(),
{
    if w.len() > 0 {
        let init = w.drop_last();
        assert forall|i: int| 0 <= i < init.len() implies settled_line(#[trigger] init[i]) by {
            assert(init[i] == w[i]);
        }
        lemma_rewritten_settled(init);
        lemma_theme_line_fate();
        assert(settled_line(w[w.len() - 1]));
        assert(init.push(w.last()) == w);
    }
}

/// Rewritten lines are settled, plain when the input lines are, and hold
/// the theme line when the input has a theme line.
proof fn lemma_rewritten_lines(l: Seq<Seq<char>>)
    requires
        forall|i: int| 0 <= i < l.len() ==> plain_line(#[trigger] l[i]),
    ensures
        forall|i: int| 0 <= i < rewritten(l).len() ==> settled_line(#[trigger] rewritten(l)[i])
            && plain_line(rewritten(l)[i]),
        has_theme_line(l) ==> rewritten(l).contains(theme_line()),
    decreases l.len(),
{
    lemma_theme_line_fate();
    if l.len() > 0 {
        let init = l.drop_last();
        assert forall|i: int| 0 <= i < init.len() implies plain_line(#[trigger] init[i]) by {
            assert(init[i] == l[i]);
        }
        lemma_rewritten_lines(init);
        let prev = rewritten(init);
        let x = l.last();
        assert(plain_line(l[l.len() - 1]));
        assert forall|i: int| 0 <= i < rewritten(l).len() implies settled_line(#[trigger] rewritten(l)[i])
            && plain_line(rewritten(l)[i]) by {
            if i < prev.len() {
                assert(rewritten(l)[i] == prev[i]);
            }
        }
        if has_theme_line(l) {
            if line_fate(x) == LineFate::Theme {
                assert(rewritten(l)[rewritten(l).len() - 1] == theme_line());
            } else {
                let j = choose|j: int| 0 <= j < l.len() && line_fate(#[trigger] l[j]) == LineFate::Theme;
                assert(j < l.len() - 1);
                assert(init[j] == l[j]);
                assert(has_theme_line(init));
                let k = choose|k: int| 0 <= k < prev.len() && prev[k] == theme_line();
                assert(rewritten(l)[k] == prev[k]);
            }
        }
    }
}

/// Shortening blank runs keeps only lines of the input, keeps every
/// non-empty line, ends on a blank line exactly when the run is not zero,
/// and shortening again changes nothing.
proof fn lemma_collapse(x: Seq<Seq<char>>, p: spec_fn(Seq<char>) -> bool)
    requires
        forall|i: int| 0 <= i < x.len() ==> p(#[trigger] x[i]),
    ensures
        forall|i: int| 0 <= i < collapse_acc(x).0.len() ==> p(#[trigger] collapse_acc(x).0[i]),
        collapse_acc(x).1 > 0 ==> collapse_acc(x).0.len() > 0 && collapse_acc(x).0.last().len() == 0,
        collapse_acc(collapse_acc(x).0) == (collapse_acc(x).0, if collapse_acc(x).1 <= 2 {
            collapse_acc(x).1
        } else {
            2nat
        }),
        forall|y: Seq<char>| y.len() > 0 && x.contains(y) ==> collapse_acc(x).0.contains(y),
    decreases x.len(),
{
    if x.len() > 0 {
        let init = x.drop_last();
        assert forall|i: int| 0 <= i < init.len() implies p(#[trigger] init[i]) by {
            assert(init[i] == x[i]);
        }
        lemma_collapse(init, p);
        let (y0, r0) = collapse_acc(init);
        let l = x.last();
        assert(p(x[x.len() - 1]));
        let y1 = collapse_acc(x).0;
        assert forall|i: int| 0 <= i < y1.len() implies p(#[trigger] y1[i]) by {
            if i < y0.len() {
                assert(y1[i] == y0[i]);
            }
        }
        if l.len() == 0 {
            if r0 + 1 <= 2 {
                assert(y1 == y0.push(l));
                assert(y1.drop_last() == y0);
            }
        } else {
            assert(y1.drop_last() == y0);
        }
        assert forall|y: Seq<char>| y.len() > 0 && x.contains(y) implies y1.contains(y) by {
            let j = choose|j: int| 0 <= j < x.len() && x[j] == y;
            if j < x.len() - 1 {
                assert(init[j] == x[j]);
                assert(init.contains(y));
                assert(y0.contains(y));
                let k = choose|k: int| 0 <= k < y0.len() && y0[k] == y;
                assert(y1[k] == y0[k]);
                assert(y1[k] == y);
            } else {
                assert(l == y);
                assert(y1 == y0.push(l));
                assert(y1[y1.len() - 1] == y);
            }
        }
    }
}

/// The lines the activated config consists of, before its final line
/// break.
pub open spec fn activated_lines(contents: Seq<char>) -> Seq<Seq<char>> {
    let lines = lines_of(contents);
    let collapsed = collapse_acc(rewritten(lines)).0;
    if has_theme_line(lines) {
        collapsed
    } else if collapsed.len() > 0 && collapsed.last().len() > 0 {
        collapsed.push(Seq::empty()).push(theme_line())
    } else {
        collapsed.push(theme_line())
    }
}

proof fn lemma_activated_lines(contents: Seq<char>)
    requires
        no_cr_line_ends(contents),
    ensures
        activated_config(contents) == join_nl(activated_lines(contents)).push('\n'),
        lines_of(activated_config(contents)) == activated_lines(contents),
        forall|i: int| 0 <= i < activated_lines(contents).len() ==> settled_line(
            #[trigger] activated_lines(contents)[i],
        ),
        activated_lines(contents).contains(theme_line()),
        collapse_acc(activated_lines(contents)).0 == activated_lines(contents),
{
    let lines = lines_of(contents);
    lemma_lines_plain(contents);
    assert forall|i: int| 0 <= i < lines.len() implies plain_line(#[trigger] lines[i]) by {
        assert(!lines[i].contains('\n'));
        if lines[i].len() > 0 {
            assert(lines[i][lines[i].len() - 1] == lines[i].last());
        }
    }
    lemma_rewritten_lines(lines);
    lemma_theme_line_fate();
    let rw = rewritten(lines);
    let good = |l: Seq<char>| settled_line(l) && plain_line(l);
    assert forall|i: int| 0 <= i < rw.len() implies good(#[trigger] rw[i]) by {}
    lemma_collapse(rw, good);
    let (col, run) = collapse_acc(rw);
    let w = activated_lines(contents);
    assert forall|i: int| 0 <= i < w.len() implies settled_line(#[trigger] w[i]) && plain_line(w[i]) by {
        if i < col.len() {
            assert(w[i] == col[i]);
            assert(good(col[i]));
        } else if w[i] == theme_line() {
        } else {
            assert(w[i] == Seq::<char>::empty());
        }
    }
    if has_theme_line(lines) {
        assert(rw.contains(theme_line()));
        assert(col.contains(theme_line()));
    } else if col.len() > 0 && col.last().len() > 0 {
        assert(w[w.len() - 1] == theme_line());
        assert(run == 0);
        reveal_with_fuel(collapse_acc, 3);
        assert(w.drop_last() == col.push(Seq::<char>::empty()));
        assert(w.drop_last().drop_last() == col);
    } else {
        assert(w[w.len() - 1] == theme_line());
        reveal_with_fuel(collapse_acc, 2);
        assert(w.drop_last() == col);
    }
    assert(w.len() > 0);
    lemma_join_split(w);
    assert(w.push(Seq::<char>::empty()).drop_last() == w);
    assert(join_nl(w.push(Seq::<char>::empty())) == join_nl(w) + seq!['\n'] + Seq::<char>::empty());
    assert(activated_config(contents) =~= join_nl(w).push('\n'));
}

/// Activating the theme in a config that was already activated changes
/// nothing (for texts none of whose lines ends in a carriage return).
pub proof fn lemma_activate_twice(contents: Seq<char>)
    requires
        no_cr_line_ends(contents),
    ensures
        activated_config(activated_config(contents)) == activated_config(contents),
{
    lemma_activated_lines(contents);
    let out = activated_config(contents);
    let w = activated_lines(contents);
    lemma_rewritten_settled(w);
    lemma_theme_line_fate();
    let k = choose|k: int| 0 <= k < w.len() && w[k] == theme_line();
    assert(line_fate(w[k]) == LineFate::Theme);
    assert(has_theme_line(w));
    assert(activated_lines(out) == w);
}

/// No inline color setting: the line (after leading whitespace) sets none
/// of background, foreground, cursor-color, selection-foreground,
/// selection-background or palette.
pub open spec fn sets_no_inline_color(l: Seq<char>) -> bool {
    let t = strip_start(l, Strip::Whitespace);
    &&& !sets_key(t, "background"@)
    &&& !sets_key(t, "foreground"@)
    &&& !sets_key(t, "cursor-color"@)
    &&& !sets_key(t, "selection-foreground"@)
    &&& !sets_key(t, "selection-background"@)
    &&& !sets_key(t, "palette"@)
}

proof fn lemma_settled_no_inline_color(l: Seq<char>)
    requires
        settled_line(l),
    ensures
        sets_no_inline_color(l),
{
    let t = strip_start(l, Strip::Whitespace);
    reveal_strlit("background");
    reveal_strlit("foreground");
    reveal_strlit("cursor-color");
    reveal_strlit("selection-foreground");
    reveal_strlit("selection-background");
    reveal_strlit("palette");
    if line_fate(l) == LineFate::Keep {
        assert(!sets_key(t, color_keys()[0]));
        assert(!sets_key(t, color_keys()[1]));
        assert(!sets_key(t, color_keys()[2]));
        assert(!sets_key(t, color_keys()[3]));
        assert(!sets_key(t, color_keys()[4]));
        assert(!sets_key(t, color_keys()[5]));
    } else {
        reveal_strlit("theme = cosmic-synced");
        assert(l == theme_line());
        assert(!is_ws(l[0]));
        assert(t == l);
        assert forall|k: Seq<char>| k.len() > 0 && k[0] != 't' implies !starts_with(t, k) by {
            if starts_with(t, k) {
                assert(t.take(k.len() as int)[0] == t[0]);
            }
        }
    }
}

/// After activation no line of the config (for texts none of whose lines
/// ends in a carriage return) sets an inline color: background,
/// foreground, cursor-color, selection colors and palette entries are
/// left to the theme, and one of its lines selects the generated theme.
pub proof fn lemma_activated_no_inline_colors(contents: Seq<char>)
    requires
        no_cr_line_ends(contents),
    ensures
        lines_of(activated_config(contents)).contains("theme = cosmic-synced"@),
        forall|i: int|
            0 <= i < lines_of(activated_config(contents)).len() ==> sets_no_inline_color(
                #[trigger] lines_of(activated_config(contents))[i],
            ),
{
    lemma_activated_lines(contents);
    let w = activated_lines(contents);
    assert forall|i: int| 0 <= i < w.len() implies sets_no_inline_color(#[trigger] w[i]) by {
        lemma_settled_no_inline_color(w[i]);
    }
}

} // verus!
