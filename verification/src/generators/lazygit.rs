//! lazygit theme: the `gui.theme` YAML block generated from the palette, and
//! the update of the user's lazygit config that keeps exactly one such block,
//! found again by its marker comment.
use vstd::prelude::*;
use crate::colors::ColorPalette;
use crate::text::{
    chars_of, push_str, string_from, Strip, strip_end, trim, starts_with, lines_of, line_ranges,
    spans_view, spans_within, range_eq, strip_bounds, strip_end_bound, join_nl, join_lines,
    strings_view, lines_acc, is_ws, plain_line, lemma_join_split, lemma_lines_plain,
    lemma_strip_end_last, lemma_split_terminated, lemma_lines_acc_append, lemma_lines_acc_line,
    strips, strip_start, lemma_strip_keeps, no_cr_line_ends,
};
use crate::paths::string_of_range;

verus! {

/// The comment line that opens the managed block.
pub const MARKER: &'static str = "# COSMIC ORDER theme — auto-generated";

/// The comment line that opens the managed block, as characters.
pub open spec fn marker() -> Seq<char> {
    "# COSMIC ORDER theme — auto-generated"@
}

/// One color key of the theme: `key:` and a one-item list with the quoted color.
pub open spec fn color_entry(key: Seq<char>, color: Seq<char>) -> Seq<char> {
    "    "@ + key + ":\n      - \""@ + color + "\"\n"@
}

/// A color key whose list also holds `bold`.
pub open spec fn bold_entry(key: Seq<char>, color: Seq<char>) -> Seq<char> {
    color_entry(key, color) + "      - bold\n"@
}

/// The managed block for a palette: the marker, `gui:`, `  theme:`, then the
/// eleven color keys.
pub open spec fn theme_block(p: ColorPalette) -> Seq<char> {
    marker() + "\n"@ + "gui:\n"@ + "  theme:\n"@
        + bold_entry("activeBorderColor"@, p.accent@)
        + color_entry("inactiveBorderColor"@, p.colors[8]@)
        + bold_entry("searchingActiveBorderColor"@, p.accent@)
        + color_entry("optionsTextColor"@, p.colors[4]@)
        + color_entry("selectedLineBgColor"@, p.colors[0]@)
        + color_entry("cherryPickedCommitFgColor"@, p.colors[4]@)
        + color_entry("cherryPickedCommitBgColor"@, p.colors[5]@)
        + color_entry("markedBaseCommitFgColor"@, p.colors[4]@)
        + color_entry("markedBaseCommitBgColor"@, p.colors[3]@)
        + color_entry("unstagedChangesColor"@, p.colors[1]@)
        + color_entry("defaultFgColor"@, p.foreground@)
}

fn push_entry(out: &mut String, key: &str, color: &str, bold: bool)
    ensures
        final(out)@ == old(out)@ + (if bold {
            bold_entry(key@, color@)
        } else {
            color_entry(key@, color@)
        }),
{
    push_str(out, "    ");
    push_str(out, key);
    push_str(out, ":\n      - \"");
    push_str(out, color);
    push_str(out, "\"\n");
    if bold {
        push_str(out, "      - bold\n");
    }
    assert(final(out)@ =~= old(out)@ + (if bold {
        bold_entry(key@, color@)
    } else {
        color_entry(key@, color@)
    }));
}

/// Generate the lazygit `gui.theme` YAML block.
pub fn generate_theme_block(palette: &ColorPalette) -> (r: String)
    ensures
        r@ == theme_block(*palette),
{
    let mut out = String::new();
    push_str(&mut out, "# COSMIC ORDER theme — auto-generated");
    push_str(&mut out, "\n");
    push_str(&mut out, "gui:\n");
    push_str(&mut out, "  theme:\n");
    push_entry(&mut out, "activeBorderColor", palette.accent.as_str(), true);
    push_entry(&mut out, "inactiveBorderColor", palette.colors[8].as_str(), false);
    push_entry(&mut out, "searchingActiveBorderColor", palette.accent.as_str(), true);
    push_entry(&mut out, "optionsTextColor", palette.colors[4].as_str(), false);
    push_entry(&mut out, "selectedLineBgColor", palette.colors[0].as_str(), false);
    push_entry(&mut out, "cherryPickedCommitFgColor", palette.colors[4].as_str(), false);
    push_entry(&mut out, "cherryPickedCommitBgColor", palette.colors[5].as_str(), false);
    push_entry(&mut out, "markedBaseCommitFgColor", palette.colors[4].as_str(), false);
    push_entry(&mut out, "markedBaseCommitBgColor", palette.colors[3].as_str(), false);
    push_entry(&mut out, "unstagedChangesColor", palette.colors[1].as_str(), false);
    push_entry(&mut out, "defaultFgColor", palette.foreground.as_str(), false);
    assert(out@ =~= theme_block(*palette));
    out
}

// ---------------------------------------------------------------------
// Updating the config
// ---------------------------------------------------------------------

/// A line that continues the managed block after its marker: blank,
/// indented, or the `gui:` line.
pub open spec fn continues_block(line: Seq<char>) -> bool {
    trim(line).len() == 0 || starts_with(line, " "@) || starts_with(line, "\t"@) || trim(line)
        == "gui:"@
}

/// One line of the scan: the state is the lines kept so far, whether the
/// scan is inside the managed block, and whether a marker was seen.
pub open spec fn scan_step(st: (Seq<Seq<char>>, bool, bool), line: Seq<char>) -> (
    Seq<Seq<char>>,
    bool,
    bool,
) {
    let (kept, skip, found) = st;
    if trim(line) == marker() {
        (kept, true, true)
    } else if skip && continues_block(line) {
        (kept, true, found)
    } else {
        (kept.push(line), false, found)
    }
}

/// The scan of `lines` from the state `st`.
pub open spec fn scan_from(st: (Seq<Seq<char>>, bool, bool), lines: Seq<Seq<char>>) -> (
    Seq<Seq<char>>,
    bool,
    bool,
)
    decreases lines.len(),
{
    if lines.len() == 0 {
        st
    } else {
        scan_step(scan_from(st, lines.drop_last()), lines.last())
    }
}

/// The lines kept from the old config, whether the scan ends inside the
/// managed block, and whether a marker was seen.
pub open spec fn scan(lines: Seq<Seq<char>>) -> (Seq<Seq<char>>, bool, bool) {
    scan_from((seq![], false, false), lines)
}

/// `lines` without its trailing empty lines.
pub open spec fn drop_trailing_empty(lines: Seq<Seq<char>>) -> Seq<Seq<char>>
    decreases lines.len(),
{
    if lines.len() > 0 && lines.last().len() == 0 {
        drop_trailing_empty(lines.drop_last())
    } else {
        lines
    }
}

/// The config with the managed block replaced: the old block (marker and
/// the lines that continue it) removed, trailing blank lines dropped, one
/// blank line, the new block without trailing whitespace, and a final line
/// break.
pub open spec fn updated_config(contents: Seq<char>, block: Seq<char>) -> Seq<char> {
    let kept = drop_trailing_empty(scan(lines_of(contents)).0);
    let head = if kept.len() > 0 {
        kept.push(Seq::empty())
    } else {
        kept
    };
    join_nl(head.push(strip_end(block, Strip::Whitespace)).push(Seq::empty()))
}

/// What the scan does with one line: 0 starts the block, 1 skips the line,
/// 2 keeps it.
fn classify_line(c: &[char], lo: usize, hi: usize, skip: bool, mk: &[char], gui: &[char]) -> (k: u8)
    requires
        lo <= hi <= c@.len(),
        mk@ == marker(),
        gui@ == "gui:"@,
    ensures
        k <= 2,
        k == 0 <==> trim(c@.subrange(lo as int, hi as int)) == marker(),
        k == 1 <==> (trim(c@.subrange(lo as int, hi as int)) != marker() && skip
            && continues_block(c@.subrange(lo as int, hi as int))),
{
    let ghost line = c@.subrange(lo as int, hi as int);
    let (a, b) = strip_bounds(c, lo, hi, Strip::Whitespace);
    if range_eq(c, a, b, mk) {
        return 0;
    }
    if skip {
        let indented = hi > lo && (c[lo] == ' ' || c[lo] == '\t');
        proof {
            reveal_strlit(" ");
            reveal_strlit("\t");
            assert(" "@ =~= seq![' ']);
            assert("\t"@ =~= seq!['\t']);
            if hi > lo {
                assert(line.take(1) =~= seq![c@[lo as int]]);
                assert(line.take(1)[0] == c@[lo as int]);
                assert(" "@[0] == ' ');
                assert("\t"@[0] == '\t');
                assert(starts_with(line, " "@) == (c@[lo as int] == ' '));
                assert(starts_with(line, "\t"@) == (c@[lo as int] == '\t'));
            } else {
                assert(!starts_with(line, " "@));
                assert(!starts_with(line, "\t"@));
            }
        }
        if a == b || indented || range_eq(c, a, b, gui) {
            return 1;
        }
    }
    2
}

/// Replace the managed block in `contents` with `theme_block`, or append it.
pub fn update_config(contents: &str, theme_block: &str) -> (r: String)
    ensures
        r@ == updated_config(contents@, theme_block@),
{
    let c = chars_of(contents);
    let mk = chars_of("# COSMIC ORDER theme — auto-generated");
    let gui = chars_of("gui:");
    let spans = line_ranges(c.as_slice());
    let ghost ls = spans_view(c@, spans@);
    let mut lines: Vec<String> = Vec::new();
    let mut skip_block = false;
    let mut found_block = false;
    let mut i: usize = 0;
    while i < spans.len()
        invariant
            i <= spans@.len(),
            spans_within(c@, spans@),
            ls == spans_view(c@, spans@),
            mk@ == marker(),
            gui@ == "gui:"@,
            scan(ls.take(i as int)) == (strings_view(lines@), skip_block, found_block),
        decreases spans.len() - i,
    {
        let (lo, hi) = spans[i];
        assert(ls[i as int] == c@.subrange(lo as int, hi as int));
        assert(ls.take(i + 1).drop_last() == ls.take(i as int));
        assert(ls.take(i + 1).last() == ls[i as int]);
        let k = classify_line(c.as_slice(), lo, hi, skip_block, mk.as_slice(), gui.as_slice());
        if k == 0 {
            skip_block = true;
            found_block = true;
        } else if k == 2 {
            skip_block = false;
            lines.push(string_of_range(c.as_slice(), lo, hi));
        }
        assert(strings_view(lines@) =~= scan(ls.take(i + 1)).0);
        i = i + 1;
    }
    assert(ls.take(spans@.len() as int) == ls);
    let ghost kept = strings_view(lines@);
    // A separating blank line; the trimming below takes it away again.
    let n = lines.len();
    if !found_block && n > 0 && !lines[n - 1].as_str().is_empty() {
        lines.push(String::new());
        proof {
            reveal_strlit("");
        }
        assert(strings_view(lines@) == kept.push(Seq::empty()));
        assert(strings_view(lines@).drop_last() == kept);
    }
    assert(drop_trailing_empty(strings_view(lines@)) == drop_trailing_empty(kept));
    while lines.len() > 0 && lines[lines.len() - 1].as_str().is_empty()
        invariant
            drop_trailing_empty(strings_view(lines@)) == drop_trailing_empty(kept),
        decreases lines.len(),
    {
        let ghost before = strings_view(lines@);
        lines.pop();
        assert(strings_view(lines@) == before.drop_last());
    }
    let ghost tail = strings_view(lines@);
    assert(tail == drop_trailing_empty(kept));
    if lines.len() > 0 {
        lines.push(String::new());
    }
    let tb = chars_of(theme_block);
    let e = strip_end_bound(tb.as_slice(), 0, tb.len(), Strip::Whitespace);
    assert(tb@.subrange(0, tb@.len() as int) == tb@);
    lines.push(string_of_range(tb.as_slice(), 0, e));
    lines.push(String::new());
    proof {
        reveal_strlit("");
    }
    assert(strings_view(lines@) =~= (if tail.len() > 0 {
        tail.push(Seq::empty())
    } else {
        tail
    }).push(strip_end(theme_block@, Strip::Whitespace)).push(Seq::empty()));
    join_lines(&lines)
}

// ---------------------------------------------------------------------
// Updating twice
// ---------------------------------------------------------------------

/// A managed block as the generator writes it: its text without trailing
/// whitespace holds no carriage return, and its lines are the marker line
/// followed by lines that continue the block.
pub open spec fn block_shape(block: Seq<char>) -> bool {
    let b = strip_end(block, Strip::Whitespace);
    let bl = lines_of(b);
    &&& !b.contains('\r')
    &&& bl.len() > 0
    &&& trim(bl[0]) == marker()
    &&& forall|i: int| 1 <= i < bl.len() ==> continues_block(#[trigger] bl[i])
}

proof fn lemma_scan_from_append(
    st: (Seq<Seq<char>>, bool, bool),
    p: Seq<Seq<char>>,
    q: Seq<Seq<char>>,
)
    ensures
        scan_from(st, p + q) == scan_from(scan_from(st, p), q),
    decreases q.len(),
{
    if q.len() == 0 {
        assert(p + q == p);
    } else {
        lemma_scan_from_append(st, p, q.drop_last());
        assert((p + q).drop_last() == p + q.drop_last());
        assert((p + q).last() == q.last());
    }
}

/// A line the scan keeps is plain (when the lines are), and is never a
/// marker line.
proof fn lemma_kept_lines(st: (Seq<Seq<char>>, bool, bool), lines: Seq<Seq<char>>)
    requires
        forall|i: int| 0 <= i < lines.len() ==> plain_line(#[trigger] lines[i]),
        forall|i: int| 0 <= i < st.0.len() ==> plain_line(#[trigger] st.0[i]) && trim(st.0[i]) != marker(),
    ensures
        forall|i: int| 0 <= i < scan_from(st, lines).0.len() ==> plain_line(#[trigger] scan_from(st, lines).0[i])
            && trim(scan_from(st, lines).0[i]) != marker(),
    decreases lines.len(),
{
    if lines.len() > 0 {
        let init = lines.drop_last();
        assert forall|i: int| 0 <= i < init.len() implies plain_line(#[trigger] init[i]) by {
            assert(init[i] == lines[i]);
        }
        lemma_kept_lines(st, init);
        let k = scan_from(st, init).0;
        let l = lines.last();
        assert(l == lines[lines.len() - 1]);
        assert forall|i: int| 0 <= i < k.push(l).len() && trim(l) != marker() implies plain_line(#[trigger] k.push(l)[i])
            && trim(k.push(l)[i]) != marker() by {
            if i < k.len() {
                assert(k.push(l)[i] == k[i]);
            }
        }
    }
}

/// Lines that are no marker lines, scanned outside the block, are all kept.
proof fn lemma_scan_plain(k0: Seq<Seq<char>>, h: Seq<Seq<char>>)
    requires
        forall|i: int| 0 <= i < h.len() ==> trim(#[trigger] h[i]) != marker(),
    ensures
        scan_from((k0, false, false), h) == (k0 + h, false, false),
    decreases h.len(),
{
    if h.len() == 0 {
        assert(k0 + h == k0);
    } else {
        let init = h.drop_last();
        assert forall|i: int| 0 <= i < init.len() implies trim(#[trigger] init[i]) != marker() by {
            assert(init[i] == h[i]);
        }
        lemma_scan_plain(k0, init);
        assert(trim(h[h.len() - 1]) != marker());
        assert((k0 + init).push(h.last()) == k0 + h);
    }
}

/// Inside the block, lines that continue it are all skipped.
proof fn lemma_scan_block(k: Seq<Seq<char>>, q: Seq<Seq<char>>)
    requires
        forall|i: int| 0 <= i < q.len() ==> continues_block(#[trigger] q[i]),
    ensures
        scan_from((k, true, true), q) == (k, true, true),
    decreases q.len(),
{
    if q.len() > 0 {
        let init = q.drop_last();
        assert forall|i: int| 0 <= i < init.len() implies continues_block(#[trigger] init[i]) by {
            assert(init[i] == q[i]);
        }
        lemma_scan_block(k, init);
        assert(continues_block(q[q.len() - 1]));
    }
}

proof fn lemma_dte_ends(lines: Seq<Seq<char>>)
    ensures
        drop_trailing_empty(lines).len() == 0 || drop_trailing_empty(lines).last().len() > 0,
    decreases lines.len(),
{
    if lines.len() > 0 && lines.last().len() == 0 {
        lemma_dte_ends(lines.drop_last());
    }
}

/// The kept lines of a config without its trailing blank lines.
pub open spec fn kept_lines(contents: Seq<char>) -> Seq<Seq<char>> {
    drop_trailing_empty(scan(lines_of(contents)).0)
}

/// The lines the updated config starts with: the kept lines and, when
/// there are any, a blank line.
pub open spec fn head_lines(contents: Seq<char>) -> Seq<Seq<char>> {
    let k = kept_lines(contents);
    if k.len() > 0 {
        k.push(Seq::<char>::empty())
    } else {
        k
    }
}

/// The lines of the updated config, split back: the kept lines, the blank
/// separating line, and the block's lines.
proof fn lemma_updated_lines(contents: Seq<char>, block: Seq<char>)
    requires
        no_cr_line_ends(contents),
        block_shape(block),
    ensures
        lines_of(updated_config(contents, block)) == head_lines(contents) + lines_of(
            strip_end(block, Strip::Whitespace),
        ),
        forall|i: int| 0 <= i < head_lines(contents).len() ==> trim(#[trigger] head_lines(contents)[i]) != marker(),
        drop_trailing_empty(head_lines(contents)) == kept_lines(contents),
{
    let ls = lines_of(contents);
    lemma_lines_plain(contents);
    assert forall|i: int| 0 <= i < ls.len() implies plain_line(#[trigger] ls[i]) by {
        assert(!ls[i].contains('\n'));
        assert(ls[i].len() == 0 || ls[i].last() != '\r');
    }
    lemma_kept_lines((seq![], false, false), ls);
    let kept = scan(ls).0;
    let k = drop_trailing_empty(kept);
    lemma_dte_sub(kept);
    lemma_dte_ends(kept);
    let h = if k.len() > 0 {
        k.push(Seq::<char>::empty())
    } else {
        k
    };
    assert(trim(Seq::<char>::empty()) == Seq::<char>::empty());
    assert(marker().len() > 0) by {
        reveal_strlit("# COSMIC ORDER theme — auto-generated");
    }
    assert forall|i: int| 0 <= i < h.len() implies trim(#[trigger] h[i]) != marker() && plain_line(h[i]) by {
        if i < k.len() {
            assert(h[i] == k[i]);
            assert(k[i] == kept[i]);
        } else {
            assert(h[i] == Seq::<char>::empty());
        }
    }
    let b = strip_end(block, Strip::Whitespace);
    lemma_strip_end_last(block);
    assert(b.len() > 0) by {
        if b.len() == 0 {
            assert(lines_acc(b) == (Seq::<Seq<char>>::empty(), Seq::<char>::empty()));
        }
    }
    assert(b.last() != '\n') by {
        assert(is_ws('\n'));
    }
    lemma_split_terminated(b);
    let out = updated_config(contents, block);
    let y = h.push(b).push(Seq::<char>::empty());
    if h.len() > 0 {
        lemma_join_split(h);
        assert(h.push(b).drop_last() == h);
        assert(y.drop_last() == h.push(b));
        assert(join_nl(h.push(b)) == join_nl(h) + seq!['\n'] + b);
        assert(out =~= join_nl(h).push('\n') + b.push('\n'));
        lemma_lines_acc_append(join_nl(h).push('\n'), b.push('\n'));
    } else {
        assert(h.push(b).push(Seq::<char>::empty()) =~= seq![b, Seq::<char>::empty()]);
        assert(seq![b, Seq::<char>::empty()].drop_last() =~= seq![b]);
        assert(join_nl(seq![b]) == b);
        assert(out =~= b.push('\n'));
        assert(h + lines_of(b) =~= lines_of(b));
    }
    if k.len() > 0 {
        assert(h.drop_last() == k);
        lemma_dte_fixed(k);
    } else {
        assert(drop_trailing_empty(h) == h);
    }
}

proof fn lemma_dte_sub(lines: Seq<Seq<char>>)
    ensures
        drop_trailing_empty(lines).len() <= lines.len(),
        forall|i: int| 0 <= i < drop_trailing_empty(lines).len() ==> #[trigger] drop_trailing_empty(lines)[i] == lines[i],
    decreases lines.len(),
{
    if lines.len() > 0 && lines.last().len() == 0 {
        lemma_dte_sub(lines.drop_last());
    }
}

proof fn lemma_dte_fixed(k: Seq<Seq<char>>)
    requires
        k.len() == 0 || k.last().len() > 0,
    ensures
        drop_trailing_empty(k) == k,
{
}

/// Updating a config twice with the same managed block gives what one
/// update gives: the block is replaced, never added a second time (for
/// texts none of whose lines ends in a carriage return, and a block of the
/// shape the generator writes).
pub proof fn lemma_update_twice(contents: Seq<char>, block: Seq<char>)
    requires
        no_cr_line_ends(contents),
        block_shape(block),
    ensures
        updated_config(updated_config(contents, block), block) == updated_config(contents, block),
{
    let out = updated_config(contents, block);
    lemma_updated_lines(contents, block);
    let k = kept_lines(contents);
    let h = head_lines(contents);
    let bl = lines_of(strip_end(block, Strip::Whitespace));
    lemma_scan_from_append((seq![], false, false), h, bl);
    lemma_scan_plain(seq![], h);
    assert(Seq::<Seq<char>>::empty() + h == h);
    let rest = bl.skip(1);
    assert(bl == seq![bl[0]] + rest);
    lemma_scan_from_append((h, false, false), seq![bl[0]], rest);
    assert(seq![bl[0]].drop_last() == Seq::<Seq<char>>::empty());
    assert(seq![bl[0]].last() == bl[0]);
    assert(trim(bl[0]) == marker());
    reveal_with_fuel(scan_from, 2);
    assert(scan_from((h, false, false), seq![bl[0]]) == (h, true, true));
    assert forall|i: int| 0 <= i < rest.len() implies continues_block(#[trigger] rest[i]) by {
        assert(rest[i] == bl[i + 1]);
    }
    lemma_scan_block(h, rest);
    assert(scan(lines_of(out)).0 == h);
}

/// A managed block whose lines after the marker are no marker lines.
pub open spec fn single_marker_block(block: Seq<char>) -> bool {
    let bl = lines_of(strip_end(block, Strip::Whitespace));
    &&& block_shape(block)
    &&& forall|i: int| 1 <= i < bl.len() ==> trim(#[trigger] bl[i]) != marker()
}

/// The updated config ends with the block (without its trailing
/// whitespace) and a line break.
pub proof fn lemma_update_ends_with_block(contents: Seq<char>, block: Seq<char>)
    ensures
        ({
            let out = updated_config(contents, block);
            let b = strip_end(block, Strip::Whitespace);
            out.len() >= b.len() + 1 && out.skip(out.len() - b.len() - 1) == b.push('\n')
        }),
{
    let k = drop_trailing_empty(scan(lines_of(contents)).0);
    let head = if k.len() > 0 {
        k.push(Seq::empty())
    } else {
        k
    };
    let b = strip_end(block, Strip::Whitespace);
    let y = head.push(b).push(Seq::<char>::empty());
    assert(y.drop_last() == head.push(b));
    assert(y.last() == Seq::<char>::empty());
    let out = updated_config(contents, block);
    if head.len() == 0 {
        assert(head.push(b) =~= seq![b]);
        assert(join_nl(head.push(b)) == b);
        assert(out =~= b + seq!['\n'] + Seq::<char>::empty());
        assert(out.skip(0) == out);
    } else {
        assert(head.push(b).drop_last() == head);
        assert(head.push(b).last() == b);
        let pre = join_nl(head) + seq!['\n'];
        assert(out == join_nl(y));
        assert(join_nl(y) == join_nl(head.push(b)) + seq!['\n'] + Seq::<char>::empty());
        assert(join_nl(head.push(b)) == join_nl(head) + seq!['\n'] + b);
        assert(out =~= pre + b.push('\n'));
        assert(out.skip(out.len() - b.len() - 1) =~= b.push('\n'));
    }
}

/// After an update, the config holds exactly one marker line: the first line
/// of the new block (for texts none of whose lines ends in a carriage
/// return, and a block of the shape the generator writes).
pub proof fn lemma_update_single_marker(contents: Seq<char>, block: Seq<char>)
    requires
        no_cr_line_ends(contents),
        single_marker_block(block),
    ensures
        ({
            let ls = lines_of(updated_config(contents, block));
            exists|m: int|
                0 <= m < ls.len() && trim(#[trigger] ls[m]) == marker() && forall|j: int|
                    0 <= j < ls.len() && j != m ==> trim(#[trigger] ls[j]) != marker()
        }),
{
    lemma_updated_lines(contents, block);
    let h = head_lines(contents);
    let bl = lines_of(strip_end(block, Strip::Whitespace));
    let ls = lines_of(updated_config(contents, block));
    let m = h.len() as int;
    assert(ls[m] == bl[0]);
    assert forall|j: int| 0 <= j < ls.len() && j != m implies trim(#[trigger] ls[j]) != marker() by {
        if j < m {
            assert(ls[j] == h[j]);
        } else {
            assert(ls[j] == bl[j - m]);
        }
    }
}

// ---------------------------------------------------------------------
// The generated block has the managed shape
// ---------------------------------------------------------------------

/// Lines, each followed by a line break.
pub open spec fn terminated(ls: Seq<Seq<char>>) -> Seq<char>
    decreases ls.len(),
{
    if ls.len() == 0 {
        seq![]
    } else {
        terminated(ls.drop_last()) + ls.last().push('\n')
    }
}

/// A line without line breaks or carriage returns.
pub open spec fn clean_line(l: Seq<char>) -> bool {
    !l.contains('\n') && !l.contains('\r')
}

/// A line that may follow the marker inside the block.
pub open spec fn tail_line(l: Seq<char>) -> bool {
    clean_line(l) && continues_block(l) && trim(l) != marker()
}

/// The lines of the generated block for one color key.
pub open spec fn entry_lines(key: Seq<char>, color: Seq<char>, bold: bool) -> Seq<Seq<char>> {
    let ls = seq!["    "@ + key + ":"@, "      - \""@ + color + "\""@];
    if bold {
        ls.push("      - bold"@)
    } else {
        ls
    }
}

/// The lines of the generated block.
pub open spec fn theme_block_lines(p: ColorPalette) -> Seq<Seq<char>> {
    seq![marker(), "gui:"@, "  theme:"@] + entry_lines("activeBorderColor"@, p.accent@, true)
        + entry_lines("inactiveBorderColor"@, p.colors[8]@, false) + entry_lines(
        "searchingActiveBorderColor"@,
        p.accent@,
        true,
    ) + entry_lines("optionsTextColor"@, p.colors[4]@, false) + entry_lines(
        "selectedLineBgColor"@,
        p.colors[0]@,
        false,
    ) + entry_lines("cherryPickedCommitFgColor"@, p.colors[4]@, false) + entry_lines(
        "cherryPickedCommitBgColor"@,
        p.colors[5]@,
        false,
    ) + entry_lines("markedBaseCommitFgColor"@, p.colors[4]@, false) + entry_lines(
        "markedBaseCommitBgColor"@,
        p.colors[3]@,
        false,
    ) + entry_lines("unstagedChangesColor"@, p.colors[1]@, false) + entry_lines(
        "defaultFgColor"@,
        p.foreground@,
        false,
    )
}

/// A palette whose colors hold no line breaks or carriage returns.
pub open spec fn clean_palette(p: ColorPalette) -> bool {
    &&& clean_line(p.accent@)
    &&& clean_line(p.foreground@)
    &&& forall|i: int| 0 <= i < 16 ==> clean_line(#[trigger] p.colors[i]@)
}

proof fn lemma_terminated_append(a: Seq<Seq<char>>, b: Seq<Seq<char>>)
    ensures
        terminated(a + b) == terminated(a) + terminated(b),
    decreases b.len(),
{
    if b.len() == 0 {
        assert(a + b =~= a);
        assert(terminated(a) + terminated(b) =~= terminated(a));
    } else {
        lemma_terminated_append(a, b.drop_last());
        assert((a + b).drop_last() =~= a + b.drop_last());
        assert((a + b).last() == b.last());
        assert(terminated(a + b) =~= terminated(a) + terminated(b));
    }
}

proof fn lemma_terminated_lines(ls: Seq<Seq<char>>)
    requires
        forall|i: int| 0 <= i < ls.len() ==> clean_line(#[trigger] ls[i]),
    ensures
        lines_acc(terminated(ls)) == (ls, Seq::<char>::empty()),
        !terminated(ls).contains('\r'),
    decreases ls.len(),
{
    if ls.len() == 0 {
        assert(ls =~= Seq::<Seq<char>>::empty());
    } else {
        let init = ls.drop_last();
        assert forall|i: int| 0 <= i < init.len() implies clean_line(#[trigger] init[i]) by {
            assert(init[i] == ls[i]);
        }
        lemma_terminated_lines(init);
        let l = ls.last();
        assert(clean_line(ls[ls.len() - 1]));
        if l.len() > 0 {
            assert(l[l.len() - 1] != '\r');
        }
        lemma_lines_acc_line(l);
        let t = terminated(init);
        lemma_lines_acc_append(t, l.push('\n'));
        assert(init + seq![l] =~= ls);
        assert(terminated(ls) == t + l.push('\n'));
        if terminated(ls).contains('\r') {
            let k = choose|k: int| 0 <= k < terminated(ls).len() && terminated(ls)[k] == '\r';
            if k < t.len() {
                assert(t[k] == '\r');
            } else {
                let j = k - t.len();
                if j < l.len() {
                    assert(l[j] == '\r');
                } else {
                    assert(l.push('\n')[j] == '\n');
                }
            }
        }
    }
}

proof fn lemma_strip_end_head(s: Seq<char>)
    requires
        s.len() > 0,
        !is_ws(s[0]),
    ensures
        strip_end(s, Strip::Whitespace).len() > 0,
        strip_end(s, Strip::Whitespace)[0] == s[0],
    decreases s.len(),
{
    if strips(Strip::Whitespace, s.last()) {
        if s.len() > 1 {
            lemma_strip_end_head(s.drop_last());
        }
    }
}

/// The trimmed line starts at its first character that is not whitespace.
proof fn lemma_trim_first(l: Seq<char>, k: int)
    requires
        0 <= k < l.len(),
        forall|i: int| 0 <= i < k ==> is_ws(#[trigger] l[i]),
        !is_ws(l[k]),
    ensures
        trim(l).len() > 0,
        trim(l)[0] == l[k],
    decreases k,
{
    if k == 0 {
        lemma_strip_end_head(l);
    } else {
        assert(is_ws(l[0]));
        assert(strip_start(l, Strip::Whitespace) == strip_start(l.drop_first(), Strip::Whitespace));
        assert forall|i: int| 0 <= i < k - 1 implies is_ws(#[trigger] l.drop_first()[i]) by {
            assert(l.drop_first()[i] == l[i + 1]);
        }
        lemma_trim_first(l.drop_first(), k - 1);
    }
}

proof fn lemma_marker_facts()
    ensures
        clean_line(marker()),
        marker().len() > 0,
        marker()[0] == '#',
        trim(marker()) == marker(),
{
    reveal_strlit("# COSMIC ORDER theme — auto-generated");
    lemma_strip_keeps(marker(), Strip::Whitespace);
}

proof fn lemma_clean_concat(a: Seq<char>, b: Seq<char>)
    requires
        clean_line(a),
        clean_line(b),
    ensures
        clean_line(a + b),
{
    if (a + b).contains('\n') || (a + b).contains('\r') {
        let k = choose|k: int| 0 <= k < (a + b).len() && ((a + b)[k] == '\n' || (a + b)[k] == '\r');
        if k < a.len() {
            assert(a[k] == (a + b)[k]);
        } else {
            assert(b[k - a.len()] == (a + b)[k]);
        }
    }
}

/// The lines of one color key are lines the block may hold after its
/// marker, and its text is those lines.
proof fn lemma_entry(key: Seq<char>, color: Seq<char>, bold: bool)
    requires
        clean_line(key),
        clean_line(color),
        key.len() > 0,
        !is_ws(key[0]),
        key[0] != '#',
    ensures
        forall|i: int| 0 <= i < entry_lines(key, color, bold).len() ==> tail_line(
            #[trigger] entry_lines(key, color, bold)[i],
        ),
        terminated(entry_lines(key, color, bold)) == (if bold {
            bold_entry(key, color)
        } else {
            color_entry(key, color)
        }),
{
    reveal_strlit("    ");
    reveal_strlit(":");
    reveal_strlit("      - \"");
    reveal_strlit("\"");
    reveal_strlit("      - bold");
    reveal_strlit(" ");
    reveal_strlit(":\n      - \"");
    reveal_strlit("\"\n");
    reveal_strlit("      - bold\n");
    lemma_marker_facts();
    let kl = "    "@ + key + ":"@;
    let cl = "      - \""@ + color + "\""@;
    let bl = "      - bold"@;
    lemma_clean_concat("    "@, key);
    lemma_clean_concat("    "@ + key, ":"@);
    lemma_clean_concat("      - \""@, color);
    lemma_clean_concat("      - \""@ + color, "\""@);
    assert(kl[4] == key[0]);
    lemma_trim_first(kl, 4);
    assert(cl[6] == '-');
    lemma_trim_first(cl, 6);
    assert(bl[6] == '-');
    lemma_trim_first(bl, 6);
    assert(starts_with(kl, " "@)) by {
        assert(kl.take(1) =~= " "@);
    }
    assert(starts_with(cl, " "@)) by {
        assert(cl.take(1) =~= " "@);
    }
    assert(starts_with(bl, " "@)) by {
        assert(bl.take(1) =~= " "@);
    }
    let two = seq![kl, cl];
    reveal_with_fuel(terminated, 4);
    assert(seq![kl, cl].drop_last() =~= seq![kl]);
    assert(seq![kl].drop_last() =~= Seq::<Seq<char>>::empty());
    assert(terminated(two) =~= color_entry(key, color));
    if bold {
        assert(two.push(bl).drop_last() =~= two);
        assert(terminated(two.push(bl)) =~= bold_entry(key, color));
    }
}

proof fn lemma_tail_append(a: Seq<Seq<char>>, b: Seq<Seq<char>>)
    requires
        a.len() > 0,
        forall|i: int| 1 <= i < a.len() ==> tail_line(#[trigger] a[i]),
        forall|i: int| 0 <= i < b.len() ==> tail_line(#[trigger] b[i]),
    ensures
        forall|i: int| 1 <= i < (a + b).len() ==> tail_line(#[trigger] (a + b)[i]),
        (a + b)[0] == a[0],
{
    assert forall|i: int| 1 <= i < (a + b).len() implies tail_line(#[trigger] (a + b)[i]) by {
        if i < a.len() {
            assert((a + b)[i] == a[i]);
        } else {
            assert((a + b)[i] == b[i - a.len()]);
        }
    }
}

/// A color key the block may hold: one clean line that starts with a
/// character other than whitespace or `#`.
pub open spec fn key_ok(key: Seq<char>) -> bool {
    &&& clean_line(key)
    &&& key.len() > 0
    &&& !is_ws(key[0])
    &&& key[0] != '#'
}

proof fn lemma_keys_ok()
    ensures
        key_ok("activeBorderColor"@),
        key_ok("inactiveBorderColor"@),
        key_ok("searchingActiveBorderColor"@),
        key_ok("optionsTextColor"@),
        key_ok("selectedLineBgColor"@),
        key_ok("cherryPickedCommitFgColor"@),
        key_ok("cherryPickedCommitBgColor"@),
        key_ok("markedBaseCommitFgColor"@),
        key_ok("markedBaseCommitBgColor"@),
        key_ok("unstagedChangesColor"@),
        key_ok("defaultFgColor"@),
{
    assert(key_ok("activeBorderColor"@)) by { reveal_strlit("activeBorderColor"); }
    assert(key_ok("inactiveBorderColor"@)) by { reveal_strlit("inactiveBorderColor"); }
    assert(key_ok("searchingActiveBorderColor"@)) by {
        reveal_strlit("searchingActiveBorderColor");
    }
    assert(key_ok("optionsTextColor"@)) by { reveal_strlit("optionsTextColor"); }
    assert(key_ok("selectedLineBgColor"@)) by { reveal_strlit("selectedLineBgColor"); }
    assert(key_ok("cherryPickedCommitFgColor"@)) by {
        reveal_strlit("cherryPickedCommitFgColor");
    }
    assert(key_ok("cherryPickedCommitBgColor"@)) by {
        reveal_strlit("cherryPickedCommitBgColor");
    }
    assert(key_ok("markedBaseCommitFgColor"@)) by { reveal_strlit("markedBaseCommitFgColor"); }
    assert(key_ok("markedBaseCommitBgColor"@)) by { reveal_strlit("markedBaseCommitBgColor"); }
    assert(key_ok("unstagedChangesColor"@)) by { reveal_strlit("unstagedChangesColor"); }
    assert(key_ok("defaultFgColor"@)) by { reveal_strlit("defaultFgColor"); }
}

/// The three lines that open the block: the marker, `gui:` and `  theme:`.
proof fn lemma_head_lines()
    ensures
        ({
            let h = seq![marker(), "gui:"@, "  theme:"@];
            &&& terminated(h) == marker() + "\n"@ + "gui:\n"@ + "  theme:\n"@
            &&& clean_line(h[0])
            &&& trim(h[0]) == marker()
            &&& forall|i: int| 1 <= i < h.len() ==> tail_line(#[trigger] h[i])
        }),
{
    lemma_marker_facts();
    reveal_strlit("# COSMIC ORDER theme — auto-generated");
    reveal_strlit("gui:");
    reveal_strlit("  theme:");
    reveal_strlit(" ");
    reveal_strlit("\n");
    reveal_strlit("gui:\n");
    reveal_strlit("  theme:\n");
    let h = seq![marker(), "gui:"@, "  theme:"@];
    reveal_with_fuel(terminated, 4);
    assert(h.drop_last() =~= seq![marker(), "gui:"@]);
    assert(h.drop_last().drop_last() =~= seq![marker()]);
    assert(h.drop_last().drop_last().drop_last() =~= Seq::<Seq<char>>::empty());
    assert(terminated(h) =~= marker() + "\n"@ + "gui:\n"@ + "  theme:\n"@);
    lemma_strip_keeps("gui:"@, Strip::Whitespace);
    let t = "  theme:"@;
    lemma_trim_first(t, 2);
    assert(starts_with(t, " "@)) by {
        assert(t.take(1) =~= " "@);
    }
    assert(tail_line(h[1]));
    assert(tail_line(h[2]));
}

proof fn lemma_block_lines(p: ColorPalette)
    requires
        clean_palette(p),
    ensures
        terminated(theme_block_lines(p)) == theme_block(p),
        theme_block_lines(p)[0] == marker(),
        forall|i: int|
            1 <= i < theme_block_lines(p).len() ==> tail_line(#[trigger] theme_block_lines(p)[i]),
{
    lemma_keys_ok();
    lemma_head_lines();
    assert(clean_line(p.colors[8]@));
    assert(clean_line(p.colors[4]@));
    assert(clean_line(p.colors[0]@));
    assert(clean_line(p.colors[5]@));
    assert(clean_line(p.colors[3]@));
    assert(clean_line(p.colors[1]@));
    let h = seq![marker(), "gui:"@, "  theme:"@];
    let e1 = entry_lines("activeBorderColor"@, p.accent@, true);
    let e2 = entry_lines("inactiveBorderColor"@, p.colors[8]@, false);
    let e3 = entry_lines("searchingActiveBorderColor"@, p.accent@, true);
    let e4 = entry_lines("optionsTextColor"@, p.colors[4]@, false);
    let e5 = entry_lines("selectedLineBgColor"@, p.colors[0]@, false);
    let e6 = entry_lines("cherryPickedCommitFgColor"@, p.colors[4]@, false);
    let e7 = entry_lines("cherryPickedCommitBgColor"@, p.colors[5]@, false);
    let e8 = entry_lines("markedBaseCommitFgColor"@, p.colors[4]@, false);
    let e9 = entry_lines("markedBaseCommitBgColor"@, p.colors[3]@, false);
    let e10 = entry_lines("unstagedChangesColor"@, p.colors[1]@, false);
    let e11 = entry_lines("defaultFgColor"@, p.foreground@, false);
    lemma_entry("activeBorderColor"@, p.accent@, true);
    lemma_entry("inactiveBorderColor"@, p.colors[8]@, false);
    lemma_entry("searchingActiveBorderColor"@, p.accent@, true);
    lemma_entry("optionsTextColor"@, p.colors[4]@, false);
    lemma_entry("selectedLineBgColor"@, p.colors[0]@, false);
    lemma_entry("cherryPickedCommitFgColor"@, p.colors[4]@, false);
    lemma_entry("cherryPickedCommitBgColor"@, p.colors[5]@, false);
    lemma_entry("markedBaseCommitFgColor"@, p.colors[4]@, false);
    lemma_entry("markedBaseCommitBgColor"@, p.colors[3]@, false);
    lemma_entry("unstagedChangesColor"@, p.colors[1]@, false);
    lemma_entry("defaultFgColor"@, p.foreground@, false);
    let a1 = h + e1;
    let a2 = a1 + e2;
    let a3 = a2 + e3;
    let a4 = a3 + e4;
    let a5 = a4 + e5;
    let a6 = a5 + e6;
    let a7 = a6 + e7;
    let a8 = a7 + e8;
    let a9 = a8 + e9;
    let a10 = a9 + e10;
    let l = a10 + e11;
    assert(l == theme_block_lines(p));
    assert(terminated(l) == theme_block(p)) by {
        lemma_terminated_append(h, e1);
        lemma_terminated_append(a1, e2);
        lemma_terminated_append(a2, e3);
        lemma_terminated_append(a3, e4);
        lemma_terminated_append(a4, e5);
        lemma_terminated_append(a5, e6);
        lemma_terminated_append(a6, e7);
        lemma_terminated_append(a7, e8);
        lemma_terminated_append(a8, e9);
        lemma_terminated_append(a9, e10);
        lemma_terminated_append(a10, e11);
    }
    assert(l[0] == marker() && forall|i: int| 1 <= i < l.len() ==> tail_line(#[trigger] l[i])) by {
        lemma_tail_append(h, e1);
        lemma_tail_append(a1, e2);
        lemma_tail_append(a2, e3);
        lemma_tail_append(a3, e4);
        lemma_tail_append(a4, e5);
        lemma_tail_append(a5, e6);
        lemma_tail_append(a6, e7);
        lemma_tail_append(a7, e8);
        lemma_tail_append(a8, e9);
        lemma_tail_append(a9, e10);
        lemma_tail_append(a10, e11);
    }
}

/// The block the generator writes for a palette whose colors are single
/// lines has the managed shape: the marker line, then lines that continue
/// the block, none of them a marker line.
#[verifier::rlimit(40)]
pub proof fn lemma_generated_block_shape(p: ColorPalette)
    requires
        clean_palette(p),
    ensures
        single_marker_block(theme_block(p)),
{
    lemma_block_lines(p);
    lemma_marker_facts();
    let l = theme_block_lines(p);
    let t = theme_block(p);
    assert forall|i: int| 0 <= i < l.len() implies clean_line(#[trigger] l[i]) by {
        if i > 0 {
            assert(tail_line(l[i]));
        }
    }
    lemma_terminated_lines(l);
    let last = l.last();
    assert(l.drop_last() + seq![last] =~= l);
    lemma_terminated_append(l.drop_last(), seq![last]);
    reveal_with_fuel(terminated, 2);
    assert(seq![last].drop_last() =~= Seq::<Seq<char>>::empty());
    assert(terminated(seq![last]) =~= last.push('\n'));
    let b = terminated(l.drop_last()) + last;
    assert(t =~= b.push('\n'));
    assert(last.len() > 0 && last.last() == '"') by {
        assert(last == "      - \""@ + p.foreground@ + "\""@);
        reveal_strlit("\"");
    }
    assert(b[b.len() - 1] == last[last.len() - 1]);
    assert(b.last() == '"');
    assert(t.drop_last() =~= b);
    assert(strip_end(t, Strip::Whitespace) == strip_end(b, Strip::Whitespace));
    assert(strip_end(b, Strip::Whitespace) == b);
    assert(!b.contains('\r')) by {
        if b.contains('\r') {
            let k = choose|k: int| 0 <= k < b.len() && b[k] == '\r';
            assert(t[k] == b[k]);
        }
    }
    lemma_split_terminated(b);
    assert(lines_of(b) == l);
}

/// Writing the generated block for a palette whose colors are single lines
/// into a config none of whose lines ends in a carriage return: a second
/// update with the same block changes nothing, the result holds exactly one
/// marker line, and it ends with the block (without trailing whitespace) and
/// a line break.
pub proof fn lemma_generated_update(contents: Seq<char>, p: ColorPalette)
    requires
        no_cr_line_ends(contents),
        clean_palette(p),
    ensures
        ({
            let block = theme_block(p);
            let out = updated_config(contents, block);
            let ls = lines_of(out);
            let b = strip_end(block, Strip::Whitespace);
            &&& updated_config(out, block) == out
            &&& exists|m: int|
                0 <= m < ls.len() && trim(#[trigger] ls[m]) == marker() && forall|j: int|
                    0 <= j < ls.len() && j != m ==> trim(#[trigger] ls[j]) != marker()
            &&& out.len() >= b.len() + 1
            &&& out.skip(out.len() - b.len() - 1) == b.push('\n')
        }),
{
    lemma_generated_block_shape(p);
    lemma_update_twice(contents, theme_block(p));
    lemma_update_single_marker(contents, theme_block(p));
    lemma_update_ends_with_block(contents, theme_block(p));
}

proof fn lemma_block_split(p: ColorPalette)
    requires
        clean_palette(p),
    ensures
        lines_of(theme_block(p)) == theme_block_lines(p),
{
    lemma_block_lines(p);
    lemma_marker_facts();
    let l = theme_block_lines(p);
    assert forall|i: int| 0 <= i < l.len() implies clean_line(#[trigger] l[i]) by {
        if i > 0 {
            assert(tail_line(l[i]));
        }
    }
    lemma_terminated_lines(l);
}

/// The color line of a key in the block: a one-item list with the quoted
/// color.
pub open spec fn quoted_item(color: Seq<char>) -> Seq<char> {
    "      - \""@ + color + "\""@
}

/// The lines of the generated block (for a palette whose colors are single
/// lines): the marker, `gui:`, `  theme:`, then each key on its own line
/// followed by its palette color: the accent for the active and searching
/// borders (both also bold), color 8 for inactive borders, color 4 for
/// option text and the cherry-picked and marked commits' foreground,
/// color 0 for the selected line's background, color 5 for the
/// cherry-picked commits' background, color 3 for the marked base commit's
/// background, color 1 for unstaged changes, and the foreground for the
/// default text.
pub proof fn lemma_block_key_colors(p: ColorPalette)
    requires
        clean_palette(p),
    ensures
        lines_of(theme_block(p)) == seq![
            "# COSMIC ORDER theme — auto-generated"@,
            "gui:"@,
            "  theme:"@,
            "    activeBorderColor:"@,
            quoted_item(p.accent@),
            "      - bold"@,
            "    inactiveBorderColor:"@,
            quoted_item(p.colors[8]@),
            "    searchingActiveBorderColor:"@,
            quoted_item(p.accent@),
            "      - bold"@,
            "    optionsTextColor:"@,
            quoted_item(p.colors[4]@),
            "    selectedLineBgColor:"@,
            quoted_item(p.colors[0]@),
            "    cherryPickedCommitFgColor:"@,
            quoted_item(p.colors[4]@),
            "    cherryPickedCommitBgColor:"@,
            quoted_item(p.colors[5]@),
            "    markedBaseCommitFgColor:"@,
            quoted_item(p.colors[4]@),
            "    markedBaseCommitBgColor:"@,
            quoted_item(p.colors[3]@),
            "    unstagedChangesColor:"@,
            quoted_item(p.colors[1]@),
            "    defaultFgColor:"@,
            quoted_item(p.foreground@),
        ],
{
    lemma_block_split(p);
    reveal_strlit("    ");
    reveal_strlit(":");
    reveal_strlit("activeBorderColor");
    reveal_strlit("inactiveBorderColor");
    reveal_strlit("searchingActiveBorderColor");
    reveal_strlit("optionsTextColor");
    reveal_strlit("selectedLineBgColor");
    reveal_strlit("cherryPickedCommitFgColor");
    reveal_strlit("cherryPickedCommitBgColor");
    reveal_strlit("markedBaseCommitFgColor");
    reveal_strlit("markedBaseCommitBgColor");
    reveal_strlit("unstagedChangesColor");
    reveal_strlit("defaultFgColor");
    reveal_strlit("    activeBorderColor:");
    reveal_strlit("    inactiveBorderColor:");
    reveal_strlit("    searchingActiveBorderColor:");
    reveal_strlit("    optionsTextColor:");
    reveal_strlit("    selectedLineBgColor:");
    reveal_strlit("    cherryPickedCommitFgColor:");
    reveal_strlit("    cherryPickedCommitBgColor:");
    reveal_strlit("    markedBaseCommitFgColor:");
    reveal_strlit("    markedBaseCommitBgColor:");
    reveal_strlit("    unstagedChangesColor:");
    reveal_strlit("    defaultFgColor:");
    reveal_strlit("      - \"");
    reveal_strlit("\"");
    let h = seq![marker(), "gui:"@, "  theme:"@];
    assert("    "@ + "activeBorderColor"@ + ":"@ =~= "    activeBorderColor:"@);
    let x0 = seq!["    activeBorderColor:"@, quoted_item(p.accent@), "      - bold"@];
    assert(entry_lines("activeBorderColor"@, p.accent@, true) =~= x0);
    assert("    "@ + "inactiveBorderColor"@ + ":"@ =~= "    inactiveBorderColor:"@);
    let x1 = seq!["    inactiveBorderColor:"@, quoted_item(p.colors[8]@)];
    assert(entry_lines("inactiveBorderColor"@, p.colors[8]@, false) =~= x1);
    assert("    "@ + "searchingActiveBorderColor"@ + ":"@ =~= "    searchingActiveBorderColor:"@);
    let x2 = seq!["    searchingActiveBorderColor:"@, quoted_item(p.accent@), "      - bold"@];
    assert(entry_lines("searchingActiveBorderColor"@, p.accent@, true) =~= x2);
    assert("    "@ + "optionsTextColor"@ + ":"@ =~= "    optionsTextColor:"@);
    let x3 = seq!["    optionsTextColor:"@, quoted_item(p.colors[4]@)];
    assert(entry_lines("optionsTextColor"@, p.colors[4]@, false) =~= x3);
    assert("    "@ + "selectedLineBgColor"@ + ":"@ =~= "    selectedLineBgColor:"@);
    let x4 = seq!["    selectedLineBgColor:"@, quoted_item(p.colors[0]@)];
    assert(entry_lines("selectedLineBgColor"@, p.colors[0]@, false) =~= x4);
    assert("    "@ + "cherryPickedCommitFgColor"@ + ":"@ =~= "    cherryPickedCommitFgColor:"@);
    let x5 = seq!["    cherryPickedCommitFgColor:"@, quoted_item(p.colors[4]@)];
    assert(entry_lines("cherryPickedCommitFgColor"@, p.colors[4]@, false) =~= x5);
    assert("    "@ + "cherryPickedCommitBgColor"@ + ":"@ =~= "    cherryPickedCommitBgColor:"@);
    let x6 = seq!["    cherryPickedCommitBgColor:"@, quoted_item(p.colors[5]@)];
    assert(entry_lines("cherryPickedCommitBgColor"@, p.colors[5]@, false) =~= x6);
    assert("    "@ + "markedBaseCommitFgColor"@ + ":"@ =~= "    markedBaseCommitFgColor:"@);
    let x7 = seq!["    markedBaseCommitFgColor:"@, quoted_item(p.colors[4]@)];
    assert(entry_lines("markedBaseCommitFgColor"@, p.colors[4]@, false) =~= x7);
    assert("    "@ + "markedBaseCommitBgColor"@ + ":"@ =~= "    markedBaseCommitBgColor:"@);
    let x8 = seq!["    markedBaseCommitBgColor:"@, quoted_item(p.colors[3]@)];
    assert(entry_lines("markedBaseCommitBgColor"@, p.colors[3]@, false) =~= x8);
    assert("    "@ + "unstagedChangesColor"@ + ":"@ =~= "    unstagedChangesColor:"@);
    let x9 = seq!["    unstagedChangesColor:"@, quoted_item(p.colors[1]@)];
    assert(entry_lines("unstagedChangesColor"@, p.colors[1]@, false) =~= x9);
    assert("    "@ + "defaultFgColor"@ + ":"@ =~= "    defaultFgColor:"@);
    let x10 = seq!["    defaultFgColor:"@, quoted_item(p.foreground@)];
    assert(entry_lines("defaultFgColor"@, p.foreground@, false) =~= x10);
    let e = h + x0 + x1 + x2 + x3 + x4 + x5 + x6 + x7 + x8 + x9 + x10;
    assert(theme_block_lines(p) == e);
    assert(e =~= seq![
        "# COSMIC ORDER theme — auto-generated"@,
        "gui:"@,
        "  theme:"@,
        "    activeBorderColor:"@,
        quoted_item(p.accent@),
        "      - bold"@,
        "    inactiveBorderColor:"@,
        quoted_item(p.colors[8]@),
        "    searchingActiveBorderColor:"@,
        quoted_item(p.accent@),
        "      - bold"@,
        "    optionsTextColor:"@,
        quoted_item(p.colors[4]@),
        "    selectedLineBgColor:"@,
        quoted_item(p.colors[0]@),
        "    cherryPickedCommitFgColor:"@,
        quoted_item(p.colors[4]@),
        "    cherryPickedCommitBgColor:"@,
        quoted_item(p.colors[5]@),
        "    markedBaseCommitFgColor:"@,
        quoted_item(p.colors[4]@),
        "    markedBaseCommitBgColor:"@,
        quoted_item(p.colors[3]@),
        "    unstagedChangesColor:"@,
        quoted_item(p.colors[1]@),
        "    defaultFgColor:"@,
        quoted_item(p.foreground@),
    ]);
}

} // verus!
