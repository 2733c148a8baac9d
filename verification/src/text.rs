//! Character-level text utilities shared by the configuration formats.
//!
//! Everything here works on `Seq<char>` models: a `String` or `&str` is
//! viewed as the sequence of its Unicode scalar values.
use vstd::prelude::*;

verus! {

/// `String::push` appends one character to the end of the string.
pub assume_specification[ String::push ](s: &mut String, ch: char)
    ensures
        final(s)@ == old(s)@.push(ch),
;

/// The characters of a string slice, in order.
pub fn chars_of(s: &str) -> (v: Vec<char>)
    ensures
        v@ == s@,
{
    let mut v: Vec<char> = Vec::new();
    for c in it: s.chars()
        invariant
            v@ == it.seq().take(it.index()),
            it.seq() == s@,
    {
        v.push(c);
    }
    v
}

/// Append every character of `v` to `s`.
pub fn push_chars(s: &mut String, v: &[char])
    ensures
        final(s)@ == old(s)@ + v@,
{
    let ghost start = s@;
    let mut i: usize = 0;
    while i < v.len()
        invariant
            i <= v.len(),
            s@ == start + v@.take(i as int),
        decreases v.len() - i,
    {
        s.push(v[i]);
        i = i + 1;
        assert(v@.take(i as int) == v@.take((i - 1) as int).push(v@[i - 1]));
    }
    assert(v@.take(v.len() as int) == v@);
}

/// Append a string slice to `s`.
pub fn push_str(s: &mut String, t: &str)
    ensures
        final(s)@ == old(s)@ + t@,
{
    let v = chars_of(t);
    push_chars(s, v.as_slice());
}

/// A `String` holding exactly the given characters.
pub fn string_of(v: &[char]) -> (s: String)
    ensures
        s@ == v@,
{
    let mut s = String::new();
    push_chars(&mut s, v);
    s
}

/// The Unicode `White_Space` property, which `char::is_whitespace` and
/// `str::trim` use.
pub open spec fn is_ws(c: char) -> bool {
    let u = c as u32;
    (0x09 <= u <= 0x0D) || u == 0x20 || u == 0x85 || u == 0xA0 || u == 0x1680
        || (0x2000 <= u <= 0x200A) || u == 0x2028 || u == 0x2029 || u == 0x202F
        || u == 0x205F || u == 0x3000
}

/// Executable `White_Space` test.
pub fn char_is_ws(c: char) -> (b: bool)
    ensures
        b == is_ws(c),
{
    let u = c as u32;
    (0x09 <= u && u <= 0x0D) || u == 0x20 || u == 0x85 || u == 0xA0 || u == 0x1680
        || (0x2000 <= u && u <= 0x200A) || u == 0x2028 || u == 0x2029 || u == 0x202F
        || u == 0x205F || u == 0x3000
}

/// Which characters a strip operation removes.
#[derive(Clone, Copy, PartialEq, Eq)]
pub enum Strip {
    /// Unicode whitespace, as `str::trim`.
    Whitespace,
    /// The double quote, as `str::trim_matches('"')`.
    Quote,
    /// The hash sign, as `str::trim_start_matches('#')`.
    Hash,
}

pub open spec fn strips(m: Strip, c: char) -> bool {
    match m {
        Strip::Whitespace => is_ws(c),
        Strip::Quote => c == '"',
        Strip::Hash => c == '#',
    }
}

/// `s` without its leading characters selected by `m`.
pub open spec fn strip_start(s: Seq<char>, m: Strip) -> Seq<char>
    decreases s.len(),
{
    if s.len() > 0 && strips(m, s[0]) {
        strip_start(s.drop_first(), m)
    } else {
        s
    }
}

/// `s` without its trailing characters selected by `m`.
pub open spec fn strip_end(s: Seq<char>, m: Strip) -> Seq<char>
    decreases s.len(),
{
    if s.len() > 0 && strips(m, s.last()) {
        strip_end(s.drop_last(), m)
    } else {
        s
    }
}

/// Both ends stripped (`str::trim` for whitespace, `trim_matches` for quotes).
pub open spec fn strip(s: Seq<char>, m: Strip) -> Seq<char> {
    strip_end(strip_start(s, m), m)
}

/// `str::trim`.
pub open spec fn trim(s: Seq<char>) -> Seq<char> {
    strip(s, Strip::Whitespace)
}

fn strip_char(m: Strip, c: char) -> (b: bool)
    ensures
        b == strips(m, c),
{
    match m {
        Strip::Whitespace => char_is_ws(c),
        Strip::Quote => c == '"',
        Strip::Hash => c == '#',
    }
}

/// Stripping a sequence whose first and last characters stay is the identity.
pub proof fn lemma_strip_keeps(s: Seq<char>, m: Strip)
    requires
        s.len() > 0,
        !strips(m, s[0]),
        !strips(m, s.last()),
    ensures
        strip(s, m) == s,
{
}

/// Bounds of the stripped part of `s[lo..hi]`.
pub fn strip_bounds(s: &[char], lo: usize, hi: usize, m: Strip) -> (r: (usize, usize))
    requires
        lo <= hi <= s@.len(),
    ensures
        lo <= r.0 <= r.1 <= hi,
        s@.subrange(r.0 as int, r.1 as int) == strip(s@.subrange(lo as int, hi as int), m),
{
    let mut a = lo;
    while a < hi && strip_char(m, s[a])
        invariant
            lo <= a <= hi <= s@.len(),
            strip_start(s@.subrange(lo as int, hi as int), m) == strip_start(
                s@.subrange(a as int, hi as int),
                m,
            ),
        decreases hi - a,
    {
        assert(s@.subrange(a as int, hi as int).drop_first() == s@.subrange(
            a + 1,
            hi as int,
        ));
        a = a + 1;
    }
    let mut b = hi;
    while b > a && strip_char(m, s[b - 1])
        invariant
            lo <= a <= b <= hi <= s@.len(),
            strip_start(s@.subrange(lo as int, hi as int), m) == s@.subrange(a as int, hi as int),
            strip(s@.subrange(lo as int, hi as int), m) == strip_end(
                s@.subrange(a as int, b as int),
                m,
            ),
        decreases b - a,
    {
        assert(s@.subrange(a as int, b as int).drop_last() == s@.subrange(a as int, b - 1));
        b = b - 1;
    }
    (a, b)
}

// ---------------------------------------------------------------------
// Lines
// ---------------------------------------------------------------------

/// A completed line with its terminator removed: a `\r` right before the
/// `\n` goes too, as `str::lines` does.
pub open spec fn strip_cr(line: Seq<char>) -> Seq<char> {
    if line.len() > 0 && line.last() == '\r' {
        line.drop_last()
    } else {
        line
    }
}

/// Scanning state of `str::lines` after a prefix: the completed lines
/// and the characters of the line in progress.
pub open spec fn lines_acc(s: Seq<char>) -> (Seq<Seq<char>>, Seq<char>)
    decreases s.len(),
{
    if s.len() == 0 {
        (seq![], seq![])
    } else {
        let (ls, cur) = lines_acc(s.drop_last());
        if s.last() == '\n' {
            (ls.push(strip_cr(cur)), seq![])
        } else {
            (ls, cur.push(s.last()))
        }
    }
}

/// `str::lines`: the text split at `\n` (or `\r\n`); a final terminator
/// does not start an extra empty line.
pub open spec fn lines_of(s: Seq<char>) -> Seq<Seq<char>> {
    let (ls, cur) = lines_acc(s);
    if cur.len() == 0 {
        ls
    } else {
        ls.push(cur)
    }
}

/// A text without line breaks scans as one line in progress.
pub proof fn lemma_lines_acc_no_newline(s: Seq<char>)
    requires
        !s.contains('\n'),
    ensures
        lines_acc(s) == (Seq::<Seq<char>>::empty(), s),
    decreases s.len(),
{
    if s.len() > 0 {
        assert(!s.drop_last().contains('\n')) by {
            if s.drop_last().contains('\n') {
                let k = choose|k: int| 0 <= k < s.drop_last().len() && s.drop_last()[k] == '\n';
                assert(s[k] == '\n');
            }
        }
        lemma_lines_acc_no_newline(s.drop_last());
        assert(s.last() != '\n') by {
            assert(s[s.len() - 1] == s.last());
        }
        assert(s.drop_last().push(s.last()) == s);
    }
}

/// Scanning `a + b` where `a` ends at a line boundary.
pub proof fn lemma_lines_acc_append(a: Seq<char>, b: Seq<char>)
    requires
        lines_acc(a).1.len() == 0,
    ensures
        lines_acc(a + b) == (lines_acc(a).0 + lines_acc(b).0, lines_acc(b).1),
    decreases b.len(),
{
    if b.len() == 0 {
        assert(a + b == a);
        assert(lines_acc(a).0 + Seq::<Seq<char>>::empty() == lines_acc(a).0);
    } else {
        lemma_lines_acc_append(a, b.drop_last());
        assert((a + b).drop_last() == a + b.drop_last());
        assert((a + b).last() == b.last());
        let (la, _) = lines_acc(a);
        let (lb, cb) = lines_acc(b.drop_last());
        if b.last() == '\n' {
            assert(la + lb.push(strip_cr(cb)) == (la + lb).push(strip_cr(cb)));
        }
    }
}

/// One text line followed by `\n` scans as that single completed line.
pub proof fn lemma_lines_acc_line(l: Seq<char>)
    requires
        !l.contains('\n'),
        l.len() == 0 || l.last() != '\r',
    ensures
        lines_acc(l.push('\n')) == (seq![l], Seq::<char>::empty()),
{
    lemma_lines_acc_no_newline(l);
    assert(l.push('\n').drop_last() == l);
}

// ---------------------------------------------------------------------
// Decimal numbers
// ---------------------------------------------------------------------

pub open spec fn is_digit(c: char) -> bool {
    '0' <= c <= '9'
}

pub open spec fn digit_value(c: char) -> nat {
    (c as u32 - '0' as u32) as nat
}

pub open spec fn digit_char(d: nat) -> char
    recommends
        d < 10,
{
    (('0' as u32) + d) as char
}

pub open spec fn all_digits(s: Seq<char>) -> bool {
    forall|i: int| 0 <= i < s.len() ==> #[trigger] is_digit(s[i])
}

/// The number written by a sequence of decimal digits.
pub open spec fn digits_value(s: Seq<char>) -> nat
    decreases s.len(),
{
    if s.len() == 0 {
        0
    } else {
        digits_value(s.drop_last()) * 10 + digit_value(s.last())
    }
}

/// The shortest decimal numeral of `n` (`"0"` for zero), as `Display` writes it.
pub open spec fn dec(n: nat) -> Seq<char>
    decreases n,
{
    if n < 10 {
        seq![digit_char(n)]
    } else {
        dec(n / 10).push(digit_char(n % 10))
    }
}

/// `u32::from_str`: an optional `+` (not alone), then decimal digits whose
/// value fits in 32 bits.
pub open spec fn parse_u32(s: Seq<char>) -> Option<u32> {
    let d = if s.len() > 1 && s[0] == '+' {
        s.drop_first()
    } else {
        s
    };
    if d.len() == 0 || !all_digits(d) || digits_value(d) > u32::MAX {
        None
    } else {
        Some(digits_value(d) as u32)
    }
}

pub proof fn lemma_dec(n: nat)
    ensures
        dec(n).len() >= 1,
        all_digits(dec(n)),
        digits_value(dec(n)) == n,
        !dec(n).contains('\n'),
        dec(n)[0] != '+',
        dec(n).last() != '\r',
        dec(n).last() != '"',
        dec(n)[0] != '"',
    decreases n,
{
    if n < 10 {
        assert(dec(n).drop_last().len() == 0);
        assert(digit_value(digit_char(n)) == n);
        assert(digits_value(dec(n).drop_last()) == 0);
        assert(digits_value(dec(n)) == digits_value(dec(n).drop_last()) * 10 + digit_value(
            dec(n).last(),
        ));
        assert(!dec(n).contains('\n')) by {
            assert(dec(n)[0] == digit_char(n));
        }
    } else {
        lemma_dec(n / 10);
        let s = dec(n / 10).push(digit_char(n % 10));
        assert(s.drop_last() == dec(n / 10));
        assert(digit_value(digit_char(n % 10)) == n % 10);
        assert forall|i: int| 0 <= i < s.len() implies #[trigger] is_digit(s[i]) by {
            if i < s.len() - 1 {
                assert(s[i] == dec(n / 10)[i]);
            }
        }
        assert(!s.contains('\n')) by {
            if s.contains('\n') {
                let k = choose|k: int| 0 <= k < s.len() && s[k] == '\n';
                assert(is_digit(s[k]));
            }
        }
        assert(s[0] == dec(n / 10)[0]);
        assert((n / 10) * 10 + n % 10 == n) by (nonlinear_arith);
    }
}

/// Reading back a formatted `u32` gives the number.
pub proof fn lemma_parse_dec(n: u32)
    ensures
        parse_u32(dec(n as nat)) == Some(n),
{
    lemma_dec(n as nat);
}

/// `Display` of a `u32`.
pub fn push_u32(s: &mut String, n: u32)
    ensures
        final(s)@ == old(s)@ + dec(n as nat),
    decreases n,
{
    if n >= 10 {
        push_u32(s, n / 10);
    }
    let d = n % 10;
    let c = ((('0' as u32) + d) as u8) as char;
    assert(c == digit_char(d as nat));
    s.push(c);
}

/// `Display` of a `usize`.
pub fn push_usize(s: &mut String, n: usize)
    ensures
        final(s)@ == old(s)@ + dec(n as nat),
    decreases n,
{
    if n >= 10 {
        push_usize(s, n / 10);
    }
    let d = (n % 10) as u32;
    let c = ((('0' as u32) + d) as u8) as char;
    assert(c == digit_char(d as nat));
    s.push(c);
}

/// Decimal text of a `u32`.
pub fn u32_to_string(n: u32) -> (s: String)
    ensures
        s@ == dec(n as nat),
{
    let mut s = String::new();
    push_u32(&mut s, n);
    s
}

proof fn lemma_digits_value_mono(s: Seq<char>, c: char)
    requires
        is_digit(c),
    ensures
        digits_value(s.push(c)) >= digits_value(s),
        digits_value(s.push(c)) == digits_value(s) * 10 + digit_value(c),
{
    assert(s.push(c).drop_last() == s);
}

proof fn lemma_digits_value_prefix(s: Seq<char>, k: int)
    requires
        0 <= k <= s.len(),
        all_digits(s),
    ensures
        digits_value(s.take(k)) <= digits_value(s),
    decreases s.len() - k,
{
    if k < s.len() {
        lemma_digits_value_prefix(s, k + 1);
        assert(s.take(k + 1) == s.take(k).push(s[k]));
        lemma_digits_value_mono(s.take(k), s[k]);
    } else {
        assert(s.take(k) == s);
    }
}

/// `str::parse::<u32>` on `s[lo..hi]`.
pub fn parse_u32_range(s: &[char], lo: usize, hi: usize) -> (r: Option<u32>)
    requires
        lo <= hi <= s@.len(),
    ensures
        r == parse_u32(s@.subrange(lo as int, hi as int)),
{
    let ghost t = s@.subrange(lo as int, hi as int);
    let mut a = lo;
    if hi - lo > 1 && s[lo] == '+' {
        a = lo + 1;
    }
    let ghost d = s@.subrange(a as int, hi as int);
    assert(d == (if t.len() > 1 && t[0] == '+' { t.drop_first() } else { t }));
    if a == hi {
        return None;
    }
    assert(parse_u32(t) == (if !all_digits(d) || digits_value(d) > u32::MAX {
        None::<u32>
    } else {
        Some(digits_value(d) as u32)
    }));
    let mut acc: u64 = 0;
    let mut i = a;
    while i < hi
        invariant
            lo <= a <= i <= hi <= s@.len(),
            d == s@.subrange(a as int, hi as int),
            t == s@.subrange(lo as int, hi as int),
            parse_u32(t) == (if !all_digits(d) || digits_value(d) > u32::MAX {
                None::<u32>
            } else {
                Some(digits_value(d) as u32)
            }),
            all_digits(d.take(i - a)),
            acc == digits_value(d.take(i - a)),
            acc <= u32::MAX,
        decreases hi - i,
    {
        let c = s[i];
        assert(c == d[i - a]);
        if !('0' <= c && c <= '9') {
            assert(!all_digits(d)) by {
                assert(!is_digit(d[i - a]));
            }
            return None;
        }
        proof {
            assert(d.take(i - a + 1) == d.take(i - a).push(c));
            lemma_digits_value_mono(d.take(i - a), c);
        }
        let v = (c as u32 - '0' as u32) as u64;
        acc = acc * 10 + v;
        i = i + 1;
        if acc > u32::MAX as u64 {
            proof {
                if all_digits(d) {
                    lemma_digits_value_prefix(d, i - a);
                }
            }
            return None;
        }
    }
    assert(d.take(i - a) == d);
    Some(acc as u32)
}

// ---------------------------------------------------------------------
// Small comparisons
// ---------------------------------------------------------------------

pub open spec fn ascii_lower(c: char) -> char {
    if 'A' <= c <= 'Z' {
        ((c as u32) + 32) as char
    } else {
        c
    }
}

/// `str::eq_ignore_ascii_case`.
pub open spec fn eq_ignore_ascii_case(a: Seq<char>, b: Seq<char>) -> bool {
    a.len() == b.len() && forall|i: int| 0 <= i < a.len() ==> ascii_lower(#[trigger] a[i])
        == ascii_lower(b[i])
}

fn char_ascii_lower(c: char) -> (r: char)
    ensures
        r == ascii_lower(c),
{
    if 'A' <= c && c <= 'Z' {
        ((c as u8) + 32) as char
    } else {
        c
    }
}

/// `s[lo..hi]` equals `t` ignoring ASCII case.
pub fn range_eq_ignore_ascii_case(s: &[char], lo: usize, hi: usize, t: &[char]) -> (b: bool)
    requires
        lo <= hi <= s@.len(),
    ensures
        b == eq_ignore_ascii_case(s@.subrange(lo as int, hi as int), t@),
{
    if hi - lo != t.len() {
        return false;
    }
    let mut i: usize = 0;
    while i < t.len()
        invariant
            hi - lo == t.len(),
            lo <= hi <= s@.len(),
            i <= t.len(),
            forall|j: int|
                0 <= j < i ==> ascii_lower(#[trigger] s@.subrange(lo as int, hi as int)[j])
                    == ascii_lower(t@[j]),
        decreases t.len() - i,
    {
        if char_ascii_lower(s[lo + i]) != char_ascii_lower(t[i]) {
            assert(s@.subrange(lo as int, hi as int)[i as int] == s@[lo + i]);
            return false;
        }
        i = i + 1;
    }
    true
}

/// `s[lo..hi]` equals `t` exactly.
pub fn range_eq(s: &[char], lo: usize, hi: usize, t: &[char]) -> (b: bool)
    requires
        lo <= hi <= s@.len(),
    ensures
        b == (s@.subrange(lo as int, hi as int) == t@),
{
    if hi - lo != t.len() {
        return false;
    }
    let mut i: usize = 0;
    while i < t.len()
        invariant
            hi - lo == t.len(),
            lo <= hi <= s@.len(),
            i <= t.len(),
            forall|j: int| 0 <= j < i ==> s@.subrange(lo as int, hi as int)[j] == t@[j],
        decreases t.len() - i,
    {
        if s[lo + i] != t[i] {
            assert(s@.subrange(lo as int, hi as int)[i as int] != t@[i as int]);
            return false;
        }
        i = i + 1;
    }
    assert(s@.subrange(lo as int, hi as int) =~= t@);
    true
}

} // verus!

verus! {

/// An owned copy of a string slice.
pub fn string_from(t: &str) -> (r: String)
    ensures
        r@ == t@,
{
    let mut r = String::new();
    push_str(&mut r, t);
    r
}

/// A message of the translation catalogue: its identifier and the named
/// arguments to fill in. The application looks the message up in the
/// user's language.
pub struct LocalizedText {
    pub id: String,
    pub args: Vec<(String, String)>,
}

/// A catalogue message without arguments.
pub fn localized(id: &str) -> (t: LocalizedText)
    ensures
        t.id@ == id@,
        t.args@.len() == 0,
{
    LocalizedText { id: string_from(id), args: Vec::new() }
}

/// A catalogue message with one named argument.
pub fn localized_with(id: &str, name: &str, value: String) -> (t: LocalizedText)
    ensures
        t.id@ == id@,
        t.args@.len() == 1,
        t.args@[0].0@ == name@,
        t.args@[0].1@ == value@,
{
    let mut args = Vec::new();
    args.push((string_from(name), value));
    LocalizedText { id: string_from(id), args }
}

} // verus!

verus! {

/// `k` is the position of the first `c` in `t`.
pub open spec fn is_first(t: Seq<char>, c: char, k: int) -> bool {
    0 <= k < t.len() && t[k] == c && forall|j: int| 0 <= j < k ==> t[j] != c
}

/// Position of the first `c` in `t` (`str::find`, `split_once`).
pub open spec fn find_first(t: Seq<char>, c: char) -> Option<int> {
    if exists|k: int| is_first(t, c, k) {
        Some(choose|k: int| is_first(t, c, k))
    } else {
        None
    }
}

pub proof fn lemma_is_first_unique(t: Seq<char>, c: char, k: int, m: int)
    requires
        is_first(t, c, k),
        is_first(t, c, m),
    ensures
        k == m,
{
    if k < m {
        assert(t[k] != c);
    } else if m < k {
        assert(t[m] != c);
    }
}

pub proof fn lemma_find_first_some(t: Seq<char>, c: char, k: int)
    requires
        is_first(t, c, k),
    ensures
        find_first(t, c) == Some(k),
{
    let m = choose|m: int| is_first(t, c, m);
    lemma_is_first_unique(t, c, k, m);
}

pub proof fn lemma_find_first_none(t: Seq<char>, c: char)
    requires
        forall|j: int| 0 <= j < t.len() ==> t[j] != c,
    ensures
        find_first(t, c) is None,
{
}

/// First position of `c` in `s[lo..hi]`, counted from `lo`.
pub fn find_char_range(s: &[char], lo: usize, hi: usize, c: char) -> (r: Option<usize>)
    requires
        lo <= hi <= s@.len(),
    ensures
        match r {
            Some(k) => lo <= k < hi && find_first(s@.subrange(lo as int, hi as int), c) == Some(
                k - lo,
            ),
            None => find_first(s@.subrange(lo as int, hi as int), c) is None,
        },
{
    let ghost t = s@.subrange(lo as int, hi as int);
    let mut i = lo;
    while i < hi
        invariant
            lo <= i <= hi <= s@.len(),
            t == s@.subrange(lo as int, hi as int),
            forall|j: int| 0 <= j < i - lo ==> t[j] != c,
        decreases hi - i,
    {
        if s[i] == c {
            proof {
                assert(t[i - lo] == c);
                lemma_find_first_some(t, c, i - lo);
            }
            return Some(i);
        }
        i = i + 1;
    }
    proof {
        lemma_find_first_none(t, c);
    }
    None
}

} // verus!

verus! {

/// The upper-case mapping of a character (`char::to_uppercase`), which
/// Unicode defines and which may be several characters long.
pub uninterp spec fn char_uppercase(c: char) -> Seq<char>;

/// An ASCII lower-case letter as upper case; any other character as it is.
pub open spec fn ascii_upper(c: char) -> char {
    if 'a' <= c <= 'z' {
        ((c as u32) - 32) as char
    } else {
        c
    }
}

/// Calls `char::to_uppercase` and collects the characters it yields.
/// Claimed: the result is the character's upper-case mapping, a function
/// of the character alone, and for an ASCII character it is that
/// character in ASCII upper case. The mapping of other characters is left
/// unstated.
#[verifier::external_body]
fn uppercase_chars(c: char) -> (r: Vec<char>)
    ensures
        r@ == char_uppercase(c),
        (c as u32) < 128 ==> r@ == seq![ascii_upper(c)],
{
    c.to_uppercase().collect()
}

/// Separator set of a title-casing.
#[derive(Clone, Copy, PartialEq, Eq)]
pub enum WordSeparators {
    /// Words separated by `-`.
    Dash,
    /// Words separated by `-` or `_`.
    DashOrUnderscore,
}

pub open spec fn is_separator(m: WordSeparators, c: char) -> bool {
    match m {
        WordSeparators::Dash => c == '-',
        WordSeparators::DashOrUnderscore => c == '-' || c == '_',
    }
}

/// Title-casing state after a prefix: the output so far and whether the
/// next character starts a word.
pub open spec fn title_acc(s: Seq<char>, m: WordSeparators) -> (Seq<char>, bool)
    decreases s.len(),
{
    if s.len() == 0 {
        (seq![], true)
    } else {
        let (out, at_start) = title_acc(s.drop_last(), m);
        let c = s.last();
        if is_separator(m, c) {
            (out.push(' '), true)
        } else if at_start {
            (out + char_uppercase(c), false)
        } else {
            (out.push(c), false)
        }
    }
}

/// The words of `s` (split at each separator) with their first character
/// upper-cased, joined by single spaces.
pub open spec fn title_case(s: Seq<char>, m: WordSeparators) -> Seq<char> {
    title_acc(s, m).0
}

/// All characters of `s` are ASCII.
pub open spec fn is_ascii(s: Seq<char>) -> bool {
    forall|i: int| 0 <= i < s.len() ==> (#[trigger] s[i] as u32) < 128
}

/// [`title_acc`] for ASCII text, where upper-casing is ASCII upper case.
pub open spec fn title_acc_ascii(s: Seq<char>, m: WordSeparators) -> (Seq<char>, bool)
    decreases s.len(),
{
    if s.len() == 0 {
        (seq![], true)
    } else {
        let (out, at_start) = title_acc_ascii(s.drop_last(), m);
        let c = s.last();
        if is_separator(m, c) {
            (out.push(' '), true)
        } else if at_start {
            (out.push(ascii_upper(c)), false)
        } else {
            (out.push(c), false)
        }
    }
}

/// [`title_case`] of ASCII text.
pub open spec fn title_case_ascii(s: Seq<char>, m: WordSeparators) -> Seq<char> {
    title_acc_ascii(s, m).0
}

fn sep_exec(m: WordSeparators, c: char) -> (b: bool)
    ensures
        b == is_separator(m, c),
{
    match m {
        WordSeparators::Dash => c == '-',
        WordSeparators::DashOrUnderscore => c == '-' || c == '_',
    }
}

/// Title-case `s[lo..hi]`.
pub fn title_case_range(s: &[char], lo: usize, hi: usize, m: WordSeparators) -> (r: String)
    requires
        lo <= hi <= s@.len(),
    ensures
        r@ == title_case(s@.subrange(lo as int, hi as int), m),
        is_ascii(s@.subrange(lo as int, hi as int)) ==> r@ == title_case_ascii(
            s@.subrange(lo as int, hi as int),
            m,
        ),
{
    let mut out = String::new();
    let mut at_start = true;
    let mut i = lo;
    let ghost ascii = is_ascii(s@.subrange(lo as int, hi as int));
    while i < hi
        invariant
            lo <= i <= hi <= s@.len(),
            title_acc(s@.subrange(lo as int, i as int), m) == (out@, at_start),
            ascii == is_ascii(s@.subrange(lo as int, hi as int)),
            ascii ==> title_acc_ascii(s@.subrange(lo as int, i as int), m) == (out@, at_start),
        decreases hi - i,
    {
        let c = s[i];
        assert(s@.subrange(lo as int, i + 1).drop_last() == s@.subrange(lo as int, i as int));
        assert(s@.subrange(lo as int, i + 1).last() == c);
        proof {
            if ascii {
                assert(s@.subrange(lo as int, hi as int)[i - lo] == c);
            }
        }
        if sep_exec(m, c) {
            out.push(' ');
            at_start = true;
        } else if at_start {
            let u = uppercase_chars(c);
            push_chars(&mut out, u.as_slice());
            at_start = false;
        } else {
            out.push(c);
        }
        i = i + 1;
    }
    out
}

/// `s` with every trailing copy of `suffix` removed (`trim_end_matches`).
pub open spec fn trim_end_suffix(s: Seq<char>, suffix: Seq<char>) -> Seq<char>
    decreases s.len(),
{
    if suffix.len() > 0 && s.len() >= suffix.len() && s.skip(s.len() - suffix.len()) == suffix {
        trim_end_suffix(s.take(s.len() - suffix.len()), suffix)
    } else {
        s
    }
}

/// End of `s[..hi]` after removing every trailing copy of `suffix`.
pub fn trim_end_suffix_bound(s: &[char], hi: usize, suffix: &[char]) -> (e: usize)
    requires
        hi <= s@.len(),
    ensures
        e <= hi,
        s@.take(e as int) == trim_end_suffix(s@.take(hi as int), suffix@),
{
    let mut e = hi;
    if suffix.len() == 0 {
        return e;
    }
    while e >= suffix.len() && range_eq(s, e - suffix.len(), e, suffix)
        invariant
            e <= hi <= s@.len(),
            suffix@.len() > 0,
            trim_end_suffix(s@.take(hi as int), suffix@) == trim_end_suffix(
                s@.take(e as int),
                suffix@,
            ),
        decreases e,
    {
        assert(s@.take(e as int).skip(e - suffix@.len()) == s@.subrange(
            e - suffix@.len(),
            e as int,
        ));
        assert(s@.take(e as int).take(e - suffix@.len()) == s@.take(e - suffix@.len()));
        e = e - suffix.len();
    }
    assert(e < suffix@.len() ==> s@.take(e as int).len() < suffix@.len());
    assert(e >= suffix@.len() ==> s@.take(e as int).skip(e - suffix@.len()) == s@.subrange(
        e - suffix@.len(),
        e as int,
    ));
    e
}

} // verus!

verus! {

/// `k` is the position of the last `c` in `t`.
pub open spec fn is_last(t: Seq<char>, c: char, k: int) -> bool {
    0 <= k < t.len() && t[k] == c && forall|j: int| k < j < t.len() ==> t[j] != c
}

/// Position of the last `c` in `t` (`str::rfind`).
pub open spec fn find_last(t: Seq<char>, c: char) -> Option<int> {
    if exists|k: int| is_last(t, c, k) {
        Some(choose|k: int| is_last(t, c, k))
    } else {
        None
    }
}

/// Last position of `c` in `s[lo..hi]`, counted from `lo`.
pub fn rfind_char_range(s: &[char], lo: usize, hi: usize, c: char) -> (r: Option<usize>)
    requires
        lo <= hi <= s@.len(),
    ensures
        match r {
            Some(k) => lo <= k < hi && find_last(s@.subrange(lo as int, hi as int), c) == Some(
                k - lo,
            ),
            None => find_last(s@.subrange(lo as int, hi as int), c) is None,
        },
{
    let ghost t = s@.subrange(lo as int, hi as int);
    let mut i = hi;
    while i > lo
        invariant
            lo <= i <= hi <= s@.len(),
            t == s@.subrange(lo as int, hi as int),
            forall|j: int| i - lo <= j < t.len() ==> t[j] != c,
        decreases i,
    {
        if s[i - 1] == c {
            proof {
                let k = i - 1 - lo;
                assert(t[k] == c);
                assert(is_last(t, c, k));
                let m = choose|m: int| is_last(t, c, m);
                if m < k {
                    assert(t[k] != c);
                } else if k < m {
                    assert(t[m] != c);
                }
            }
            return Some(i - 1);
        }
        i = i - 1;
    }
    None
}

} // verus!

verus! {

pub open spec fn spans_view(c: Seq<char>, r: Seq<(usize, usize)>) -> Seq<Seq<char>> {
    r.map_values(|q: (usize, usize)| c.subrange(q.0 as int, q.1 as int))
}

pub open spec fn spans_within(c: Seq<char>, r: Seq<(usize, usize)>) -> bool {
    forall|i: int| 0 <= i < r.len() ==> #[trigger] r[i].0 <= r[i].1 <= c.len()
}

proof fn lemma_spans_push(c: Seq<char>, r: Seq<(usize, usize)>, q: (usize, usize))
    requires
        spans_within(c, r),
        q.0 <= q.1 <= c.len(),
    ensures
        spans_within(c, r.push(q)),
        spans_view(c, r.push(q)) == spans_view(c, r).push(c.subrange(q.0 as int, q.1 as int)),
{
    assert forall|i: int| 0 <= i < r.push(q).len() implies #[trigger] r.push(q)[i].0 <= r.push(
        q,
    )[i].1 <= c.len() by {
        if i < r.len() {
            assert(r.push(q)[i] == r[i]);
        }
    }
    assert(spans_view(c, r.push(q)) =~= spans_view(c, r).push(
        c.subrange(q.0 as int, q.1 as int),
    ));
}

/// The lines of `c` (`str::lines`), as ranges into it.
pub fn line_ranges(c: &[char]) -> (r: Vec<(usize, usize)>)
    ensures
        spans_within(c@, r@),
        spans_view(c@, r@) == lines_of(c@),
{
    let mut r: Vec<(usize, usize)> = Vec::new();
    let mut ls: usize = 0;
    let mut i: usize = 0;
    while i < c.len()
        invariant
            ls <= i <= c@.len(),
            spans_within(c@, r@),
            lines_acc(c@.take(i as int)) == (spans_view(c@, r@), c@.subrange(ls as int, i as int)),
        decreases c.len() - i,
    {
        assert(c@.take(i + 1).drop_last() == c@.take(i as int));
        assert(c@.take(i + 1).last() == c@[i as int]);
        if c[i] == '\n' {
            let mut end = i;
            if i > ls && c[i - 1] == '\r' {
                end = i - 1;
            }
            let ghost cur = c@.subrange(ls as int, i as int);
            assert(strip_cr(cur) == c@.subrange(ls as int, end as int)) by {
                if cur.len() > 0 {
                    assert(cur.last() == c@[i - 1]);
                    if cur.last() == '\r' {
                        assert(cur.drop_last() == c@.subrange(ls as int, i - 1));
                    }
                }
            }
            proof {
                lemma_spans_push(c@, r@, (ls, end));
            }
            r.push((ls, end));
            ls = i + 1;
            i = i + 1;
            assert(c@.subrange(ls as int, i as int).len() == 0);
        } else {
            assert(c@.subrange(ls as int, i + 1) == c@.subrange(ls as int, i as int).push(
                c@[i as int],
            ));
            i = i + 1;
        }
    }
    assert(c@.take(i as int) == c@);
    if ls < c.len() {
        proof {
            lemma_spans_push(c@, r@, (ls, c.len()));
        }
        r.push((ls, c.len()));
    }
    r
}

/// `s` starts with `p`.
pub open spec fn starts_with(s: Seq<char>, p: Seq<char>) -> bool {
    s.len() >= p.len() && s.take(p.len() as int) == p
}

/// `s[lo..hi]` starts with `p`.
pub fn range_starts_with(s: &[char], lo: usize, hi: usize, p: &[char]) -> (b: bool)
    requires
        lo <= hi <= s@.len(),
    ensures
        b == starts_with(s@.subrange(lo as int, hi as int), p@),
{
    if hi - lo < p.len() {
        return false;
    }
    let r = range_eq(s, lo, lo + p.len(), p);
    assert(s@.subrange(lo as int, hi as int).take(p@.len() as int) == s@.subrange(
        lo as int,
        lo + p@.len(),
    ));
    r
}

/// `s[lo..hi]` contains `c`.
pub fn range_contains(s: &[char], lo: usize, hi: usize, c: char) -> (b: bool)
    requires
        lo <= hi <= s@.len(),
    ensures
        b == s@.subrange(lo as int, hi as int).contains(c),
{
    let r = find_char_range(s, lo, hi, c);
    proof {
        let t = s@.subrange(lo as int, hi as int);
        if t.contains(c) {
            let j = choose|j: int| 0 <= j < t.len() && t[j] == c;
            if r is None {
                if !exists|k: int| is_first(t, c, k) {
                    // the first occurrence exists: take the least index holding `c`
                    lemma_first_exists(t, c, j);
                }
            }
        }
        if r is Some {
            let k = choose|k: int| is_first(t, c, k);
            assert(t[k] == c);
        }
    }
    r.is_some()
}

proof fn lemma_first_exists(t: Seq<char>, c: char, j: int)
    requires
        0 <= j < t.len(),
        t[j] == c,
    ensures
        exists|k: int| is_first(t, c, k),
    decreases j,
{
    if forall|m: int| 0 <= m < j ==> t[m] != c {
        assert(is_first(t, c, j));
    } else {
        let m = choose|m: int| 0 <= m < j && t[m] == c;
        lemma_first_exists(t, c, m);
    }
}

/// Lines joined with `\n` between them (`[&str]::join("\n")`).
pub open spec fn join_nl(ls: Seq<Seq<char>>) -> Seq<char>
    decreases ls.len(),
{
    if ls.len() == 0 {
        seq![]
    } else if ls.len() == 1 {
        ls[0]
    } else {
        join_nl(ls.drop_last()) + seq!['\n'] + ls.last()
    }
}

pub open spec fn strings_view(v: Seq<String>) -> Seq<Seq<char>> {
    v.map_values(|s: String| s@)
}

/// Join owned lines with `\n`.
pub fn join_lines(v: &Vec<String>) -> (r: String)
    ensures
        r@ == join_nl(strings_view(v@)),
{
    let mut r = String::new();
    let mut i: usize = 0;
    while i < v.len()
        invariant
            i <= v@.len(),
            r@ == join_nl(strings_view(v@.take(i as int))),
        decreases v.len() - i,
    {
        let ghost before = v@.take(i as int);
        assert(v@.take(i + 1).drop_last() == before);
        assert(strings_view(v@.take(i + 1)).drop_last() == strings_view(before));
        assert(strings_view(v@.take(i + 1)).last() == v@[i as int]@);
        if i > 0 {
            r.push('\n');
        } else {
            assert(strings_view(v@.take(1)) =~= seq![v@[0]@]);
            assert(r@ == Seq::<char>::empty());
        }
        push_str(&mut r, v[i].as_str());
        i = i + 1;
    }
    assert(v@.take(v@.len() as int) == v@);
    r
}

} // verus!

verus! {

/// Start of `s[lo..hi]` after removing its leading characters selected by `m`.
pub fn strip_start_bound(s: &[char], lo: usize, hi: usize, m: Strip) -> (a: usize)
    requires
        lo <= hi <= s@.len(),
    ensures
        lo <= a <= hi,
        s@.subrange(a as int, hi as int) == strip_start(s@.subrange(lo as int, hi as int), m),
{
    let mut a = lo;
    while a < hi && strip_char(m, s[a])
        invariant
            lo <= a <= hi <= s@.len(),
            strip_start(s@.subrange(lo as int, hi as int), m) == strip_start(
                s@.subrange(a as int, hi as int),
                m,
            ),
        decreases hi - a,
    {
        assert(s@.subrange(a as int, hi as int).drop_first() == s@.subrange(
            a + 1,
            hi as int,
        ));
        a = a + 1;
    }
    a
}

} // verus!

verus! {

/// End of `s[lo..hi]` after removing its trailing characters selected by `m`.
pub fn strip_end_bound(s: &[char], lo: usize, hi: usize, m: Strip) -> (b: usize)
    requires
        lo <= hi <= s@.len(),
    ensures
        lo <= b <= hi,
        s@.subrange(lo as int, b as int) == strip_end(s@.subrange(lo as int, hi as int), m),
{
    let mut b = hi;
    while b > lo && strip_char(m, s[b - 1])
        invariant
            lo <= b <= hi <= s@.len(),
            strip_end(s@.subrange(lo as int, hi as int), m) == strip_end(
                s@.subrange(lo as int, b as int),
                m,
            ),
        decreases b - lo,
    {
        assert(s@.subrange(lo as int, b as int).drop_last() == s@.subrange(lo as int, b - 1));
        b = b - 1;
    }
    b
}

} // verus!

verus! {

/// The lower-case mapping of a string (`str::to_lowercase`), which Unicode
/// defines (with context rules such as the final sigma).
pub uninterp spec fn str_lowercase(s: Seq<char>) -> Seq<char>;

/// Calls `str::to_lowercase`. Claimed: the result is the string's
/// lower-case mapping, a function of the string alone, and a string of
/// ASCII characters maps character by character to ASCII lower case. The
/// mapping of other strings is left unstated.
#[verifier::external_body]
pub(crate) fn lowercase(s: &str) -> (r: String)
    ensures
        r@ == str_lowercase(s@),
        (forall|i: int| 0 <= i < s@.len() ==> (#[trigger] s@[i] as u32) < 128) ==> r@ == s@.map_values(
            |c: char| ascii_lower(c),
        ),
{
    s.to_lowercase()
}

/// `s` with every `from` character replaced by `to`.
pub open spec fn replace_char(s: Seq<char>, from: char, to: char) -> Seq<char> {
    s.map_values(|c: char| if c == from { to } else { c })
}

} // verus!

verus! {

/// Pieces joined with `sep` between them (`[String]::join`).
pub open spec fn join_sep(ls: Seq<Seq<char>>, sep: Seq<char>) -> Seq<char>
    decreases ls.len(),
{
    if ls.len() == 0 {
        seq![]
    } else if ls.len() == 1 {
        ls[0]
    } else {
        join_sep(ls.drop_last(), sep) + sep + ls.last()
    }
}

/// Join owned strings with `sep` between them.
pub fn join_with(v: &Vec<String>, sep: &str) -> (r: String)
    ensures
        r@ == join_sep(strings_view(v@), sep@),
{
    let mut r = String::new();
    let mut i: usize = 0;
    while i < v.len()
        invariant
            i <= v@.len(),
            r@ == join_sep(strings_view(v@.take(i as int)), sep@),
        decreases v.len() - i,
    {
        let ghost before = v@.take(i as int);
        assert(v@.take(i + 1).drop_last() == before);
        assert(strings_view(v@.take(i + 1)).drop_last() == strings_view(before));
        assert(strings_view(v@.take(i + 1)).last() == v@[i as int]@);
        if i > 0 {
            push_str(&mut r, sep);
        } else {
            assert(strings_view(v@.take(1)) =~= seq![v@[0]@]);
            assert(r@ == Seq::<char>::empty());
        }
        push_str(&mut r, v[i].as_str());
        i = i + 1;
    }
    assert(v@.take(v@.len() as int) == v@);
    r
}

/// `s` ends with `p`.
pub open spec fn ends_with(s: Seq<char>, p: Seq<char>) -> bool {
    s.len() >= p.len() && s.skip(s.len() - p.len()) == p
}

/// `s` starts with `p` (`str::starts_with`).
pub fn str_starts_with(s: &str, p: &str) -> (b: bool)
    ensures
        b == starts_with(s@, p@),
{
    let c = chars_of(s);
    let q = chars_of(p);
    assert(c@.subrange(0, c@.len() as int) == c@);
    range_starts_with(c.as_slice(), 0, c.len(), q.as_slice())
}

/// `s` ends with `p` (`str::ends_with`).
pub fn str_ends_with(s: &str, p: &str) -> (b: bool)
    ensures
        b == ends_with(s@, p@),
{
    let c = chars_of(s);
    let q = chars_of(p);
    if c.len() < q.len() {
        return false;
    }
    let lo = c.len() - q.len();
    let r = range_eq(c.as_slice(), lo, c.len(), q.as_slice());
    assert(c@.subrange(lo as int, c@.len() as int) == c@.skip(lo as int));
    r
}

} // verus!

verus! {

/// A line that `str::lines` gives back unchanged: no line break in it and
/// no carriage return at its end.
pub open spec fn plain_line(x: Seq<char>) -> bool {
    !x.contains('\n') && (x.len() == 0 || x.last() != '\r')
}

/// Lines joined with `\n`, plus a final `\n`, split back into the same
/// lines.
pub proof fn lemma_join_split(xs: Seq<Seq<char>>)
    requires
        xs.len() > 0,
        forall|i: int| 0 <= i < xs.len() ==> plain_line(#[trigger] xs[i]),
    ensures
        lines_acc(join_nl(xs).push('\n')) == (xs, Seq::<char>::empty()),
    decreases xs.len(),
{
    if xs.len() == 1 {
        assert(plain_line(xs[0]));
        lemma_lines_acc_line(xs[0]);
        assert(seq![xs[0]] =~= xs);
    } else {
        let init = xs.drop_last();
        assert forall|i: int| 0 <= i < init.len() implies plain_line(#[trigger] init[i]) by {
            assert(init[i] == xs[i]);
        }
        lemma_join_split(init);
        let a = join_nl(init).push('\n');
        let b = xs.last().push('\n');
        assert(join_nl(xs).push('\n') =~= a + b);
        lemma_lines_acc_append(a, b);
        assert(plain_line(xs[xs.len() - 1]));
        lemma_lines_acc_line(xs.last());
        assert(init + seq![xs.last()] =~= xs);
    }
}

/// No line of the text ends in a carriage return (one right before a line
/// break goes with the break).
pub open spec fn no_cr_line_ends(contents: Seq<char>) -> bool {
    forall|i: int|
        0 <= i < lines_of(contents).len() ==> (#[trigger] lines_of(contents)[i]).len() == 0
            || lines_of(contents)[i].last() != '\r'
}

/// Every line `str::lines` gives has no line break, and no carriage
/// return when the text has none.
pub proof fn lemma_lines_plain(s: Seq<char>)
    ensures
        forall|i: int| 0 <= i < lines_of(s).len() ==> !(#[trigger] lines_of(s)[i]).contains('\n'),
        !s.contains('\r') ==> forall|i: int|
            0 <= i < lines_of(s).len() ==> !(#[trigger] lines_of(s)[i]).contains('\r'),
{
    lemma_lines_acc_plain(s);
}

proof fn lemma_lines_acc_plain(s: Seq<char>)
    ensures
        forall|i: int| 0 <= i < lines_acc(s).0.len() ==> !(#[trigger] lines_acc(s).0[i]).contains('\n'),
        !lines_acc(s).1.contains('\n'),
        !s.contains('\r') ==> (forall|i: int|
            0 <= i < lines_acc(s).0.len() ==> !(#[trigger] lines_acc(s).0[i]).contains('\r'))
            && !lines_acc(s).1.contains('\r'),
        forall|i: int| 0 <= i < lines_of(s).len() ==> !(#[trigger] lines_of(s)[i]).contains('\n'),
        !s.contains('\r') ==> forall|i: int|
            0 <= i < lines_of(s).len() ==> !(#[trigger] lines_of(s)[i]).contains('\r'),
    decreases s.len(),
{
    if s.len() > 0 {
        let p = s.drop_last();
        lemma_lines_acc_plain(p);
        assert(!s.contains('\r') ==> !p.contains('\r')) by {
            if p.contains('\r') {
                let k = choose|k: int| 0 <= k < p.len() && p[k] == '\r';
                assert(s[k] == '\r');
            }
        }
        let (ls, cur) = lines_acc(p);
        if s.last() == '\n' {
            assert(!strip_cr(cur).contains('\n')) by {
                if strip_cr(cur).contains('\n') {
                    let k = choose|k: int| 0 <= k < strip_cr(cur).len() && strip_cr(cur)[k] == '\n';
                    assert(cur[k] == '\n');
                }
            }
            assert(!cur.contains('\r') ==> !strip_cr(cur).contains('\r')) by {
                if strip_cr(cur).contains('\r') {
                    let k = choose|k: int| 0 <= k < strip_cr(cur).len() && strip_cr(cur)[k] == '\r';
                    assert(cur[k] == '\r');
                }
            }
            assert forall|i: int| 0 <= i < ls.push(strip_cr(cur)).len() implies !(
            #[trigger] ls.push(strip_cr(cur))[i]).contains('\n') by {
                if i < ls.len() {
                    assert(ls.push(strip_cr(cur))[i] == ls[i]);
                }
            }
            if !s.contains('\r') {
                assert forall|i: int| 0 <= i < ls.push(strip_cr(cur)).len() implies !(
                #[trigger] ls.push(strip_cr(cur))[i]).contains('\r') by {
                    if i < ls.len() {
                        assert(ls.push(strip_cr(cur))[i] == ls[i]);
                    }
                }
            }
        } else {
            let c2 = cur.push(s.last());
            assert(!c2.contains('\n')) by {
                if c2.contains('\n') {
                    let k = choose|k: int| 0 <= k < c2.len() && c2[k] == '\n';
                    if k < cur.len() {
                        assert(cur[k] == '\n');
                    } else {
                        assert(s[s.len() - 1] == s.last());
                    }
                }
            }
            if !s.contains('\r') {
                assert(!c2.contains('\r')) by {
                    if c2.contains('\r') {
                        let k = choose|k: int| 0 <= k < c2.len() && c2[k] == '\r';
                        if k < cur.len() {
                            assert(cur[k] == '\r');
                        } else {
                            assert(s[s.len() - 1] == s.last());
                        }
                    }
                }
            }
        }
    }
    let (ls, cur) = lines_acc(s);
    if cur.len() > 0 {
        assert forall|i: int| 0 <= i < ls.push(cur).len() implies !(#[trigger] ls.push(cur)[i]).contains(
            '\n',
        ) by {
            if i < ls.len() {
                assert(ls.push(cur)[i] == ls[i]);
            }
        }
        if !s.contains('\r') {
            assert forall|i: int| 0 <= i < ls.push(cur).len() implies !(
            #[trigger] ls.push(cur)[i]).contains('\r') by {
                if i < ls.len() {
                    assert(ls.push(cur)[i] == ls[i]);
                }
            }
        }
    }
}

/// A text with its trailing whitespace stripped is empty or ends in a
/// character that is not whitespace.
pub proof fn lemma_strip_end_last(s: Seq<char>)
    ensures
        strip_end(s, Strip::Whitespace).len() == 0 || !is_ws(strip_end(s, Strip::Whitespace).last()),
        !s.contains('\r') ==> !strip_end(s, Strip::Whitespace).contains('\r'),
    decreases s.len(),
{
    if s.len() > 0 && strips(Strip::Whitespace, s.last()) {
        lemma_strip_end_last(s.drop_last());
        if !s.contains('\r') {
            assert(!s.drop_last().contains('\r')) by {
                if s.drop_last().contains('\r') {
                    let k = choose|k: int| 0 <= k < s.drop_last().len() && s.drop_last()[k] == '\r';
                    assert(s[k] == '\r');
                }
            }
        }
    }
}

/// A text that does not end in a line break, followed by one, splits
/// into its own lines (when it holds no carriage return).
pub proof fn lemma_split_terminated(b: Seq<char>)
    requires
        b.len() > 0,
        b.last() != '\n',
        !b.contains('\r'),
    ensures
        lines_acc(b.push('\n')) == (lines_of(b), Seq::<char>::empty()),
{
    assert(b.push('\n').drop_last() == b);
    let p = b.drop_last();
    assert(p.push(b.last()) == b);
    let (ls, cur) = lines_acc(p);
    assert(lines_acc(b) == (ls, cur.push(b.last())));
    assert(b[b.len() - 1] == b.last());
}

} // verus!
