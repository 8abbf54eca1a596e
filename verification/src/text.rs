//! Character-level helpers on strings, each stated over `Seq<char>`:
//! Unicode whitespace trimming, splitting on a separator, line splitting as
//! `BufRead::lines` does, and decimal integers.
use vstd::prelude::*;

verus! {

/// The Unicode `White_Space` property, as `char::is_whitespace` and
/// `str::trim` use it.
pub open spec fn is_whitespace(c: char) -> bool {
    ||| ('\t' <= c && c <= '\r')
    ||| c == ' '
    ||| c == '\u{85}'
    ||| c == '\u{a0}'
    ||| c == '\u{1680}'
    ||| ('\u{2000}' <= c && c <= '\u{200a}')
    ||| c == '\u{2028}'
    ||| c == '\u{2029}'
    ||| c == '\u{202f}'
    ||| c == '\u{205f}'
    ||| c == '\u{3000}'
}

/// `s` without its leading whitespace.
pub open spec fn trim_start(s: Seq<char>) -> Seq<char>
    decreases s.len(),
{
    if s.len() > 0 && is_whitespace(s[0]) {
        trim_start(s.drop_first())
    } else {
        s
    }
}

/// `s` without its trailing whitespace.
pub open spec fn trim_end(s: Seq<char>) -> Seq<char>
    decreases s.len(),
{
    if s.len() > 0 && is_whitespace(s.last()) {
        trim_end(s.drop_last())
    } else {
        s
    }
}

/// `s` without leading and trailing whitespace, as `str::trim` returns it.
pub open spec fn trim(s: Seq<char>) -> Seq<char> {
    trim_end(trim_start(s))
}

pub fn is_whitespace_char(c: char) -> (r: bool)
    ensures
        r == is_whitespace(c),
{
    ('\t' <= c && c <= '\r') || c == ' ' || c == '\u{85}' || c == '\u{a0}' || c == '\u{1680}'
        || ('\u{2000}' <= c && c <= '\u{200a}') || c == '\u{2028}' || c == '\u{2029}'
        || c == '\u{202f}' || c == '\u{205f}' || c == '\u{3000}'
}

/// The characters of `s`, in order.
pub fn chars_of(s: &str) -> (v: Vec<char>)
    ensures
        v@ == s@,
{
    let mut v: Vec<char> = Vec::new();
    for c in it: s.chars()
        invariant
            v@ == it.seq().take(it.index() as int),
    {
        v.push(c);
    }
    v
}

/// Appends one character to a string (`String::push`).
#[verifier::external_body]
fn push_char(s: &mut String, c: char)
    ensures
        final(s)@ == old(s)@.push(c),
{
    s.push(c);
}

/// The string made of the characters `v[from..to]`.
pub fn string_of_range(v: &Vec<char>, from: usize, to: usize) -> (s: String)
    requires
        from <= to <= v.len(),
    ensures
        s@ == v@.subrange(from as int, to as int),
{
    let mut s = String::new();
    let mut i: usize = from;
    while i < to
        invariant
            from <= i <= to <= v.len(),
            s@ == v@.subrange(from as int, i as int),
        decreases to - i,
    {
        push_char(&mut s, v[i]);
        proof {
            assert(v@.subrange(from as int, i + 1) == v@.subrange(from as int, i as int).push(v@[i as int]));
        }
        i += 1;
    }
    s
}

/// The string made of the characters of `v`.
pub fn string_of(v: &Vec<char>) -> (s: String)
    ensures
        s@ == v@,
{
    let s = string_of_range(v, 0, v.len());
    proof { assert(v@.subrange(0, v@.len() as int) == v@); }
    s
}

/// Skipping a run of leading whitespace does not change what `trim_start` gives.
proof fn lemma_trim_start_skip(s: Seq<char>, i: int)
    requires
        0 <= i <= s.len(),
        forall|j: int| 0 <= j < i ==> is_whitespace(#[trigger] s[j]),
    ensures
        trim_start(s) == trim_start(s.subrange(i, s.len() as int)),
    decreases i,
{
    if i > 0 {
        assert(is_whitespace(s[0]));
        let t = s.drop_first();
        assert forall|j: int| 0 <= j < i - 1 implies is_whitespace(#[trigger] t[j]) by {
            assert(t[j] == s[j + 1]);
        }
        lemma_trim_start_skip(t, i - 1);
        assert(t.subrange(i - 1, t.len() as int) == s.subrange(i, s.len() as int));
    } else {
        assert(s.subrange(0, s.len() as int) == s);
    }
}

/// Dropping a run of trailing whitespace does not change what `trim_end` gives.
proof fn lemma_trim_end_take(s: Seq<char>, k: int)
    requires
        0 <= k <= s.len(),
        forall|j: int| k <= j < s.len() ==> is_whitespace(#[trigger] s[j]),
    ensures
        trim_end(s) == trim_end(s.subrange(0, k)),
    decreases s.len() - k,
{
    if k < s.len() {
        assert(is_whitespace(s.last()));
        let t = s.drop_last();
        assert forall|j: int| k <= j < t.len() implies is_whitespace(#[trigger] t[j]) by {
            assert(t[j] == s[j]);
        }
        lemma_trim_end_take(t, k);
        assert(t.subrange(0, k) == s.subrange(0, k));
    } else {
        assert(s.subrange(0, k) == s);
    }
}

/// The positions `[a, b)` that `trim` keeps of `v`.
fn trim_bounds(v: &Vec<char>) -> (r: (usize, usize))
    ensures
        r.0 <= r.1 <= v.len(),
        trim(v@) == v@.subrange(r.0 as int, r.1 as int),
{
    let mut a: usize = 0;
    while a < v.len() && is_whitespace_char(v[a])
        invariant
            a <= v.len(),
            forall|j: int| 0 <= j < a ==> is_whitespace(#[trigger] v@[j]),
        decreases v.len() - a,
    {
        a += 1;
    }
    let mut b: usize = v.len();
    while b > a && is_whitespace_char(v[b - 1])
        invariant
            a <= b <= v.len(),
            forall|j: int| b <= j < v.len() ==> is_whitespace(#[trigger] v@[j]),
        decreases b,
    {
        b -= 1;
    }
    proof {
        lemma_trim_start_skip(v@, a as int);
        let t = v@.subrange(a as int, v@.len() as int);
        assert(!(t.len() > 0 && is_whitespace(t[0])));
        assert forall|j: int| b - a <= j < t.len() implies is_whitespace(#[trigger] t[j]) by {
            assert(t[j] == v@[j + a]);
        }
        lemma_trim_end_take(t, b - a);
        let u = t.subrange(0, b - a);
        assert(u == v@.subrange(a as int, b as int));
        assert(!(u.len() > 0 && is_whitespace(u.last())));
    }
    (a, b)
}

/// `s` without leading and trailing whitespace (`str::trim`).
pub fn trim_str(s: &str) -> (r: String)
    ensures
        r@ == trim(s@),
{
    let v = chars_of(s);
    let (a, b) = trim_bounds(&v);
    string_of_range(&v, a, b)
}

/// The fields of `s` between occurrences of `sep`, as `str::split` with a
/// `char` pattern gives them: every separator closes the current field and
/// opens a new one, every other character extends the current field.
pub open spec fn split(s: Seq<char>, sep: char) -> Seq<Seq<char>>
    decreases s.len(),
{
    if s.len() == 0 {
        seq![Seq::<char>::empty()]
    } else {
        let fields = split(s.drop_last(), sep);
        if s.last() == sep {
            fields.push(Seq::<char>::empty())
        } else {
            fields.update(fields.len() - 1, fields.last().push(s.last()))
        }
    }
}

/// `fields` joined back together, with `sep` between each two of them.
pub open spec fn join(fields: Seq<Seq<char>>, sep: char) -> Seq<char>
    decreases fields.len(),
{
    if fields.len() == 0 {
        Seq::<char>::empty()
    } else if fields.len() == 1 {
        fields[0]
    } else {
        join(fields.drop_last(), sep).push(sep) + fields.last()
    }
}

/// The views of a vector of character vectors.
pub open spec fn views(v: Seq<Vec<char>>) -> Seq<Seq<char>> {
    v.map_values(|f: Vec<char>| f@)
}

pub proof fn lemma_split_nonempty(s: Seq<char>, sep: char)
    ensures
        split(s, sep).len() >= 1,
    decreases s.len(),
{
    if s.len() > 0 {
        lemma_split_nonempty(s.drop_last(), sep);
    }
}

/// The fields of `s` between occurrences of `sep` (`str::split`).
pub fn split_fields(s: &Vec<char>, sep: char) -> (fields: Vec<Vec<char>>)
    ensures
        views(fields@) == split(s@, sep),
{
    let mut done: Vec<Vec<char>> = Vec::new();
    let mut cur: Vec<char> = Vec::new();
    let mut i: usize = 0;
    proof { assert(s@.take(0) == Seq::<char>::empty()); }
    while i < s.len()
        invariant
            i <= s.len(),
            split(s@.take(i as int), sep) == views(done@).push(cur@),
        decreases s.len() - i,
    {
        let c = s[i];
        let ghost before_done = done@;
        let ghost before_cur = cur@;
        proof {
            assert(s@.take(i + 1).drop_last() == s@.take(i as int));
            assert(s@.take(i + 1).last() == c);
        }
        if c == sep {
            let ghost before = done@;
            let mut finished: Vec<char> = Vec::new();
            std::mem::swap(&mut finished, &mut cur);
            done.push(finished);
            proof { assert(views(done@) == views(before).push(finished@)); }
        } else {
            cur.push(c);
        }
        i += 1;
        proof {
            let prev = views(before_done).push(before_cur);
            if c != sep {
                assert(views(done@) == views(before_done));
                assert(prev.update(prev.len() - 1, prev.last().push(c)) == views(done@).push(cur@));
            }
        }
    }
    done.push(cur);
    proof { assert(s@.take(s@.len() as int) == s@); }
    done
}

/// Joining the fields that `split` gives with the same separator gives back
/// the string that was split.
pub proof fn lemma_join_split(s: Seq<char>, sep: char)
    ensures
        join(split(s, sep), sep) == s,
    decreases s.len(),
{
    if s.len() > 0 {
        let p = s.drop_last();
        lemma_join_split(p, sep);
        lemma_split_nonempty(p, sep);
        let f = split(p, sep);
        if s.last() == sep {
            let g = f.push(Seq::<char>::empty());
            assert(g.drop_last() == f);
            assert(join(g, sep) == join(f, sep).push(sep) + Seq::<char>::empty());
        } else {
            let g = f.update(f.len() - 1, f.last().push(s.last()));
            if f.len() == 1 {
                assert(join(g, sep) == g[0]);
            } else {
                assert(g.drop_last() == f.drop_last());
                assert(join(g, sep) == join(f.drop_last(), sep).push(sep) + f.last().push(s.last()));
                assert(join(f, sep) == join(f.drop_last(), sep).push(sep) + f.last());
            }
        }
        assert(p.push(s.last()) == s);
    }
}

/// `line` without one trailing carriage return.
pub open spec fn strip_cr(line: Seq<char>) -> Seq<char> {
    if line.len() > 0 && line.last() == '\r' {
        line.drop_last()
    } else {
        line
    }
}

/// The lines of `s` as `BufRead::lines` gives them: text is cut at each
/// `'\n'`, a line that ended in `"\r\n"` loses the `'\r'` too, and the text
/// after the last `'\n'` is a line only when it is not empty.
pub open spec fn lines(s: Seq<char>) -> Seq<Seq<char>> {
    let parts = split(s, '\n');
    let ended = parts.drop_last().map_values(|p: Seq<char>| strip_cr(p));
    if parts.last().len() == 0 {
        ended
    } else {
        ended.push(parts.last())
    }
}

fn strip_cr_vec(line: Vec<char>) -> (r: Vec<char>)
    ensures
        r@ == strip_cr(line@),
{
    let mut line = line;
    if line.len() > 0 && line[line.len() - 1] == '\r' {
        line.pop();
    }
    line
}

/// The lines of `s` (`BufRead::lines` on a reader over `s`).
pub fn lines_of(s: &Vec<char>) -> (r: Vec<Vec<char>>)
    ensures
        views(r@) == lines(s@),
{
    let parts = split_fields(s, '\n');
    proof { lemma_split_nonempty(s@, '\n'); }
    let n: usize = parts.len();
    let ghost parts_view = views(parts@);
    let ghost ended = parts_view.drop_last().map_values(|p: Seq<char>| strip_cr(p));
    let mut r: Vec<Vec<char>> = Vec::new();
    let mut i: usize = 0;
    while i + 1 < n
        invariant
            n == parts.len() >= 1,
            parts_view == views(parts@),
            ended == parts_view.drop_last().map_values(|p: Seq<char>| strip_cr(p)),
            i + 1 <= n,
            views(r@) == ended.take(i as int),
        decreases n - i,
    {
        let line = strip_cr_vec(parts[i].clone());
        r.push(line);
        proof {
            assert(parts_view[i as int] == parts@[i as int]@);
            assert(ended.take(i + 1) == ended.take(i as int).push(strip_cr(parts_view[i as int])));
            assert(views(r@) == views(r@.drop_last()).push(line@));
        }
        i += 1;
    }
    proof { assert(ended.take(i as int) == ended); }
    if parts[n - 1].len() > 0 {
        let last = parts[n - 1].clone();
        let ghost before = r@;
        r.push(last);
        proof {
            assert(parts_view.last() == parts@[n - 1]@);
            assert(views(r@) == views(before).push(last@));
        }
    } else {
        proof { assert(parts_view.last() == parts@[n - 1]@); }
    }
    r
}

/// The decimal digit character for `d < 10`.
pub open spec fn digit_char(d: nat) -> char {
    (d + 48) as char
}

/// The decimal representation of `n`, without leading zeros.
pub open spec fn decimal(n: nat) -> Seq<char>
    decreases n,
{
    if n < 10 {
        seq![digit_char(n)]
    } else {
        decimal(n / 10).push(digit_char(n % 10))
    }
}

/// The decimal representation of `n`, with a leading `'-'` when negative, as
/// `to_string` writes integers.
pub open spec fn signed_decimal(n: int) -> Seq<char> {
    if n < 0 {
        seq!['-'] + decimal((-n) as nat)
    } else {
        decimal(n as nat)
    }
}

fn digit_of(d: u64) -> (c: char)
    requires
        d < 10,
    ensures
        c == digit_char(d as nat),
{
    let b: u8 = 48u8 + d as u8;
    b as char
}

/// Appends the decimal representation of `n` to `out`.
pub fn push_decimal(out: &mut Vec<char>, n: u64)
    ensures
        final(out)@ == old(out)@ + decimal(n as nat),
    decreases n,
{
    if n >= 10 {
        push_decimal(out, n / 10);
    }
    let c = digit_of(n % 10);
    out.push(c);
}

/// `n` written in decimal (`u32::to_string`).
pub fn u32_to_string(n: u32) -> (s: String)
    ensures
        s@ == decimal(n as nat),
{
    let mut v: Vec<char> = Vec::new();
    push_decimal(&mut v, n as u64);
    proof { assert(Seq::<char>::empty() + decimal(n as nat) == decimal(n as nat)); }
    string_of(&v)
}

/// `n` written in decimal, with a leading `'-'` when negative (`i32::to_string`).
pub fn i32_to_string(n: i32) -> (s: String)
    ensures
        s@ == signed_decimal(n as int),
{
    let mut v: Vec<char> = Vec::new();
    if n < 0 {
        v.push('-');
        let m: u64 = (0i64 - n as i64) as u64;
        push_decimal(&mut v, m);
    } else {
        push_decimal(&mut v, n as u64);
        proof { assert(Seq::<char>::empty() + decimal(n as nat) == decimal(n as nat)); }
    }
    string_of(&v)
}

/// Why a string is not a decimal integer of the target type, as
/// `core::num::IntErrorKind` names the cases.
#[derive(Debug, Clone, Copy, PartialEq, Eq, Structural)]
pub enum IntErrorKind {
    /// The string is empty.
    Empty,
    /// A character that is not a decimal digit, or a sign with no digits.
    InvalidDigit,
    /// The value is larger than the type's maximum.
    PosOverflow,
    /// The value is smaller than the type's minimum.
    NegOverflow,
}

pub open spec fn is_digit(c: char) -> bool {
    '0' <= c && c <= '9'
}

pub open spec fn digit_value(c: char) -> int {
    c as int - 48
}

/// Reads the decimal digits `d` after an accumulated value `acc`, from left
/// to right: the first character that is not a digit gives `InvalidDigit`,
/// the first digit that takes the value out of the `i32` range gives the
/// overflow on that side, and otherwise the value comes out.
pub open spec fn scan_i32(d: Seq<char>, acc: int, negative: bool) -> Result<int, IntErrorKind>
    decreases d.len(),
{
    if d.len() == 0 {
        Ok(acc)
    } else if !is_digit(d[0]) {
        Err(IntErrorKind::InvalidDigit)
    } else {
        let next: int = if negative {
            acc * 10 - digit_value(d[0])
        } else {
            acc * 10 + digit_value(d[0])
        };
        if next > i32::MAX {
            Err(IntErrorKind::PosOverflow)
        } else if next < i32::MIN {
            Err(IntErrorKind::NegOverflow)
        } else {
            scan_i32(d.drop_first(), next, negative)
        }
    }
}

/// What `s.parse::<i32>()` gives: an optional sign followed by decimal
/// digits, nothing else.
pub open spec fn parse_i32(s: Seq<char>) -> Result<int, IntErrorKind> {
    if s.len() == 0 {
        Err(IntErrorKind::Empty)
    } else if s.len() == 1 && (s[0] == '+' || s[0] == '-') {
        Err(IntErrorKind::InvalidDigit)
    } else if s[0] == '+' {
        scan_i32(s.drop_first(), 0, false)
    } else if s[0] == '-' {
        scan_i32(s.drop_first(), 0, true)
    } else {
        scan_i32(s, 0, false)
    }
}

proof fn lemma_scan_range(d: Seq<char>, acc: int, negative: bool)
    requires
        i32::MIN <= acc <= i32::MAX,
    ensures
        scan_i32(d, acc, negative) matches Ok(v) ==> i32::MIN <= v <= i32::MAX,
    decreases d.len(),
{
    if d.len() > 0 && is_digit(d[0]) {
        let next: int = if negative {
            acc * 10 - digit_value(d[0])
        } else {
            acc * 10 + digit_value(d[0])
        };
        if i32::MIN <= next <= i32::MAX {
            lemma_scan_range(d.drop_first(), next, negative);
        }
    }
}

/// Reads `v[from..]` as decimal digits (the digit loop of `i32::from_str`).
fn scan_digits(v: &Vec<char>, from: usize, negative: bool) -> (r: Result<i32, IntErrorKind>)
    requires
        from <= v.len(),
    ensures
        match scan_i32(v@.subrange(from as int, v@.len() as int), 0, negative) {
            Ok(n) => r == Ok::<i32, IntErrorKind>(n as i32),
            Err(e) => r == Err::<i32, IntErrorKind>(e),
        },
{
    let mut acc: i32 = 0;
    let mut i: usize = from;
    while i < v.len()
        invariant
            from <= i <= v.len(),
            scan_i32(v@.subrange(from as int, v@.len() as int), 0, negative)
                == scan_i32(v@.subrange(i as int, v@.len() as int), acc as int, negative),
        decreases v.len() - i,
    {
        let c = v[i];
        let ghost rest = v@.subrange(i as int, v@.len() as int);
        proof {
            assert(rest[0] == c);
            assert(rest.drop_first() == v@.subrange(i + 1, v@.len() as int));
        }
        if !('0' <= c && c <= '9') {
            return Err(IntErrorKind::InvalidDigit);
        }
        let d: i64 = (c as u32 - 48u32) as i64;
        let next: i64 = if negative {
            acc as i64 * 10 - d
        } else {
            acc as i64 * 10 + d
        };
        if next > i32::MAX as i64 {
            return Err(IntErrorKind::PosOverflow);
        }
        if next < i32::MIN as i64 {
            return Err(IntErrorKind::NegOverflow);
        }
        acc = next as i32;
        i += 1;
    }
    proof {
        assert(v@.subrange(i as int, v@.len() as int).len() == 0);
    }
    Ok(acc)
}

/// `s.parse::<i32>()`.
pub fn parse_i32_str(s: &str) -> (r: Result<i32, IntErrorKind>)
    ensures
        match parse_i32(s@) {
            Ok(n) => r == Ok::<i32, IntErrorKind>(n as i32),
            Err(e) => r == Err::<i32, IntErrorKind>(e),
        },
        r matches Ok(n) ==> parse_i32(s@) == Ok::<int, IntErrorKind>(n as int),
{
    let v = chars_of(s);
    if v.len() == 0 {
        return Err(IntErrorKind::Empty);
    }
    if v.len() == 1 && (v[0] == '+' || v[0] == '-') {
        return Err(IntErrorKind::InvalidDigit);
    }
    proof {
        lemma_scan_range(v@.drop_first(), 0, v@[0] == '-');
        lemma_scan_range(v@, 0, false);
        assert(v@.subrange(1, v@.len() as int) == v@.drop_first());
        assert(v@.subrange(0, v@.len() as int) == v@);
    }
    if v[0] == '+' {
        scan_digits(&v, 1, false)
    } else if v[0] == '-' {
        scan_digits(&v, 1, true)
    } else {
        scan_digits(&v, 0, false)
    }
}

proof fn lemma_scan_push(d: Seq<char>, c: char, acc: int, negative: bool)
    ensures
        scan_i32(d.push(c), acc, negative) == (match scan_i32(d, acc, negative) {
            Ok(v) => scan_i32(seq![c], v, negative),
            Err(e) => Err(e),
        }),
    decreases d.len(),
{
    if d.len() == 0 {
        assert(d.push(c) == seq![c]);
    } else {
        let e = d.push(c);
        assert(e[0] == d[0]);
        if is_digit(d[0]) {
            let next: int = if negative {
                acc * 10 - digit_value(d[0])
            } else {
                acc * 10 + digit_value(d[0])
            };
            assert(e.drop_first() == d.drop_first().push(c));
            lemma_scan_push(d.drop_first(), c, next, negative);
        }
    }
}

pub proof fn lemma_decimal_digits(n: nat)
    ensures
        decimal(n).len() >= 1,
        forall|i: int| 0 <= i < decimal(n).len() ==> is_digit(#[trigger] decimal(n)[i]),
    decreases n,
{
    if n >= 10 {
        lemma_decimal_digits(n / 10);
    }
}

proof fn lemma_scan_decimal(m: nat, negative: bool)
    requires
        negative ==> m <= 0x8000_0000,
        !negative ==> m <= 0x7fff_ffff,
    ensures
        scan_i32(decimal(m), 0, negative) == Ok::<int, IntErrorKind>(if negative { -m } else { m as int }),
    decreases m,
{
    if m < 10 {
        let d = decimal(m);
        assert(digit_value(digit_char(m)) == m);
        assert(is_digit(digit_char(m)));
        assert(d.drop_first() == Seq::<char>::empty());
        assert(d[0] == digit_char(m));
        let next: int = if negative { 0 * 10 - digit_value(d[0]) } else { 0 * 10 + digit_value(d[0]) };
        assert(scan_i32(d.drop_first(), next, negative) == Ok::<int, IntErrorKind>(next));
        assert(scan_i32(d, 0, negative) == Ok::<int, IntErrorKind>(next));
    } else {
        let q: nat = m / 10;
        let r: nat = m % 10;
        assert(q * 10 + r == m) by (nonlinear_arith)
            requires q == m / 10, r == m % 10;
        lemma_scan_decimal(q, negative);
        lemma_scan_push(decimal(q), digit_char(r), 0, negative);
        let v: int = if negative { -q } else { q as int };
        let e = seq![digit_char(r)];
        assert(digit_value(digit_char(r)) == r);
        assert(is_digit(digit_char(r)));
        assert(e.drop_first() == Seq::<char>::empty());
        assert(scan_i32(decimal(q), 0, negative) == Ok::<int, IntErrorKind>(v));
        if negative {
            assert(v * 10 - r == -m);
        } else {
            assert(v * 10 + r == m);
        }
        assert(e[0] == digit_char(r));
        let next: int = if negative { v * 10 - digit_value(e[0]) } else { v * 10 + digit_value(e[0]) };
        assert(next == if negative { -m } else { m as int });
        assert(scan_i32(e.drop_first(), next, negative) == Ok::<int, IntErrorKind>(next));
        assert(scan_i32(e, v, negative) == Ok::<int, IntErrorKind>(next));
    }
}

/// Writing an `i32` in decimal and parsing the text back gives the same
/// number.
pub proof fn lemma_parse_signed_decimal(n: i32)
    ensures
        parse_i32(signed_decimal(n as int)) == Ok::<int, IntErrorKind>(n as int),
{
    if n < 0 {
        let m: nat = (-n) as nat;
        lemma_scan_decimal(m, true);
        lemma_decimal_digits(m);
        let s = seq!['-'] + decimal(m);
        assert(s.drop_first() == decimal(m));
        assert(s[0] == '-');
    } else {
        lemma_scan_decimal(n as nat, false);
        lemma_decimal_digits(n as nat);
        assert(is_digit(decimal(n as nat)[0]));
    }
}

proof fn lemma_trim_start_first(s: Seq<char>)
    ensures
        trim_start(s).len() > 0 ==> !is_whitespace(trim_start(s)[0]),
    decreases s.len(),
{
    if s.len() > 0 && is_whitespace(s[0]) {
        lemma_trim_start_first(s.drop_first());
    }
}

proof fn lemma_trim_end_prefix(s: Seq<char>)
    ensures
        trim_end(s).len() <= s.len(),
        trim_end(s) == s.take(trim_end(s).len() as int),
        trim_end(s).len() > 0 ==> !is_whitespace(trim_end(s).last()),
    decreases s.len(),
{
    if s.len() > 0 && is_whitespace(s.last()) {
        let t = s.drop_last();
        lemma_trim_end_prefix(t);
        assert(t.take(trim_end(t).len() as int) == s.take(trim_end(t).len() as int));
    } else {
        assert(s.take(s.len() as int) == s);
    }
}

/// Trimming twice is trimming once.
pub proof fn lemma_trim_idempotent(s: Seq<char>)
    ensures
        trim(trim(s)) == trim(s),
{
    let a = trim_start(s);
    lemma_trim_start_first(s);
    lemma_trim_end_prefix(a);
    let t = trim_end(a);
    if t.len() > 0 {
        assert(t[0] == a[0]);
        assert(trim_start(t) == t);
    } else {
        assert(trim_start(t) == t);
    }
    assert(!(t.len() > 0 && is_whitespace(t.last())));
    assert(trim_end(t) == t);
}

proof fn lemma_trim_start_push(s: Seq<char>, c: char)
    ensures
        trim_start(s.push(c)) == (if trim_start(s).len() == 0 && is_whitespace(c) {
            Seq::<char>::empty()
        } else {
            trim_start(s).push(c)
        }),
    decreases s.len(),
{
    if s.len() == 0 {
        let t = s.push(c);
        assert(t.drop_first() == Seq::<char>::empty());
        assert(trim_start(Seq::<char>::empty()) == Seq::<char>::empty());
        assert(t[0] == c);
    } else if is_whitespace(s[0]) {
        assert(s.push(c)[0] == s[0]);
        assert(s.push(c).drop_first() == s.drop_first().push(c));
        lemma_trim_start_push(s.drop_first(), c);
    } else {
        assert(s.push(c)[0] == s[0]);
    }
}

/// Trailing whitespace added after a string is trimmed away with it.
pub proof fn lemma_trim_push_whitespace(s: Seq<char>, c: char)
    requires
        is_whitespace(c),
    ensures
        trim(s.push(c)) == trim(s),
{
    lemma_trim_start_push(s, c);
    let a = trim_start(s);
    if a.len() > 0 {
        assert(a.push(c).drop_last() == a);
    }
}

/// A decimal number has no whitespace to trim.
pub proof fn lemma_trim_signed_decimal(n: int)
    ensures
        trim(signed_decimal(n)) == signed_decimal(n),
{
    let m: nat = if n < 0 { (-n) as nat } else { n as nat };
    lemma_decimal_digits(m);
    let d = signed_decimal(n);
    let dm = decimal(m);
    assert(is_digit(dm[0]));
    assert(is_digit(dm.last()));
    if n < 0 {
        assert(d[0] == '-');
        assert(d.last() == dm.last());
    }
    assert(trim_start(d) == d);
    assert(trim_end(d) == d);
}

/// Different numbers have different decimal representations.
pub proof fn lemma_decimal_injective(a: nat, b: nat)
    requires
        decimal(a) == decimal(b),
    ensures
        a == b,
    decreases a,
{
    lemma_decimal_digits(a / 10);
    lemma_decimal_digits(b / 10);
    if a < 10 && b < 10 {
        assert(decimal(a)[0] == decimal(b)[0]);
        assert(decimal(a)[0] == digit_char(a));
        assert(decimal(b)[0] == digit_char(b));
        assert(digit_value(digit_char(a)) == a);
        assert(digit_value(digit_char(b)) == b);
    } else if a >= 10 && b >= 10 {
        assert(decimal(a).drop_last() == decimal(a / 10));
        assert(decimal(b).drop_last() == decimal(b / 10));
        lemma_decimal_injective(a / 10, b / 10);
        assert(decimal(a).last() == decimal(b).last());
        assert(decimal(a).last() == digit_char(a % 10));
        assert(decimal(b).last() == digit_char(b % 10));
        assert(digit_value(digit_char(a % 10)) == a % 10);
        assert(digit_value(digit_char(b % 10)) == b % 10);
        assert(a % 10 == b % 10);
        assert(a == (a / 10) * 10 + a % 10) by (nonlinear_arith);
        assert(b == (b / 10) * 10 + b % 10) by (nonlinear_arith);
    } else {
        assert(decimal(a).len() != decimal(b).len());
    }
}

} // verus!
