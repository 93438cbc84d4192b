use vstd::prelude::*;

verus! {

// ---------------------------------------------------------------------------
// Byte classes
// ---------------------------------------------------------------------------

/// ASCII whitespace as `u8::is_ascii_whitespace` has it: space, tab, line
/// feed, form feed and carriage return.
pub open spec fn is_ascii_ws(b: u8) -> bool {
    b == 0x20u8 || b == 0x09u8 || b == 0x0Au8 || b == 0x0Cu8 || b == 0x0Du8
}

/// One-byte encodings of a Unicode `White_Space` character (U+0009..U+000D,
/// U+0020).
pub open spec fn is_ws1(b: u8) -> bool {
    (0x09u8 <= b && b <= 0x0Du8) || b == 0x20u8
}

/// Two-byte encodings of a `White_Space` character (U+0085, U+00A0).
pub open spec fn is_ws2(a: u8, b: u8) -> bool {
    a == 0xC2u8 && (b == 0x85u8 || b == 0xA0u8)
}

/// Three-byte encodings of a `White_Space` character (U+1680,
/// U+2000..U+200A, U+2028, U+2029, U+202F, U+205F, U+3000).
pub open spec fn is_ws3(a: u8, b: u8, c: u8) -> bool {
    ||| (a == 0xE1u8 && b == 0x9Au8 && c == 0x80u8)
    ||| (a == 0xE2u8 && b == 0x80u8 && ((0x80u8 <= c && c <= 0x8Au8) || c == 0xA8u8 || c == 0xA9u8
        || c == 0xAFu8))
    ||| (a == 0xE2u8 && b == 0x81u8 && c == 0x9Fu8)
    ||| (a == 0xE3u8 && b == 0x80u8 && c == 0x80u8)
}

/// ASCII decimal digit.
pub open spec fn is_digit(b: u8) -> bool {
    0x30u8 <= b && b <= 0x39u8
}

// ---------------------------------------------------------------------------
// Trimming
// ---------------------------------------------------------------------------

/// `s` without its leading ASCII whitespace.
pub open spec fn trim_ascii_start(s: Seq<u8>) -> Seq<u8>
    decreases s.len(),
{
    if s.len() > 0 && is_ascii_ws(s[0]) {
        trim_ascii_start(s.drop_first())
    } else {
        s
    }
}

/// `s` without its trailing ASCII whitespace.
pub open spec fn trim_ascii_end(s: Seq<u8>) -> Seq<u8>
    decreases s.len(),
{
    if s.len() > 0 && is_ascii_ws(s.last()) {
        trim_ascii_end(s.drop_last())
    } else {
        s
    }
}

/// `s` without leading and trailing ASCII whitespace (`<[u8]>::trim_ascii`).
pub open spec fn trim_ascii(s: Seq<u8>) -> Seq<u8> {
    trim_ascii_end(trim_ascii_start(s))
}

/// Length of the whitespace character that `s` starts with, 0 if none.
pub open spec fn ws_prefix_len(s: Seq<u8>) -> nat {
    if s.len() >= 1 && is_ws1(s[0]) {
        1
    } else if s.len() >= 2 && is_ws2(s[0], s[1]) {
        2
    } else if s.len() >= 3 && is_ws3(s[0], s[1], s[2]) {
        3
    } else {
        0
    }
}

/// Length of the whitespace character that `s` ends with, 0 if none.
pub open spec fn ws_suffix_len(s: Seq<u8>) -> nat {
    let n = s.len();
    if n >= 1 && is_ws1(s[n - 1]) {
        1
    } else if n >= 2 && is_ws2(s[n - 2], s[n - 1]) {
        2
    } else if n >= 3 && is_ws3(s[n - 3], s[n - 2], s[n - 1]) {
        3
    } else {
        0
    }
}

/// `s` without its leading whitespace characters.
pub open spec fn trim_ws_start(s: Seq<u8>) -> Seq<u8>
    decreases s.len(),
{
    if ws_prefix_len(s) > 0 {
        trim_ws_start(s.skip(ws_prefix_len(s) as int))
    } else {
        s
    }
}

/// `s` without its trailing whitespace characters.
pub open spec fn trim_ws_end(s: Seq<u8>) -> Seq<u8>
    decreases s.len(),
{
    if ws_suffix_len(s) > 0 {
        trim_ws_end(s.take(s.len() - ws_suffix_len(s)))
    } else {
        s
    }
}

/// `s` without leading and trailing whitespace characters (`str::trim`).
pub open spec fn trim_ws(s: Seq<u8>) -> Seq<u8> {
    trim_ws_end(trim_ws_start(s))
}

// ---------------------------------------------------------------------------
// Numbers
// ---------------------------------------------------------------------------

/// Every byte of `s` is a decimal digit.
pub open spec fn all_digits(s: Seq<u8>) -> bool {
    forall|i: int| 0 <= i < s.len() ==> is_digit(#[trigger] s[i])
}

/// The value of the decimal digits `s`.
pub open spec fn digits_value(s: Seq<u8>) -> nat
    decreases s.len(),
{
    if s.len() == 0 {
        0
    } else {
        digits_value(s.drop_last()) * 10 + (s.last() - 0x30u8) as nat
    }
}

/// What `str::parse::<i16>` gives for `s`: an optional `+` or `-`, then
/// one or more decimal digits whose value fits in an `i16`.
pub open spec fn spec_parse_i16(s: Seq<u8>) -> Option<i16> {
    let neg = s.len() > 0 && s[0] == 0x2Du8;
    let signed = s.len() > 0 && (s[0] == 0x2Du8 || s[0] == 0x2Bu8);
    let digits = if signed {
        s.drop_first()
    } else {
        s
    };
    if digits.len() == 0 || !all_digits(digits) {
        None
    } else {
        let v: int = if neg {
            -(digits_value(digits) as int)
        } else {
            digits_value(digits) as int
        };
        if i16::MIN <= v <= i16::MAX {
            Some(v as i16)
        } else {
            None
        }
    }
}

// ---------------------------------------------------------------------------
// The protocol
// ---------------------------------------------------------------------------

/// Index of the first `b` in `s`, or `s.len()` when there is none.
pub open spec fn first_index(s: Seq<u8>, b: u8) -> nat
    decreases s.len(),
{
    if s.len() == 0 {
        0
    } else if s[0] == b {
        0
    } else {
        1 + first_index(s.drop_first(), b)
    }
}

/// The point that one line carries: after trimming ASCII whitespace the
/// line is `[`, a number, `,`, a number and `]`, where each number may be
/// surrounded by whitespace characters and is split off at the first comma.
///
/// A line read as text is first checked to be UTF-8; every line accepted
/// here is made of whitespace encodings, ASCII digits, signs and brackets,
/// so it is valid UTF-8 and that check changes nothing.
pub open spec fn spec_parse_point(line: Seq<u8>) -> Option<(i16, i16)> {
    let t = trim_ascii(line);
    if t.len() >= 2 && t[0] == 0x5Bu8 && t.last() == 0x5Du8 {
        let inner = t.subrange(1, t.len() - 1);
        let c = first_index(inner, 0x2Cu8);
        if c < inner.len() {
            let x = spec_parse_i16(trim_ws(inner.take(c as int)));
            let y = spec_parse_i16(trim_ws(inner.skip(c as int + 1)));
            if x is Some && y is Some {
                Some((x.unwrap(), y.unwrap()))
            } else {
                None
            }
        } else {
            None
        }
    } else {
        None
    }
}

/// The point of the first line of `data` (lines end at `\n`) that carries
/// one, if any line does.
pub open spec fn spec_vision_parse(data: Seq<u8>) -> Option<(i16, i16)>
    decreases data.len(),
{
    let n = first_index(data, 0x0Au8);
    match spec_parse_point(data.take(n as int)) {
        Some(p) => Some(p),
        None => if n < data.len() {
            spec_vision_parse(data.skip(n as int + 1))
        } else {
            None
        },
    }
}

// ---------------------------------------------------------------------------
// Lemmas
// ---------------------------------------------------------------------------

proof fn lemma_first_index_skip(s: Seq<u8>, b: u8, m: int)
    requires
        0 <= m <= s.len(),
        forall|k: int| 0 <= k < m ==> s[k] != b,
    ensures
        first_index(s, b) == m + first_index(s.skip(m), b),
    decreases m,
{
    if m > 0 {
        assert(s.skip(1) =~= s.drop_first());
        assert(s.drop_first().skip(m - 1) =~= s.skip(m));
        lemma_first_index_skip(s.drop_first(), b, m - 1);
    } else {
        assert(s.skip(0) =~= s);
    }
}

/// The first `b` of `s` is at `m` when no `b` comes before `m` and `m` is
/// the end or holds `b`.
proof fn lemma_first_index_at(s: Seq<u8>, b: u8, m: int)
    requires
        0 <= m <= s.len(),
        forall|k: int| 0 <= k < m ==> s[k] != b,
        m == s.len() || s[m] == b,
    ensures
        first_index(s, b) == m,
{
    lemma_first_index_skip(s, b, m);
}

proof fn lemma_digits_value_prefix(s: Seq<u8>, k: int)
    requires
        0 <= k <= s.len(),
    ensures
        digits_value(s.take(k)) <= digits_value(s),
    decreases s.len(),
{
    if k < s.len() {
        lemma_digits_value_prefix(s.drop_last(), k);
        assert(s.drop_last().take(k) =~= s.take(k));
    } else {
        assert(s.take(k) =~= s);
    }
}

/// The first line decides: a buffer whose first line carries a point reads
/// as that point whatever follows, and one whose first line carries none
/// reads as the rest of the buffer.
pub proof fn lemma_first_line_decides(line: Seq<u8>, rest: Seq<u8>)
    requires
        forall|k: int| 0 <= k < line.len() ==> line[k] != 0x0Au8,
    ensures
        spec_vision_parse(line + seq![0x0Au8] + rest) == (match spec_parse_point(line) {
            Some(p) => Some(p),
            None => spec_vision_parse(rest),
        }),
{
    let data = line + seq![0x0Au8] + rest;
    let m = line.len() as int;
    assert forall|k: int| 0 <= k < m implies data[k] != 0x0Au8 by {
        assert(data[k] == line[k]);
    }
    assert(data[m] == 0x0Au8);
    lemma_first_index_at(data, 0x0Au8, m);
    assert(data.take(m) =~= line);
    assert(data.skip(m + 1) =~= rest);
}

/// The decimal digits of `n`, most significant first, without leading
/// zeros.
pub open spec fn decimal(n: nat) -> Seq<u8>
    decreases n,
{
    if n < 10 {
        seq![(0x30 + n) as u8]
    } else {
        decimal(n / 10).push((0x30 + n % 10) as u8)
    }
}

/// `v` written in decimal, with a `-` in front when it is negative.
pub open spec fn signed_decimal(v: i16) -> Seq<u8> {
    if v < 0 {
        seq![0x2Du8] + decimal((-v) as nat)
    } else {
        decimal(v as nat)
    }
}

/// The line `[x,y]` that the camera sends for the point `(x, y)`.
pub open spec fn point_line(x: i16, y: i16) -> Seq<u8> {
    seq![0x5Bu8] + signed_decimal(x) + seq![0x2Cu8] + signed_decimal(y) + seq![0x5Du8]
}

proof fn lemma_decimal(n: nat)
    ensures
        decimal(n).len() > 0,
        all_digits(decimal(n)),
        digits_value(decimal(n)) == n,
    decreases n,
{
    if n < 10 {
        let s = decimal(n);
        assert(s.drop_last() =~= Seq::<u8>::empty());
        assert(s.last() == (0x30 + n) as u8);
        assert((0x30 + n) as u8 == 0x30 + n);
        assert(digits_value(s) == digits_value(s.drop_last()) * 10 + (s.last() - 0x30u8) as nat);
    } else {
        lemma_decimal(n / 10);
        let d = decimal(n / 10);
        let s = d.push((0x30 + n % 10) as u8);
        assert(s.drop_last() =~= d);
        assert(n == (n / 10) * 10 + n % 10) by (nonlinear_arith);
        assert((0x30 + n % 10) as u8 == 0x30 + n % 10);
        assert(digits_value(s) == digits_value(d) * 10 + (s.last() - 0x30u8) as nat);
        assert(decimal(n) == s);
        assert forall|i: int| 0 <= i < s.len() implies is_digit(#[trigger] s[i]) by {
            if i < d.len() {
                assert(s[i] == d[i]);
            }
        }
    }
}

proof fn lemma_signed_decimal(v: i16)
    ensures
        spec_parse_i16(signed_decimal(v)) == Some(v),
        trim_ws(signed_decimal(v)) == signed_decimal(v),
        forall|i: int|
            0 <= i < signed_decimal(v).len() ==> {
                let b = #[trigger] signed_decimal(v)[i];
                b != 0x2Cu8 && b != 0x0Au8 && b != 0x5Du8
            },
        signed_decimal(v).len() > 0,
        signed_decimal(v)[0] == 0x2Du8 || is_digit(signed_decimal(v)[0]),
        is_digit(signed_decimal(v).last()),
{
    let s = signed_decimal(v);
    if v < 0 {
        let m = (-v) as nat;
        lemma_decimal(m);
        assert(s.drop_first() =~= decimal(m));
        assert forall|i: int| 0 <= i < s.len() implies ({
            let b = #[trigger] s[i];
            b != 0x2Cu8 && b != 0x0Au8 && b != 0x5Du8
        }) by {
            if i > 0 {
                assert(s[i] == decimal(m)[i - 1]);
                assert(is_digit(decimal(m)[i - 1]));
            }
        }
        assert(is_digit(s[s.len() - 1])) by {
            assert(s[s.len() - 1] == decimal(m)[decimal(m).len() - 1]);
        }
    } else {
        lemma_decimal(v as nat);
        assert(is_digit(s[0]));
        assert(is_digit(s[s.len() - 1]));
        assert forall|i: int| 0 <= i < s.len() implies ({
            let b = #[trigger] s[i];
            b != 0x2Cu8 && b != 0x0Au8 && b != 0x5Du8
        }) by {
            assert(is_digit(s[i]));
        }
    }
    assert(ws_prefix_len(s) == 0);
    assert(trim_ws_start(s) == s);
    assert(ws_suffix_len(s) == 0);
    assert(trim_ws_end(s) == s);
}

/// What the camera writes reads back: the line `[x,y]` for any point in
/// range parses as that point, alone or followed by a line break.
pub proof fn lemma_point_line_round_trip(x: i16, y: i16)
    ensures
        spec_vision_parse(point_line(x, y)) == Some((x, y)),
        spec_vision_parse(point_line(x, y).push(0x0Au8)) == Some((x, y)),
{
    let sx = signed_decimal(x);
    let sy = signed_decimal(y);
    lemma_signed_decimal(x);
    lemma_signed_decimal(y);
    let line = point_line(x, y);
    let inner = sx + seq![0x2Cu8] + sy;
    assert(line =~= seq![0x5Bu8] + inner + seq![0x5Du8]);
    // The line has no ASCII whitespace to trim.
    assert(trim_ascii_start(line) == line);
    assert(trim_ascii_end(line) == line);
    assert(line.subrange(1, line.len() - 1) =~= inner);
    // The comma between the numbers is the first one.
    assert forall|k: int| 0 <= k < sx.len() implies inner[k] != 0x2Cu8 by {
        assert(inner[k] == sx[k]);
    }
    lemma_first_index_at(inner, 0x2Cu8, sx.len() as int);
    assert(inner.take(sx.len() as int) =~= sx);
    assert(inner.skip(sx.len() as int + 1) =~= sy);
    assert(spec_parse_point(line) == Some((x, y)));
    // No line break inside the line.
    assert forall|k: int| 0 <= k < line.len() implies line[k] != 0x0Au8 by {
        if 1 <= k < 1 + sx.len() {
            assert(line[k] == sx[k - 1]);
        } else if 1 + sx.len() < k < line.len() - 1 {
            assert(line[k] == sy[k - 2 - sx.len()]);
        }
    }
    lemma_first_index_at(line, 0x0Au8, line.len() as int);
    assert(line.take(line.len() as int) =~= line);
    lemma_first_line_decides(line, Seq::empty());
    assert(line + seq![0x0Au8] + Seq::<u8>::empty() =~= line.push(0x0Au8));
}

/// A line with a third number carries no point: the numbers are split at
/// the first comma, and what follows it must be one number.
pub proof fn lemma_three_numbers_rejected(x: i16, y: i16, z: i16)
    ensures
        spec_vision_parse(
            seq![0x5Bu8] + signed_decimal(x) + seq![0x2Cu8] + signed_decimal(y) + seq![0x2Cu8]
                + signed_decimal(z) + seq![0x5Du8],
        ) == None::<(i16, i16)>,
{
    let sx = signed_decimal(x);
    let sy = signed_decimal(y);
    let sz = signed_decimal(z);
    lemma_signed_decimal(x);
    lemma_signed_decimal(y);
    lemma_signed_decimal(z);
    let tail = sy + seq![0x2Cu8] + sz;
    let inner = sx + seq![0x2Cu8] + tail;
    let line = seq![0x5Bu8] + inner + seq![0x5Du8];
    assert(line =~= seq![0x5Bu8] + sx + seq![0x2Cu8] + sy + seq![0x2Cu8] + sz + seq![0x5Du8]);
    assert(trim_ascii_start(line) == line);
    assert(trim_ascii_end(line) == line);
    assert(line.subrange(1, line.len() - 1) =~= inner);
    assert forall|k: int| 0 <= k < sx.len() implies inner[k] != 0x2Cu8 by {
        assert(inner[k] == sx[k]);
    }
    lemma_first_index_at(inner, 0x2Cu8, sx.len() as int);
    assert(inner.skip(sx.len() as int + 1) =~= tail);
    // The part after the first comma is not one number.
    assert(tail[0] == sy[0]);
    assert(tail.last() == sz.last());
    assert(ws_prefix_len(tail) == 0);
    assert(trim_ws_start(tail) == tail);
    assert(ws_suffix_len(tail) == 0);
    assert(trim_ws_end(tail) == tail);
    assert(tail[sy.len() as int] == 0x2Cu8);
    let signed = tail[0] == 0x2Du8 || tail[0] == 0x2Bu8;
    let digits = if signed {
        tail.drop_first()
    } else {
        tail
    };
    if signed {
        assert(digits[sy.len() - 1] == 0x2Cu8);
        assert(!is_digit(digits[sy.len() - 1]));
    } else {
        assert(!is_digit(digits[sy.len() as int]));
    }
    assert(spec_parse_i16(trim_ws(tail)) == None::<i16>);
    assert(spec_parse_point(line) == None::<(i16, i16)>);
    // No line break inside the line.
    assert forall|k: int| 0 <= k < line.len() implies line[k] != 0x0Au8 by {
        if 1 <= k < 1 + sx.len() {
            assert(line[k] == sx[k - 1]);
        } else if 1 + sx.len() < k < 1 + sx.len() + 1 + sy.len() {
            assert(line[k] == sy[k - 2 - sx.len()]);
        } else if 1 + sx.len() + 1 + sy.len() + 1 <= k < line.len() - 1 {
            assert(line[k] == sz[k - 3 - sx.len() - sy.len()]);
        }
    }
    lemma_first_index_at(line, 0x0Au8, line.len() as int);
    assert(line.take(line.len() as int) =~= line);
}

// ---------------------------------------------------------------------------
// Executable parts
// ---------------------------------------------------------------------------

fn ws_prefix_len_at(data: &[u8], i: usize, hi: usize) -> (k: usize)
    requires
        i <= hi <= data.len(),
    ensures
        k as nat == ws_prefix_len(data@.subrange(i as int, hi as int)),
        k <= hi - i,
{
    let n: usize = hi - i;
    if n >= 1 && ((0x09 <= data[i] && data[i] <= 0x0D) || data[i] == 0x20) {
        1
    } else if n >= 2 && data[i] == 0xC2 && (data[i + 1] == 0x85 || data[i + 1] == 0xA0) {
        2
    } else if n >= 3 && ws3_exec(data[i], data[i + 1], data[i + 2]) {
        3
    } else {
        0
    }
}

fn ws_suffix_len_at(data: &[u8], lo: usize, j: usize) -> (k: usize)
    requires
        lo <= j <= data.len(),
    ensures
        k as nat == ws_suffix_len(data@.subrange(lo as int, j as int)),
        k <= j - lo,
{
    let n: usize = j - lo;
    if n >= 1 && ((0x09 <= data[j - 1] && data[j - 1] <= 0x0D) || data[j - 1] == 0x20) {
        1
    } else if n >= 2 && data[j - 2] == 0xC2 && (data[j - 1] == 0x85 || data[j - 1] == 0xA0) {
        2
    } else if n >= 3 && ws3_exec(data[j - 3], data[j - 2], data[j - 1]) {
        3
    } else {
        0
    }
}

fn ws3_exec(a: u8, b: u8, c: u8) -> (r: bool)
    ensures
        r == is_ws3(a, b, c),
{
    (a == 0xE1 && b == 0x9A && c == 0x80) || (a == 0xE2 && b == 0x80 && ((0x80 <= c && c <= 0x8A)
        || c == 0xA8 || c == 0xA9 || c == 0xAF)) || (a == 0xE2 && b == 0x81 && c == 0x9F) || (a
        == 0xE3 && b == 0x80 && c == 0x80)
}

/// Bounds `(a, b)` of `trim_ws(data[lo..hi])` within `data`.
fn trim_ws_bounds(data: &[u8], lo: usize, hi: usize) -> (r: (usize, usize))
    requires
        lo <= hi <= data.len(),
    ensures
        lo <= r.0 <= r.1 <= hi,
        data@.subrange(r.0 as int, r.1 as int) == trim_ws(data@.subrange(lo as int, hi as int)),
{
    let mut a: usize = lo;
    while a < hi
        invariant
            lo <= a <= hi <= data.len(),
            trim_ws_start(data@.subrange(lo as int, hi as int)) == trim_ws_start(
                data@.subrange(a as int, hi as int),
            ),
        ensures
            lo <= a <= hi,
            trim_ws_start(data@.subrange(lo as int, hi as int)) == data@.subrange(a as int, hi as int),
        decreases hi - a,
    {
        let k: usize = ws_prefix_len_at(data, a, hi);
        if k == 0 {
            break ;
        }
        assert(a + k <= hi);
        assert(data@.subrange(a as int, hi as int).skip(k as int) =~= data@.subrange(
            (a + k) as int,
            hi as int,
        ));
        a = a + k;
    }
    let ghost start = data@.subrange(a as int, hi as int);
    assert(trim_ws_start(start) == start);
    let mut b: usize = hi;
    while b > a
        invariant
            lo <= a <= b <= hi <= data.len(),
            trim_ws_end(start) == trim_ws_end(data@.subrange(a as int, b as int)),
            start == data@.subrange(a as int, hi as int),
        ensures
            a <= b <= hi,
            trim_ws_end(start) == data@.subrange(a as int, b as int),
        decreases b - a,
    {
        let k: usize = ws_suffix_len_at(data, a, b);
        if k == 0 {
            break ;
        }
        assert(data@.subrange(a as int, b as int).take((b - a - k) as int) =~= data@.subrange(
            a as int,
            (b - k) as int,
        ));
        b = b - k;
    }
    (a, b)
}

/// `str::parse::<i16>` on the bytes `data[lo..hi]`.
fn parse_i16_at(data: &[u8], lo: usize, hi: usize) -> (r: Option<i16>)
    requires
        lo <= hi <= data.len(),
    ensures
        r == spec_parse_i16(data@.subrange(lo as int, hi as int)),
{
    let ghost s = data@.subrange(lo as int, hi as int);
    let neg = lo < hi && data[lo] == 0x2D;
    let signed = lo < hi && (data[lo] == 0x2D || data[lo] == 0x2B);
    let ds: usize = if signed {
        lo + 1
    } else {
        lo
    };
    let ghost digits = data@.subrange(ds as int, hi as int);
    assert(digits =~= (if signed {
        s.drop_first()
    } else {
        s
    }));
    if ds == hi {
        return None;
    }
    let mut acc: u32 = 0;
    let mut i: usize = ds;
    while i < hi
        invariant
            ds <= i <= hi <= data.len(),
            digits == data@.subrange(ds as int, hi as int),
            s == data@.subrange(lo as int, hi as int),
            signed == (s.len() > 0 && (s[0] == 0x2Du8 || s[0] == 0x2Bu8)),
            neg == (s.len() > 0 && s[0] == 0x2Du8),
            digits == (if signed {
                s.drop_first()
            } else {
                s
            }),
            digits.len() > 0,
            all_digits(data@.subrange(ds as int, i as int)),
            acc as nat == digits_value(data@.subrange(ds as int, i as int)),
            acc <= 32768,
        decreases hi - i,
    {
        let c: u8 = data[i];
        if c < 0x30 || c > 0x39 {
            assert(digits[i - ds] == c);
            assert(!is_digit(digits[i - ds]));
            assert(!all_digits(digits));
            return None;
        }
        assert(data@.subrange(ds as int, i + 1).drop_last() =~= data@.subrange(ds as int, i as int));
        acc = acc * 10 + (c - 0x30) as u32;
        i = i + 1;
        if acc > 32768 {
            proof {
                if all_digits(digits) {
                    lemma_digits_value_prefix(digits, i - ds);
                    assert(digits.take(i - ds) =~= data@.subrange(ds as int, i as int));
                    assert(digits_value(digits) > 32768);
                }
            }
            return None;
        }
    }
    assert(data@.subrange(ds as int, i as int) =~= digits);
    if neg {
        Some((0 - (acc as i32)) as i16)
    } else if acc <= 32767 {
        Some(acc as i16)
    } else {
        None
    }
}

/// The point that the line `data[lo..hi]` carries (see `spec_parse_point`).
fn parse_point_at(data: &[u8], lo: usize, hi: usize) -> (r: Option<(i16, i16)>)
    requires
        lo <= hi <= data.len(),
    ensures
        r == spec_parse_point(data@.subrange(lo as int, hi as int)),
{
    let ghost line = data@.subrange(lo as int, hi as int);
    // Trim ASCII whitespace at the start.
    let mut a: usize = lo;
    while a < hi && (data[a] == 0x20 || data[a] == 0x09 || data[a] == 0x0A || data[a] == 0x0C
        || data[a] == 0x0D)
        invariant
            lo <= a <= hi <= data.len(),
            trim_ascii_start(line) == trim_ascii_start(data@.subrange(a as int, hi as int)),
            line == data@.subrange(lo as int, hi as int),
        decreases hi - a,
    {
        assert(data@.subrange(a as int, hi as int).drop_first() =~= data@.subrange(
            a + 1,
            hi as int,
        ));
        a = a + 1;
    }
    let ghost started = data@.subrange(a as int, hi as int);
    assert(trim_ascii_start(line) == started);
    // Trim ASCII whitespace at the end.
    let mut b: usize = hi;
    while b > a && (data[b - 1] == 0x20 || data[b - 1] == 0x09 || data[b - 1] == 0x0A || data[b
        - 1] == 0x0C || data[b - 1] == 0x0D)
        invariant
            lo <= a <= b <= hi <= data.len(),
            trim_ascii_end(started) == trim_ascii_end(data@.subrange(a as int, b as int)),
            started == data@.subrange(a as int, hi as int),
        decreases b - a,
    {
        assert(data@.subrange(a as int, b as int).drop_last() =~= data@.subrange(
            a as int,
            b - 1,
        ));
        b = b - 1;
    }
    let ghost t = data@.subrange(a as int, b as int);
    assert(trim_ascii(line) == t);
    if b - a < 2 || data[a] != 0x5B || data[b - 1] != 0x5D {
        return None;
    }
    // The first comma inside the brackets.
    let ghost inner = data@.subrange(a + 1, b - 1);
    assert(inner =~= t.subrange(1, t.len() - 1));
    let mut c: usize = a + 1;
    while c < b - 1 && data[c] != 0x2C
        invariant
            a + 1 <= c <= b - 1,
            b <= data.len(),
            inner == data@.subrange(a + 1, b - 1),
            forall|k: int| 0 <= k < c - (a + 1) ==> inner[k] != 0x2Cu8,
        decreases b - 1 - c,
    {
        c = c + 1;
    }
    proof {
        lemma_first_index_at(inner, 0x2Cu8, c - (a + 1));
    }
    if c == b - 1 {
        return None;
    }
    assert(inner.take(c - (a + 1)) =~= data@.subrange(a + 1, c as int));
    assert(inner.skip(c - (a + 1) + 1) =~= data@.subrange(c + 1, b - 1));
    let (xa, xb) = trim_ws_bounds(data, a + 1, c);
    let (ya, yb) = trim_ws_bounds(data, c + 1, b - 1);
    let x = parse_i16_at(data, xa, xb);
    let y = parse_i16_at(data, ya, yb);
    match (x, y) {
        (Some(x), Some(y)) => Some((x, y)),
        _ => None,
    }
}

/// The first point that `data` carries, one `[x,y]` per line.
pub fn vision_parse(data: &[u8]) -> (r: Option<(i16, i16)>)
    ensures
        r == spec_vision_parse(data@),
{
    let mut start: usize = 0;
    assert(data@.subrange(0, data@.len() as int) =~= data@);
    loop
        invariant
            start <= data.len(),
            spec_vision_parse(data@) == spec_vision_parse(
                data@.subrange(start as int, data@.len() as int),
            ),
        decreases data.len() + 1 - start,
    {
        let ghost rest = data@.subrange(start as int, data@.len() as int);
        let mut end: usize = start;
        while end < data.len() && data[end] != 0x0A
            invariant
                start <= end <= data.len(),
                rest == data@.subrange(start as int, data@.len() as int),
                forall|k: int| 0 <= k < end - start ==> rest[k] != 0x0Au8,
            decreases data.len() - end,
        {
            end = end + 1;
        }
        proof {
            lemma_first_index_at(rest, 0x0Au8, end - start);
            assert(rest.take(end - start) =~= data@.subrange(start as int, end as int));
            if end < data.len() {
                assert(rest.skip(end - start + 1) =~= data@.subrange(end + 1, data@.len() as int));
            }
        }
        if let Some(p) = parse_point_at(data, start, end) {
            return Some(p);
        }
        if end == data.len() {
            return None;
        }
        start = end + 1;
    }
}

} // verus!
