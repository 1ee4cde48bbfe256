//! Text: how the machine writes numbers, and how it reads them from a line.

use vstd::prelude::*;

verus! {

/// The character for one digit: `0` to `9`, then `a` to `f`.
pub open spec fn digit_char(d: int) -> char
    recommends
        0 <= d < 16,
{
    if d < 10 {
        (d + 48) as char
    } else {
        (d + 87) as char
    }
}

/// `n` in positional notation, most significant digit first, without
/// leading zeros.
pub open spec fn digits(n: nat, radix: nat) -> Seq<char>
    recommends
        2 <= radix <= 16,
    decreases n,
    via digits_terminates
{
    if n < radix || radix < 2 {
        seq![digit_char(n as int)]
    } else {
        digits(n / radix, radix).push(digit_char((n % radix) as int))
    }
}

/// A number gets smaller when its last digit is taken off.
#[via_fn]
proof fn digits_terminates(n: nat, radix: nat) {
    assert(n >= radix && radix >= 2 ==> n / radix < n) by (nonlinear_arith);
}

/// `count` zeros.
pub open spec fn zeros(count: nat) -> Seq<char> {
    Seq::new(count, |i: int| '0')
}

/// `n` in positional notation, with zeros in front up to `width` characters.
pub open spec fn padded_digits(n: nat, radix: nat, width: nat) -> Seq<char> {
    let d = digits(n, radix);
    if d.len() >= width {
        d
    } else {
        zeros((width - d.len()) as nat) + d
    }
}

/// `v` in decimal, with a minus sign where it is negative.
pub open spec fn decimal(v: int) -> Seq<char> {
    if v < 0 {
        seq!['-'] + digits((-v) as nat, 10)
    } else {
        digits(v as nat, 10)
    }
}

/// The digits of `m` where `m` is positive, nothing where it is 0: what is
/// left to write once the low digits of a number are out.
spec fn leading(m: nat, radix: nat) -> Seq<char> {
    if m == 0 {
        Seq::empty()
    } else {
        digits(m, radix)
    }
}

/// The digits of a number are those of the number without its last digit,
/// then the last digit.
proof fn lemma_digits_step(m: nat, radix: nat)
    requires
        2 <= radix,
    ensures
        digits(m, radix) =~= leading(m / radix, radix) + seq![digit_char((m % radix) as int)],
{
    if m < radix {
        assert(m / radix == 0 && m % radix == m) by (nonlinear_arith)
            requires
                m < radix,
        ;
    } else {
        assert(m / radix > 0) by (nonlinear_arith)
            requires
                m >= radix,
                radix >= 2,
        ;
    }
}

/// The character for the digit `d`.
fn digit_of(d: u32) -> (c: char)
    requires
        d < 16,
    ensures
        c == digit_char(d as int),
{
    let code: u8 = if d < 10 {
        (d + 48) as u8
    } else {
        (d + 87) as u8
    };
    code as char
}

/// Appends `n` in the given radix to `out`, with zeros in front up to
/// `width` characters.
pub fn append_digits(out: &mut Vec<char>, n: u32, radix: u32, width: usize)
    requires
        2 <= radix <= 16,
    ensures
        final(out)@ == old(out)@ + padded_digits(n as nat, radix as nat, width as nat),
{
    let mut low: Vec<char> = Vec::new();
    let mut m: u32 = n;
    let mut first: bool = true;
    while first || m > 0
        invariant
            2 <= radix <= 16,
            first ==> m == n && low@.len() == 0,
            !first ==> digits(n as nat, radix as nat) =~= leading(m as nat, radix as nat)
                + low@.reverse(),
        decreases m + (if first { 1int } else { 0int }),
    {
        proof {
            lemma_digits_step(m as nat, radix as nat);
            assert(m > 0 ==> m / radix < m) by (nonlinear_arith)
                requires
                    radix >= 2,
            ;
        }
        let c: char = digit_of(m % radix);
        low.push(c);
        m = m / radix;
        first = false;
    }
    while low.len() < width
        invariant
            low@.len() >= digits(n as nat, radix as nat).len(),
            low@.len() > digits(n as nat, radix as nat).len() ==> low@.len() <= width,
            low@.reverse() =~= zeros((low@.len() - digits(n as nat, radix as nat).len()) as nat)
                + digits(n as nat, radix as nat),
        decreases width - low.len(),
    {
        assert(low@.push('0').reverse() =~= seq!['0'] + low@.reverse());
        low.push('0');
    }
    let mut i: usize = low.len();
    while i > 0
        invariant
            i <= low@.len(),
            out@ =~= old(out)@ + low@.reverse().take(low@.len() - i),
        decreases i,
    {
        i -= 1;
        out.push(low[i]);
    }
}

/// Appends `v` in decimal to `out`.
pub fn append_decimal(out: &mut Vec<char>, v: i32)
    ensures
        final(out)@ == old(out)@ + decimal(v as int),
{
    if v < 0 {
        out.push('-');
        let magnitude: u32 = if v == i32::MIN {
            0x8000_0000
        } else {
            (-v) as u32
        };
        append_digits(out, magnitude, 10, 0);
    } else {
        append_digits(out, v as u32, 10, 0);
    }
}

/// Appends the characters of `s` to `out`.
pub fn append_str(out: &mut Vec<char>, s: &str)
    ensures
        final(out)@ == old(out)@ + s@,
{
    let n: usize = s.unicode_len();
    let mut i: usize = 0;
    while i < n
        invariant
            n == s@.len(),
            i <= n,
            out@ =~= old(out)@ + s@.take(i as int),
        decreases n - i,
    {
        out.push(s.get_char(i));
        i += 1;
    }
}

/// Whether `c` is white space: a character with Unicode's property of that
/// name.
pub open spec fn is_whitespace(c: char) -> bool {
    let u = c as u32;
    ||| 0x09 <= u <= 0x0D
    ||| u == 0x20
    ||| u == 0x85
    ||| u == 0xA0
    ||| u == 0x1680
    ||| 0x2000 <= u <= 0x200A
    ||| u == 0x2028
    ||| u == 0x2029
    ||| u == 0x202F
    ||| u == 0x205F
    ||| u == 0x3000
}

/// `s` without the white space at its start.
pub open spec fn trim_start(s: Seq<char>) -> Seq<char>
    decreases s.len(),
{
    if s.len() > 0 && is_whitespace(s[0]) {
        trim_start(s.skip(1))
    } else {
        s
    }
}

/// `s` without the white space at its end.
pub open spec fn trim_end(s: Seq<char>) -> Seq<char>
    decreases s.len(),
{
    if s.len() > 0 && is_whitespace(s.last()) {
        trim_end(s.drop_last())
    } else {
        s
    }
}

/// `s` without the white space at its start and at its end.
pub open spec fn trim(s: Seq<char>) -> Seq<char> {
    trim_end(trim_start(s))
}

/// What `c` is worth as a digit: `0` to `9`, then the letters, small or
/// capital, from 10 on.
pub open spec fn digit_value(c: char) -> Option<int> {
    let u = c as u32;
    if 48 <= u <= 57 {
        Some(u - 48)
    } else if 97 <= u <= 122 {
        Some(u - 87)
    } else if 65 <= u <= 90 {
        Some(u - 55)
    } else {
        None
    }
}

/// Whether `c` is a digit of the given radix.
pub open spec fn is_digit(c: char, radix: int) -> bool {
    match digit_value(c) {
        Some(d) => d < radix,
        None => false,
    }
}

/// Whether `s` holds digits of the given radix and nothing else.
pub open spec fn all_digits(s: Seq<char>, radix: int) -> bool {
    forall|i: int| 0 <= i < s.len() ==> is_digit(#[trigger] s[i], radix)
}

/// The number that the digits `s` write in the given radix.
pub open spec fn digits_value(s: Seq<char>, radix: int) -> int
    decreases s.len(),
{
    if s.len() == 0 {
        0
    } else {
        digits_value(s.drop_last(), radix) * radix + match digit_value(s.last()) {
            Some(d) => d,
            None => 0,
        }
    }
}

/// The 32-bit signed number that `s` writes in the given radix: an optional
/// sign, then at least one digit and nothing else. `None` where `s` is not of
/// that form or the number does not fit.
pub open spec fn parse_signed(s: Seq<char>, radix: int) -> Option<i32> {
    if s.len() == 0 {
        None
    } else {
        let body = if s[0] == '-' || s[0] == '+' {
            s.skip(1)
        } else {
            s
        };
        let magnitude = digits_value(body, radix);
        let value = if s[0] == '-' {
            -magnitude
        } else {
            magnitude
        };
        if body.len() > 0 && all_digits(body, radix) && i32::MIN <= value <= i32::MAX {
            Some(value as i32)
        } else {
            None
        }
    }
}

/// Whether `s` starts with `0` and then `small` or `capital`.
pub open spec fn has_radix_prefix(s: Seq<char>, small: char, capital: char) -> bool {
    s.len() >= 2 && s[0] == '0' && (s[1] == small || s[1] == capital)
}

/// The number that a line of input stands for: after trimming, hexadecimal
/// behind `0x`, binary behind `0b`, decimal otherwise, and 0 where the line
/// writes no number that fits.
pub open spec fn parse_line(line: Seq<char>) -> i32 {
    let t = trim(line);
    let parsed = if has_radix_prefix(t, 'x', 'X') {
        parse_signed(t.skip(2), 16)
    } else if has_radix_prefix(t, 'b', 'B') {
        parse_signed(t.skip(2), 2)
    } else {
        parse_signed(t, 10)
    };
    match parsed {
        Some(v) => v,
        None => 0,
    }
}

/// Whether `c` is white space.
fn whitespace(c: char) -> (r: bool)
    ensures
        r == is_whitespace(c),
{
    let u: u32 = c as u32;
    (0x09 <= u && u <= 0x0D) || u == 0x20 || u == 0x85 || u == 0xA0 || u == 0x1680 || (0x2000 <= u
        && u <= 0x200A) || u == 0x2028 || u == 0x2029 || u == 0x202F || u == 0x205F || u == 0x3000
}

/// Where the trimmed line starts and ends.
pub fn trim_bounds(line: &[char]) -> (bounds: (usize, usize))
    ensures
        bounds.0 <= bounds.1 <= line@.len(),
        line@.subrange(bounds.0 as int, bounds.1 as int) == trim(line@),
{
    let n: usize = line.len();
    let mut start: usize = 0;
    assert(line@.skip(0) =~= line@);
    while start < n && whitespace(line[start])
        invariant
            n == line@.len(),
            start <= n,
            trim_start(line@) == trim_start(line@.skip(start as int)),
        decreases n - start,
    {
        assert(line@.skip(start as int).skip(1) =~= line@.skip(start + 1));
        start += 1;
    }
    let ghost rest = line@.skip(start as int);
    let mut end: usize = n;
    while end > start && whitespace(line[end - 1])
        invariant
            start <= end <= n,
            n == line@.len(),
            rest == line@.skip(start as int),
            trim_end(rest) == trim_end(line@.subrange(start as int, end as int)),
        decreases end,
    {
        assert(line@.subrange(start as int, end as int).drop_last() =~= line@.subrange(
            start as int,
            end - 1,
        ));
        end -= 1;
    }
    (start, end)
}

/// What `c` is worth as a digit, if it is one.
fn digit_value_of(c: char) -> (d: Option<u32>)
    ensures
        match d {
            Some(v) => digit_value(c) == Some(v as int),
            None => digit_value(c) is None,
        },
{
    let u: u32 = c as u32;
    if 48 <= u && u <= 57 {
        Some(u - 48)
    } else if 97 <= u && u <= 122 {
        Some(u - 87)
    } else if 65 <= u && u <= 90 {
        Some(u - 55)
    } else {
        None
    }
}

/// The number that the first digits of a string write is not above the
/// number that the whole string writes.
proof fn lemma_digits_value_grows(s: Seq<char>, k: int, radix: int)
    requires
        0 <= k <= s.len(),
        radix >= 2,
    ensures
        0 <= digits_value(s.take(k), radix) <= digits_value(s, radix),
    decreases s.len() - k,
{
    lemma_digits_value_nonnegative(s.take(k), radix);
    if k < s.len() {
        lemma_digits_value_grows(s, k + 1, radix);
        assert(s.take(k + 1).drop_last() =~= s.take(k));
        let low = digits_value(s.take(k), radix);
        assert(low * radix >= low) by (nonlinear_arith)
            requires
                low >= 0,
                radix >= 2,
        ;
    } else {
        assert(s.take(k) =~= s);
    }
}

/// The number that a string of digits writes is not negative.
proof fn lemma_digits_value_nonnegative(s: Seq<char>, radix: int)
    requires
        radix >= 2,
    ensures
        0 <= digits_value(s, radix),
    decreases s.len(),
{
    if s.len() > 0 {
        lemma_digits_value_nonnegative(s.drop_last(), radix);
        let low = digits_value(s.drop_last(), radix);
        assert(low * radix >= 0) by (nonlinear_arith)
            requires
                low >= 0,
                radix >= 2,
        ;
    }
}

/// Reads the characters of `line` from `from` up to `to` as a signed number
/// in the given radix.
pub fn parse_number(line: &[char], from: usize, to: usize, radix: u32) -> (r: Option<i32>)
    requires
        from <= to <= line@.len(),
        2 <= radix <= 36,
    ensures
        r == parse_signed(line@.subrange(from as int, to as int), radix as int),
{
    let ghost s = line@.subrange(from as int, to as int);
    if from == to {
        return None;
    }
    let negative: bool = line[from] == '-';
    let first: usize = if negative || line[from] == '+' {
        from + 1
    } else {
        from
    };
    let ghost body = line@.subrange(first as int, to as int);
    if first == to {
        return None;
    }
    let mut total: i64 = 0;
    let mut k: usize = first;
    while k < to
        invariant
            first <= k <= to <= line@.len(),
            2 <= radix <= 36,
            s == line@.subrange(from as int, to as int),
            s.len() > 0,
            negative == (s[0] == '-'),
            body == line@.subrange(first as int, to as int),
            body == if s[0] == '-' || s[0] == '+' {
                s.skip(1)
            } else {
                s
            },
            all_digits(body.take(k - first), radix as int),
            total == digits_value(body.take(k - first), radix as int),
            0 <= total <= 0x8000_0000,
        decreases to - k,
    {
        let ghost done = body.take(k - first);
        let ghost next = body.take(k - first + 1);
        assert(next.drop_last() =~= done);
        let d: u32 = match digit_value_of(line[k]) {
            Some(d) => d,
            None => {
                assert(!is_digit(body[k - first], radix as int));
                return None;
            },
        };
        if d >= radix {
            return None;
        }
        assert(total * radix + d <= 0x8000_0000 * 36 + 36) by (nonlinear_arith)
            requires
                0 <= total <= 0x8000_0000,
                2 <= radix <= 36,
                d < 36,
        ;
        total = total * (radix as i64) + (d as i64);
        if total > 0x8000_0000 {
            proof {
                lemma_digits_value_grows(body, k - first + 1, radix as int);
            }
            return None;
        }
        assert(all_digits(next, radix as int));
        k += 1;
    }
    assert(body.take(to - first) =~= body);
    if negative {
        let value: i64 = -total;
        Some(value as i32)
    } else if total > 0x7FFF_FFFF {
        None
    } else {
        Some(total as i32)
    }
}

/// Reads a line of input as a number.
pub fn parse_input(line: &[char]) -> (value: i32)
    ensures
        value == parse_line(line@),
{
    let (start, end) = trim_bounds(line);
    let ghost t = trim(line@);
    let radix: u32 = if end - start >= 2 && line[start] == '0' {
        let mark: char = line[start + 1];
        if mark == 'x' || mark == 'X' {
            16
        } else if mark == 'b' || mark == 'B' {
            2
        } else {
            10
        }
    } else {
        10
    };
    let from: usize = if radix == 10 {
        start
    } else {
        start + 2
    };
    assert(radix != 10 ==> line@.subrange(from as int, end as int) =~= t.skip(2));
    match parse_number(line, from, end, radix) {
        Some(v) => v,
        None => 0,
    }
}

} // verus!
