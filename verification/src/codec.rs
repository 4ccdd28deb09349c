//! Codecs for NMEA's coordinate, time and date field encodings.

use crate::strutil::{
    spec_uint_str, spec_uint_str_pad, u64_to_string, u64_to_string_pad,
};
use vstd::prelude::*;
use vstd::string::StrSliceExecFns;
use vstd::string::StringExecFns;

verus! {

/// Ten to the power `e`.
pub open spec fn pow10(e: nat) -> nat
    decreases e,
{
    if e == 0 {
        1
    } else {
        10 * pow10((e - 1) as nat)
    }
}

pub proof fn lemma_pow10_pos(e: nat)
    ensures
        pow10(e) >= 1,
    decreases e,
{
    if e > 0 {
        lemma_pow10_pos((e - 1) as nat);
    }
}

pub proof fn lemma_pow10_mono(a: nat, b: nat)
    requires
        a <= b,
    ensures
        pow10(a) <= pow10(b),
    decreases b,
{
    if a < b {
        lemma_pow10_mono(a, (b - 1) as nat);
        lemma_pow10_pos((b - 1) as nat);
    }
}

pub proof fn lemma_pow10_15()
    ensures
        pow10(15) == 1000000000000000,
{
    reveal_with_fuel(pow10, 16);
}

/// A character is an ASCII decimal digit.
pub open spec fn is_digit_char(c: char) -> bool {
    48 <= c as int && c as int <= 57
}

/// Numeric value of an ASCII decimal digit.
pub open spec fn digit_val(c: char) -> int {
    c as int - 48
}

/// Both characters of the two-character group starting at `i` are digits.
pub open spec fn group_ok(s: Seq<char>, i: int) -> bool
    recommends
        0 <= i && i + 2 <= s.len(),
{
    is_digit_char(s[i]) && is_digit_char(s[i + 1])
}

/// Value of the two-digit group starting at `i`.
pub open spec fn group_val(s: Seq<char>, i: int) -> int
    recommends
        0 <= i && i + 2 <= s.len(),
{
    digit_val(s[i]) * 10 + digit_val(s[i + 1])
}

/// UTC time decode on HHMMSS-prefixed strings: the three leading two-digit
/// groups. Everything collapses to (0, 0, 0) when the string is shorter
/// than six characters, any group is not all digits, or a component is out
/// of range.
pub open spec fn spec_parse_utc_time(s: Seq<char>) -> (int, int, int) {
    if s.len() < 6 {
        (0, 0, 0)
    } else if !(group_ok(s, 0) && group_ok(s, 2) && group_ok(s, 4)) {
        (0, 0, 0)
    } else {
        let h: int = group_val(s, 0);
        let m: int = group_val(s, 2);
        let sec: int = group_val(s, 4);
        if h > 23 || m > 59 || sec > 59 {
            (0, 0, 0)
        } else {
            (h, m, sec)
        }
    }
}

/// Date decode on DDMMYY strings: day, month and year two-digit groups.
/// Everything collapses to (0, 0, 0) when the string is not exactly six
/// characters, any group is not all digits, or day or month is out of
/// range.
pub open spec fn spec_parse_date(s: Seq<char>) -> (int, int, int) {
    if s.len() != 6 {
        (0, 0, 0)
    } else if !(group_ok(s, 0) && group_ok(s, 2) && group_ok(s, 4)) {
        (0, 0, 0)
    } else {
        let d: int = group_val(s, 0);
        let m: int = group_val(s, 2);
        let y: int = group_val(s, 4);
        if d == 0 || d > 31 || m == 0 || m > 12 {
            (0, 0, 0)
        } else {
            (d, m, y)
        }
    }
}

/// How often `c` occurs in `s`.
pub open spec fn count_char_seq(s: Seq<char>, c: char) -> nat
    decreases s.len(),
{
    if s.len() == 0 {
        0
    } else {
        count_char_seq(s.drop_last(), c) + if s.last() == c {
            1 as nat
        } else {
            0 as nat
        }
    }
}

/// `s` with every occurrence of `c` removed.
pub open spec fn strip_char(s: Seq<char>, c: char) -> Seq<char>
    decreases s.len(),
{
    if s.len() == 0 {
        Seq::empty()
    } else if s.last() == c {
        strip_char(s.drop_last(), c)
    } else {
        strip_char(s.drop_last(), c).push(s.last())
    }
}

/// Numeric value of a digit string, most significant digit first.
pub open spec fn digits_val_seq(s: Seq<char>) -> int
    decreases s.len(),
{
    if s.len() == 0 {
        0
    } else {
        digits_val_seq(s.drop_last()) * 10 + digit_val(s.last())
    }
}

/// Number of characters after the (single) dot of `s`; 0 when `s` has none.
pub open spec fn frac_len(s: Seq<char>) -> nat
    decreases s.len(),
{
    if s.len() == 0 {
        0
    } else if s.last() == '.' {
        0
    } else if count_char_seq(s.drop_last(), '.') >= 1 {
        frac_len(s.drop_last()) + 1
    } else {
        0
    }
}

/// Every character of `s` is a digit or the character `c`.
pub open spec fn all_digits_or(s: Seq<char>, c: char) -> bool {
    forall|i: int| 0 <= i < s.len() ==> is_digit_char(#[trigger] s[i]) || s[i] == c
}

pub proof fn lemma_count_char_concat(a: Seq<char>, b: Seq<char>, c: char)
    ensures
        count_char_seq(a + b, c) == count_char_seq(a, c) + count_char_seq(b, c),
    decreases b.len(),
{
    if b.len() == 0 {
        assert(a + b =~= a);
    } else {
        assert((a + b).drop_last() =~= a + b.drop_last());
        assert((a + b).last() == b.last());
        lemma_count_char_concat(a, b.drop_last(), c);
    }
}

pub proof fn lemma_strip_char_concat(a: Seq<char>, b: Seq<char>, c: char)
    ensures
        strip_char(a + b, c) == strip_char(a, c) + strip_char(b, c),
    decreases b.len(),
{
    if b.len() == 0 {
        assert(a + b =~= a);
        assert(strip_char(a, c) + strip_char(b, c) =~= strip_char(a, c));
    } else {
        assert((a + b).drop_last() =~= a + b.drop_last());
        lemma_strip_char_concat(a, b.drop_last(), c);
        if b.last() != c {
            assert(strip_char(a, c) + strip_char(b.drop_last(), c).push(b.last()) =~= (strip_char(
                a,
                c,
            ) + strip_char(b.drop_last(), c)).push(b.last()));
        }
    }
}

/// An exact decimal number: `mantissa / 10^scale`, negated when `neg`.
/// The canonical representation of the numeric fields this bridge reads:
/// small enough that its value and its rendering never lose a digit.
#[derive(Clone, Copy, PartialEq, Eq, Structural, Debug)]
pub struct Dec {
    pub neg: bool,
    pub mantissa: u64,
    pub scale: u32,
}

/// The decimal's digits and its fraction width stay small.
pub open spec fn dec_wf(d: Dec) -> bool {
    d.mantissa < pow10(15) && d.scale <= 15
}

/// Signed numerator of the decimal.
pub open spec fn dec_num(d: Dec) -> int {
    if d.neg {
        -(d.mantissa as int)
    } else {
        d.mantissa as int
    }
}

/// Positive denominator of the decimal.
pub open spec fn dec_den(d: Dec) -> int {
    pow10(d.scale as nat) as int
}

/// The decimal holding exactly zero.
pub open spec fn spec_dec_zero() -> Dec {
    Dec { neg: false, mantissa: 0, scale: 0 }
}

/// The exact zero decimal.
pub fn dec_zero() -> (d: Dec)
    ensures
        d == spec_dec_zero(),
        dec_wf(d),
{
    proof {
        lemma_pow10_15();
    }
    Dec { neg: false, mantissa: 0, scale: 0 }
}

/// The string after an optional leading minus sign.
pub open spec fn dec_body(s: Seq<char>) -> Seq<char> {
    if s.len() > 0 && s[0] == '-' {
        s.drop_first()
    } else {
        s
    }
}

/// A well-formed unsigned decimal body: digits with at most one dot among
/// them, at least one and at most fifteen digits in all.
pub open spec fn dec_body_ok(s: Seq<char>) -> bool {
    &&& all_digits_or(s, '.')
    &&& count_char_seq(s, '.') <= 1
    &&& 1 <= strip_char(s, '.').len() <= 15
}

/// Decimal decode: an optional minus sign, then digits with at most one
/// embedded dot. Anything else, or more than fifteen digits, fails.
pub open spec fn spec_parse_dec(s: Seq<char>) -> Option<Dec> {
    let neg = s.len() > 0 && s[0] == '-';
    let body = dec_body(s);
    if dec_body_ok(body) {
        Some(
            Dec {
                neg,
                mantissa: digits_val_seq(strip_char(body, '.')) as u64,
                scale: frac_len(body) as u32,
            },
        )
    } else {
        None
    }
}

/// Parses a decimal number string exactly.
pub fn parse_dec(s: &str) -> (r: Option<Dec>)
    ensures
        r == spec_parse_dec(s@),
        r matches Some(d) ==> dec_wf(d),
{
    let n: usize = s.unicode_len();
    let neg = n > 0 && s.get_char(0) == '-';
    let start: usize = if neg {
        1
    } else {
        0
    };
    let ghost body = dec_body(s@);
    proof {
        assert(body =~= s@.subrange(start as int, n as int));
    }
    let mut i: usize = start;
    let mut mantissa: u64 = 0;
    let mut digits: u32 = 0;
    let mut dots: u32 = 0;
    let mut scale: u32 = 0;
    while i < n
        invariant
            start <= i <= n,
            n == s@.len(),
            body == s@.subrange(start as int, n as int),
            body == dec_body(s@),
            neg == (s@.len() > 0 && s@[0] == '-'),
            all_digits_or(s@.subrange(start as int, i as int), '.'),
            dots as nat == count_char_seq(s@.subrange(start as int, i as int), '.'),
            dots <= 1,
            digits as nat == strip_char(s@.subrange(start as int, i as int), '.').len(),
            digits <= 15,
            mantissa as int == digits_val_seq(strip_char(s@.subrange(start as int, i as int), '.')),
            mantissa < pow10(digits as nat),
            scale as nat == frac_len(s@.subrange(start as int, i as int)),
            scale <= digits,
            dots == 0 ==> scale == 0,
        decreases n - i,
    {
        let ghost prefix = s@.subrange(start as int, i as int);
        let c = s.get_char(i);
        proof {
            assert(s@.subrange(start as int, i as int + 1) =~= prefix.push(c));
            assert(prefix.push(c).drop_last() =~= prefix);
            assert(body =~= s@.subrange(start as int, i as int + 1) + s@.subrange(
                i as int + 1,
                n as int,
            ));
        }
        let v: u32 = c as u32;
        if c == '.' {
            if dots >= 1 {
                proof {
                    lemma_count_char_concat(prefix.push(c), s@.subrange(i as int + 1, n as int), '.');
                }
                assert(count_char_seq(body, '.') >= 2);
                return None;
            }
            dots = 1;
        } else if 48 <= v && v <= 57 {
            if digits >= 15 {
                proof {
                    lemma_strip_char_concat(prefix.push(c), s@.subrange(i as int + 1, n as int), '.');
                }
                assert(strip_char(body, '.').len() >= 16);
                return None;
            }
            proof {
                lemma_pow10_mono(digits as nat + 1, 15);
                lemma_pow10_15();
                assert(strip_char(prefix, '.').push(c).drop_last() =~= strip_char(prefix, '.'));
            }
            mantissa = mantissa * 10 + ((v - 48) as u64);
            digits = digits + 1;
            if dots == 1 {
                scale = scale + 1;
            }
        } else {
            assert(!(is_digit_char(body[i - start]) || body[i - start] == '.'));
            return None;
        }
        i = i + 1;
    }
    proof {
        assert(s@.subrange(start as int, n as int) =~= body);
    }
    if digits == 0 {
        return None;
    }
    proof {
        lemma_pow10_mono(digits as nat, 15);
    }
    Some(Dec { neg, mantissa, scale })
}

/// Parses a decimal number, yielding exactly zero when the string is not a
/// well-formed decimal — the bridge's best-effort reading of numeric fields.
pub open spec fn spec_parse_dec_or_zero(s: Seq<char>) -> Dec {
    match spec_parse_dec(s) {
        Some(d) => d,
        None => spec_dec_zero(),
    }
}

/// Parses a decimal number string, zero when unparsable.
pub fn parse_dec_or_zero(s: &str) -> (d: Dec)
    ensures
        d == spec_parse_dec_or_zero(s@),
        dec_wf(d),
{
    match parse_dec(s) {
        Some(d) => d,
        None => dec_zero(),
    }
}

/// Drops trailing zero fraction digits: `(m, s)` with `s` fraction digits
/// becomes the shortest pair denoting the same value.
pub open spec fn trim_frac(m: nat, s: nat) -> (nat, nat)
    decreases s,
{
    if s == 0 || m % 10 != 0 {
        (m, s)
    } else {
        trim_frac(m / 10, (s - 1) as nat)
    }
}

/// Canonical rendering of a decimal: optional minus sign, integer digits
/// without leading zeros, and the fraction digits with trailing zeros
/// removed, dot and all when none remain.
pub open spec fn spec_dec_str(d: Dec) -> Seq<char> {
    let t = trim_frac(d.mantissa as nat, d.scale as nat);
    let sign: Seq<char> = if d.neg {
        seq!['-']
    } else {
        Seq::<char>::empty()
    };
    if t.1 == 0 {
        sign + spec_uint_str(t.0)
    } else {
        sign + spec_uint_str(t.0 / pow10(t.1)) + seq!['.'] + spec_uint_str_pad(
            t.0 % pow10(t.1),
            t.1,
        )
    }
}

/// Computes ten to the power `e`.
fn pow10_u64(e: u32) -> (r: u64)
    requires
        e <= 15,
    ensures
        r as nat == pow10(e as nat),
{
    let mut r: u64 = 1;
    let mut i: u32 = 0;
    while i < e
        invariant
            i <= e <= 15,
            r as nat == pow10(i as nat),
        decreases e - i,
    {
        proof {
            lemma_pow10_mono(i as nat + 1, 15);
            lemma_pow10_15();
        }
        r = r * 10;
        i = i + 1;
    }
    r
}

/// Renders a decimal canonically.
pub fn format_dec(d: &Dec) -> (r: String)
    requires
        dec_wf(*d),
    ensures
        r@ == spec_dec_str(*d),
{
    let mut m: u64 = d.mantissa;
    let mut sc: u32 = d.scale;
    while sc > 0 && m % 10 == 0
        invariant
            trim_frac(m as nat, sc as nat) == trim_frac(d.mantissa as nat, d.scale as nat),
            m <= d.mantissa,
            sc <= d.scale,
        decreases sc,
    {
        m = m / 10;
        sc = sc - 1;
    }
    let p: u64 = pow10_u64(sc);
    proof {
        lemma_pow10_pos(sc as nat);
    }
    let ip = u64_to_string(m / p);
    let mut r = if d.neg {
        proof {
            reveal_strlit("-");
        }
        let r0 = String::from_str("-");
        assert(r0@ =~= seq!['-']);
        r0
    } else {
        String::new()
    };
    r.append(ip.as_str());
    if sc > 0 {
        proof {
            reveal_strlit(".");
        }
        assert("."@ =~= seq!['.']);
        r.append(".");
        let fp = u64_to_string_pad(m % p, sc);
        r.append(fp.as_str());
        proof {
            assert(trim_frac(m as nat, sc as nat) == (m as nat, sc as nat));
            assert((m / p) as nat == (m as nat) / pow10(sc as nat));
            assert((m % p) as nat == (m as nat) % pow10(sc as nat));
            assert(ip@ == spec_uint_str((m as nat) / pow10(sc as nat)));
            assert(fp@ == spec_uint_str_pad((m as nat) % pow10(sc as nat), sc as nat));
            assert(r@ =~= (if d.neg {
                seq!['-']
            } else {
                Seq::<char>::empty()
            }) + ip@ + seq!['.'] + fp@);
            assert(spec_dec_str(*d) == (if d.neg {
                seq!['-']
            } else {
                Seq::<char>::empty()
            }) + ip@ + seq!['.'] + fp@);
        }
        assert(r@ == spec_dec_str(*d));
    } else {
        proof {
            assert(trim_frac(m as nat, sc as nat) == (m as nat, sc as nat));
            assert(pow10(0) == 1);
            assert(p == 1);
            assert(m / p == m) by (nonlinear_arith)
                requires
                    p == 1,
            ;
            assert(ip@ == spec_uint_str(m as nat));
            assert(r@ =~= (if d.neg {
                seq!['-']
            } else {
                Seq::<char>::empty()
            }) + ip@);
        }
        assert(r@ == spec_dec_str(*d));
    }
    r
}
/// Every character of `s` is a digit.
pub open spec fn all_digits(s: Seq<char>) -> bool {
    forall|i: int| 0 <= i < s.len() ==> is_digit_char(#[trigger] s[i])
}

/// Unsigned integer decode: the value of a plain digit string of at most
/// nineteen digits, and 0 for everything else — the bridge's best-effort
/// reading of integer fields.
pub open spec fn spec_parse_uint(s: Seq<char>) -> int {
    if 1 <= s.len() <= 19 && all_digits(s) {
        digits_val_seq(s)
    } else {
        0
    }
}

pub proof fn lemma_pow10_19()
    ensures
        pow10(19) == 10000000000000000000,
{
    reveal_with_fuel(pow10, 20);
}

/// Parses an unsigned integer field, zero when unparsable.
pub fn parse_uint_or_zero(s: &str) -> (r: u64)
    ensures
        r as int == spec_parse_uint(s@),
{
    let n: usize = s.unicode_len();
    if n == 0 || n > 19 {
        return 0;
    }
    let mut i: usize = 0;
    let mut value: u64 = 0;
    while i < n
        invariant
            i <= n,
            1 <= n <= 19,
            n == s@.len(),
            all_digits(s@.subrange(0, i as int)),
            value as int == digits_val_seq(s@.subrange(0, i as int)),
            value < pow10(i as nat),
        decreases n - i,
    {
        let ghost prefix = s@.subrange(0, i as int);
        let c = s.get_char(i);
        proof {
            assert(s@.subrange(0, i as int + 1) =~= prefix.push(c));
            assert(prefix.push(c).drop_last() =~= prefix);
        }
        let v: u32 = c as u32;
        if !(48 <= v && v <= 57) {
            assert(!is_digit_char(s@[i as int]));
            return 0;
        }
        proof {
            lemma_pow10_mono(i as nat + 1, 19);
            lemma_pow10_19();
        }
        value = value * 10 + ((v - 48) as u64);
        i = i + 1;
    }
    proof {
        assert(s@.subrange(0, n as int) =~= s@);
    }
    value
}

/// A decoded geographic coordinate: `deg + min / 60` degrees, negated when
/// `neg`. The parts stay exact; nothing is rounded.
#[derive(Clone, Copy, PartialEq, Eq, Structural, Debug)]
pub struct Coordinate {
    pub neg: bool,
    pub deg: Dec,
    pub min: Dec,
}

pub open spec fn coord_wf(c: Coordinate) -> bool {
    dec_wf(c.deg) && dec_wf(c.min)
}

/// Signed numerator of the coordinate's exact value in degrees, over
/// `coord_den`.
pub open spec fn coord_num(c: Coordinate) -> int {
    (if c.neg {
        -1
    } else {
        1
    }) * (dec_num(c.deg) * 60 * dec_den(c.min) + dec_num(c.min) * dec_den(c.deg))
}

/// Positive denominator of the coordinate's exact value in degrees.
pub open spec fn coord_den(c: Coordinate) -> int {
    60 * dec_den(c.deg) * dec_den(c.min)
}

/// The zero coordinate, the decode of every rejected input.
pub open spec fn spec_coord_zero() -> Coordinate {
    Coordinate { neg: false, deg: spec_dec_zero(), min: spec_dec_zero() }
}

/// The zero coordinate.
pub fn coord_zero() -> (c: Coordinate)
    ensures
        c == spec_coord_zero(),
        coord_wf(c),
{
    Coordinate { neg: false, deg: dec_zero(), min: dec_zero() }
}

/// The hemisphere field is one of the four letters.
pub open spec fn hemisphere_ok(dir: Seq<char>) -> bool {
    dir.len() == 1 && (dir[0] == 'N' || dir[0] == 'S' || dir[0] == 'E' || dir[0] == 'W')
}

/// The hemisphere letter negates the coordinate.
pub open spec fn hemisphere_neg(dir: Seq<char>) -> bool {
    dir.len() == 1 && (dir[0] == 'S' || dir[0] == 'W')
}

/// Coordinate decode: the value splits after `deg_len` characters into a
/// degree part and a minutes part, both exact decimals; the result is
/// degrees plus minutes over sixty, negated for the S and W hemispheres.
/// An empty value, a value no longer than the degree part, a hemisphere
/// other than the four letters, or an unparsable part yields zero.
pub open spec fn spec_parse_coordinate(value: Seq<char>, dir: Seq<char>, deg_len: int) -> Coordinate {
    if value.len() == 0 || dir.len() == 0 {
        spec_coord_zero()
    } else if value.len() <= deg_len {
        spec_coord_zero()
    } else if !hemisphere_ok(dir) {
        spec_coord_zero()
    } else {
        let dg = spec_parse_dec(value.subrange(0, deg_len));
        let mn = spec_parse_dec(value.subrange(deg_len, value.len() as int));
        if dg is Some && mn is Some {
            Coordinate { neg: hemisphere_neg(dir), deg: dg->Some_0, min: mn->Some_0 }
        } else {
            spec_coord_zero()
        }
    }
}

/// Decodes an NMEA coordinate field with a degree part of `degree_len`
/// characters; zero for every rejected input.
pub fn parse_coordinate(value: &str, direction: &str, degree_len: usize) -> (c: Coordinate)
    ensures
        c == spec_parse_coordinate(value@, direction@, degree_len as int),
        coord_wf(c),
{
    let vn: usize = value.unicode_len();
    let dn: usize = direction.unicode_len();
    if vn == 0 || dn == 0 {
        return coord_zero();
    }
    if vn <= degree_len {
        return coord_zero();
    }
    let dc = direction.get_char(0);
    if !(dn == 1 && (dc == 'N' || dc == 'S' || dc == 'E' || dc == 'W')) {
        return coord_zero();
    }
    let deg_str = value.substring_char(0, degree_len);
    let min_str = value.substring_char(degree_len, vn);
    match (parse_dec(deg_str), parse_dec(min_str)) {
        (Some(dg), Some(mn)) => Coordinate { neg: dc == 'S' || dc == 'W', deg: dg, min: mn },
        _ => coord_zero(),
    }
}

/// Decodes an NMEA latitude (two degree digits).
pub fn parse_latitude(value: &str, direction: &str) -> (c: Coordinate)
    ensures
        c == spec_parse_coordinate(value@, direction@, 2),
        coord_wf(c),
{
    parse_coordinate(value, direction, 2)
}

/// Decodes an NMEA longitude (three degree digits).
pub fn parse_longitude(value: &str, direction: &str) -> (c: Coordinate)
    ensures
        c == spec_parse_coordinate(value@, direction@, 3),
        coord_wf(c),
{
    parse_coordinate(value, direction, 3)
}

/// Coordinate decode is sign-correct: on the same digits, the S hemisphere
/// yields exactly the negation of the N hemisphere's value, and W of E's;
/// the rejected inputs of both sides agree, both yielding zero.
pub proof fn lemma_hemisphere_negates(
    value: Seq<char>,
    dir_pos: Seq<char>,
    dir_neg: Seq<char>,
    deg_len: int,
)
    requires
        (dir_pos == seq!['N'] && dir_neg == seq!['S']) || (dir_pos == seq!['E'] && dir_neg
            == seq!['W']),
    ensures
        coord_num(spec_parse_coordinate(value, dir_neg, deg_len)) == -coord_num(
            spec_parse_coordinate(value, dir_pos, deg_len),
        ),
        coord_den(spec_parse_coordinate(value, dir_neg, deg_len)) == coord_den(
            spec_parse_coordinate(value, dir_pos, deg_len),
        ),
{
    let cn = spec_parse_coordinate(value, dir_neg, deg_len);
    let cp = spec_parse_coordinate(value, dir_pos, deg_len);
    assert(hemisphere_ok(dir_neg) && hemisphere_ok(dir_pos));
    if value.len() == 0 || value.len() <= deg_len {
        assert(cn == spec_coord_zero() && cp == spec_coord_zero());
    } else {
        let dg = spec_parse_dec(value.subrange(0, deg_len));
        let mn = spec_parse_dec(value.subrange(deg_len, value.len() as int));
        if dg is Some && mn is Some {
            assert(cn.deg == cp.deg && cn.min == cp.min);
            assert(cn.neg && !cp.neg);
            let t: int = dec_num(cp.deg) * 60 * dec_den(cp.min) + dec_num(cp.min) * dec_den(cp.deg);
            assert(coord_num(cp) == 1 * t);
            assert(coord_num(cn) == -1 * t);
        } else {
            assert(cn == spec_coord_zero() && cp == spec_coord_zero());
        }
    }
}

/// Rejected coordinate inputs decode to zero: an empty value or a
/// hemisphere other than the four letters never yields a nonzero value.
pub proof fn lemma_rejected_coordinate_is_zero(value: Seq<char>, dir: Seq<char>, deg_len: int)
    requires
        value.len() == 0 || !hemisphere_ok(dir),
    ensures
        spec_parse_coordinate(value, dir, deg_len) == spec_coord_zero(),
        coord_num(spec_parse_coordinate(value, dir, deg_len)) == 0,
{
}

/// Reads the two-digit group of `s` starting at `i`; `None` when it is not
/// all digits.
fn read_group(s: &str, i: usize) -> (r: Option<u32>)
    requires
        i <= usize::MAX - 2,
        i + 2 <= s@.len(),
    ensures
        match r {
            Some(v) => group_ok(s@, i as int) && v as int == group_val(s@, i as int) && v <= 99,
            None => !group_ok(s@, i as int),
        },
{
    let c0 = s.get_char(i);
    let c1 = s.get_char(i + 1);
    let v0: u32 = c0 as u32;
    let v1: u32 = c1 as u32;
    if 48 <= v0 && v0 <= 57 && 48 <= v1 && v1 <= 57 {
        Some((v0 - 48) * 10 + (v1 - 48))
    } else {
        None
    }
}

/// Decodes a UTC time of the form HHMMSS (further characters are ignored)
/// into hour, minute and second; returns (0, 0, 0) for strings shorter than
/// six characters, with a group that is not all digits, or with a component
/// out of range.
pub fn parse_utc_time(utc_time: &str) -> (r: (u32, u32, u32))
    ensures
        (r.0 as int, r.1 as int, r.2 as int) == spec_parse_utc_time(utc_time@),
        r.0 <= 23 && r.1 <= 59 && r.2 <= 59,
{
    if utc_time.unicode_len() < 6 {
        return (0, 0, 0);
    }
    match (read_group(utc_time, 0), read_group(utc_time, 2), read_group(utc_time, 4)) {
        (Some(hour), Some(minute), Some(second)) => {
            if hour > 23 || minute > 59 || second > 59 {
                (0, 0, 0)
            } else {
                (hour, minute, second)
            }
        },
        _ => (0, 0, 0),
    }
}

/// Decodes a date of the form DDMMYY into day, month and two-digit year;
/// returns (0, 0, 0) for strings that are not exactly six characters, with
/// a group that is not all digits, or whose day or month is out of range.
/// The year passes through unmodified.
pub fn parse_date(date: &str) -> (r: (u32, u32, u32))
    ensures
        (r.0 as int, r.1 as int, r.2 as int) == spec_parse_date(date@),
        r.0 <= 31 && r.1 <= 12 && r.2 <= 99,
{
    if date.unicode_len() != 6 {
        return (0, 0, 0);
    }
    match (read_group(date, 0), read_group(date, 2), read_group(date, 4)) {
        (Some(day), Some(month), Some(year)) => {
            if day == 0 || day > 31 || month == 0 || month > 12 {
                (0, 0, 0)
            } else {
                (day, month, year)
            }
        },
        _ => (0, 0, 0),
    }
}

} // verus!
