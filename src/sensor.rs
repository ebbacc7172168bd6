use vstd::prelude::*;

use crate::text::{num_text, push_digits};

verus! {

/// Location of the temperature value, under the device's directory.
pub const TEMP_PATH: &'static str = "iio:device0/in_temp_input";

/// Location of the humidity value, under the device's directory.
pub const HUMI_PATH: &'static str = "iio:device0/in_humidityrelative_input";

/// Location of the pressure value, under the device's directory.
pub const PRES_PATH: &'static str = "iio:device0/in_pressure_input";

/// Directory under which each device of the bus has its own.
pub const DEVICES_DIR: &'static str = "/sys/bus/i2c/devices/";

/// Byte up to which a sensor value is read.
pub const DELIMITER: u8 = 16;

/// Limit of an `i32` reading in magnitude: `2^31` below zero, `2^31 - 1` above.
const I32_NEG_LIMIT: u64 = 0x8000_0000;
const I32_POS_LIMIT: u64 = 0x7fff_ffff;
const I64_NEG_LIMIT: u64 = 0x8000_0000_0000_0000;
const I64_POS_LIMIT: u64 = 0x7fff_ffff_ffff_ffff;

/// Why a reading failed.
#[derive(Clone, Copy, Debug, PartialEq, Eq, Structural)]
pub enum ReadError {
    /// The value's location could not be read.
    Io,
    /// The content is not text of a number.
    InvalidData,
}

/// A reading, `mantissa * 10^exponent` in the public unit.
#[derive(Clone, Copy, Debug, PartialEq, Eq, Structural)]
pub struct Reading {
    pub mantissa: i64,
    pub exponent: i64,
}

/// A one-byte whitespace character, as `str::trim` strips it.
pub open spec fn is_space(b: u8) -> bool {
    b == 9 || b == 10 || b == 11 || b == 12 || b == 13 || b == 32
}

pub open spec fn is_digit(b: u8) -> bool {
    48 <= b <= 57
}

pub open spec fn all_digits(s: Seq<u8>) -> bool {
    forall|i: int| 0 <= i < s.len() ==> is_digit(#[trigger] s[i])
}

/// Index of the first `b` in `s`, or its length where there is none.
pub open spec fn index_of(s: Seq<u8>, b: u8) -> nat
    decreases s.len(),
{
    if s.len() == 0 || s[0] == b {
        0
    } else {
        1 + index_of(s.drop_first(), b)
    }
}

/// A three-byte UTF-8 sequence of a whitespace character.
pub open spec fn is_space3(a: u8, b: u8, c: u8) -> bool {
    ||| a == 0xe1 && b == 0x9a && c == 0x80
    ||| a == 0xe2 && b == 0x80 && ((0x80 <= c <= 0x8a) || c == 0xa8 || c == 0xa9 || c == 0xaf)
    ||| a == 0xe2 && b == 0x81 && c == 0x9f
    ||| a == 0xe3 && b == 0x80 && c == 0x80
}

/// A two-byte UTF-8 sequence of a whitespace character.
pub open spec fn is_space2(a: u8, b: u8) -> bool {
    a == 0xc2 && (b == 0x85 || b == 0xa0)
}

/// Length in bytes of the whitespace character, as `char::is_whitespace` has it, that `s`
/// starts with, or zero.
pub open spec fn space_prefix(s: Seq<u8>) -> nat {
    if s.len() >= 1 && is_space(s[0]) {
        1
    } else if s.len() >= 2 && is_space2(s[0], s[1]) {
        2
    } else if s.len() >= 3 && is_space3(s[0], s[1], s[2]) {
        3
    } else {
        0
    }
}

/// Length in bytes of the whitespace character that `s` ends with, or zero.
pub open spec fn space_suffix(s: Seq<u8>) -> nat {
    let n = s.len() as int;
    if n >= 1 && is_space(s[n - 1]) {
        1
    } else if n >= 2 && is_space2(s[n - 2], s[n - 1]) {
        2
    } else if n >= 3 && is_space3(s[n - 3], s[n - 2], s[n - 1]) {
        3
    } else {
        0
    }
}

/// Number of bytes of leading whitespace.
pub open spec fn leading_spaces(s: Seq<u8>) -> nat
    decreases s.len(),
{
    let k = space_prefix(s);
    if k == 0 {
        0
    } else {
        k + leading_spaces(s.skip(k as int))
    }
}

/// Number of bytes of trailing whitespace.
pub open spec fn trailing_spaces(s: Seq<u8>) -> nat
    decreases s.len(),
{
    let k = space_suffix(s);
    if k == 0 {
        0
    } else {
        k + trailing_spaces(s.take(s.len() - k))
    }
}

/// The text of a value: what comes before the delimiter, without surrounding whitespace.
pub open spec fn value_text(content: Seq<u8>) -> Seq<u8> {
    let f = content.take(index_of(content, DELIMITER) as int);
    let a = f.skip(leading_spaces(f) as int);
    a.take(a.len() - trailing_spaces(a))
}

/// Value of a string of decimal digits.
pub open spec fn digits_value(s: Seq<u8>) -> nat
    decreases s.len(),
{
    if s.len() == 0 {
        0
    } else {
        digits_value(s.drop_last()) * 10 + (s.last() - 48) as nat
    }
}

pub open spec fn is_sign(b: u8) -> bool {
    b == 43 || b == 45
}

/// The text without its sign.
pub open spec fn unsigned_part(t: Seq<u8>) -> Seq<u8> {
    if t.len() > 0 && is_sign(t[0]) {
        t.drop_first()
    } else {
        t
    }
}

pub open spec fn is_negative(t: Seq<u8>) -> bool {
    t.len() > 0 && t[0] == 45
}

pub open spec fn signed(t: Seq<u8>, magnitude: nat) -> int {
    if is_negative(t) {
        -magnitude
    } else {
        magnitude as int
    }
}

/// Integer text: an optional sign and one or more digits.
pub open spec fn integer_of(t: Seq<u8>) -> Option<int> {
    let u = unsigned_part(t);
    if u.len() > 0 && all_digits(u) {
        Some(signed(t, digits_value(u)))
    } else {
        None
    }
}

/// Digits with an optional point, at least one digit in all. Gives the digits without the
/// point, and how many follow it.
pub open spec fn point_digits(m: Seq<u8>) -> Option<(Seq<u8>, nat)> {
    let k = index_of(m, 46);
    let whole = m.take(k as int);
    let frac = if k < m.len() {
        m.skip(k as int + 1)
    } else {
        Seq::empty()
    };
    if all_digits(whole) && all_digits(frac) && whole.len() + frac.len() > 0 {
        Some((whole + frac, frac.len()))
    } else {
        None
    }
}

pub open spec fn is_exp_mark(b: u8) -> bool {
    b == 101 || b == 69
}

/// Index of the first `e` or `E` in `s`, or its length where there is none.
pub open spec fn exp_index(s: Seq<u8>) -> nat
    decreases s.len(),
{
    if s.len() == 0 || is_exp_mark(s[0]) {
        0
    } else {
        1 + exp_index(s.drop_first())
    }
}

/// Text of a finite number: an optional sign, digits with an optional point, and optionally
/// `e` or `E` followed by integer text. Gives the digits without the point, how many follow
/// the point, and the exponent.
pub open spec fn number_parts(t: Seq<u8>) -> Option<(Seq<u8>, nat, int)> {
    let u = unsigned_part(t);
    let x = exp_index(u);
    let exp = if x < u.len() {
        integer_of(u.skip(x as int + 1))
    } else {
        Some(0int)
    };
    match (point_digits(u.take(x as int)), exp) {
        (Some((d, scale)), Some(e)) => Some((d, scale, e)),
        _ => None,
    }
}

/// Bound on the magnitude of an exponent, beyond which the exponent is out of a reading's
/// range whatever the number of digits.
pub const EXP_CAP: u128 = 0x4_0000_0000_0000_0000;

/// The exponent `e`, held within `EXP_CAP` in magnitude.
pub open spec fn clamp_exp(e: int) -> int {
    if e > EXP_CAP {
        EXP_CAP as int
    } else if e < -EXP_CAP {
        -EXP_CAP
    } else {
        e
    }
}

/// Largest magnitude that a reading of the sign of `t` can hold.
pub open spec fn magnitude_limit(t: Seq<u8>) -> nat {
    if is_negative(t) {
        0x8000_0000_0000_0000
    } else {
        0x7fff_ffff_ffff_ffff
    }
}

/// How many leading digits of `d` keep their value within `limit`, counting on from `i`.
pub open spec fn fit_from(d: Seq<u8>, limit: nat, i: nat) -> nat
    decreases d.len() - i,
{
    if i >= d.len() || digits_value(d.take(i as int + 1)) > limit {
        i
    } else {
        fit_from(d, limit, i + 1)
    }
}

pub open spec fn fits_i32(v: int) -> bool {
    i32::MIN <= v <= i32::MAX
}

pub open spec fn fits_i64(v: int) -> bool {
    i64::MIN <= v <= i64::MAX
}

/// A value read as an `i32` count of thousandths.
pub open spec fn thousandths_of(content: Seq<u8>) -> Result<Reading, ReadError> {
    match integer_of(value_text(content)) {
        Some(n) if fits_i32(n) => Ok(Reading { mantissa: n as i64, exponent: -3i64 }),
        _ => Err(ReadError::InvalidData),
    }
}

/// The reading of number text `t` of kilopascals, in hectopascals: its leading digits, as
/// many as a reading's mantissa holds, with the exponent raised by those left out. As a
/// float parser saturates, zero digits, or an exponent below what a reading holds, give zero;
/// non-zero digits with an exponent above it are no finite number.
pub open spec fn hectopascals_of_text(t: Seq<u8>) -> Result<Reading, ReadError> {
    match number_parts(t) {
        Some((d, scale, e)) => {
            let k = fit_from(d, magnitude_limit(t), 0);
            let exponent = e - scale + 1 + (d.len() - k);
            let m = digits_value(d.take(k as int));
            if fits_i64(exponent) {
                Ok(Reading { mantissa: signed(t, m) as i64, exponent: exponent as i64 })
            } else if m == 0 || exponent < i64::MIN {
                Ok(Reading { mantissa: 0, exponent: 0 })
            } else {
                Err(ReadError::InvalidData)
            }
        },
        None => Err(ReadError::InvalidData),
    }
}

/// A value read as kilopascals, given in hectopascals.
pub open spec fn hectopascals_of(content: Seq<u8>) -> Result<Reading, ReadError> {
    hectopascals_of_text(value_text(content))
}

proof fn lemma_index_of(s: Seq<u8>, b: u8, k: int)
    requires
        0 <= k <= s.len(),
        forall|j: int| 0 <= j < k ==> s[j] != b,
        k == s.len() || s[k] == b,
    ensures
        index_of(s, b) == k,
    decreases k,
{
    if k > 0 {
        lemma_index_of(s.drop_first(), b, k - 1);
    }
}

proof fn lemma_digits_prefix(s: Seq<u8>, i: int)
    requires
        0 <= i < s.len(),
    ensures
        digits_value(s.take(i + 1)) == digits_value(s.take(i)) * 10 + (s[i] - 48) as nat,
{
    assert(s.take(i + 1).drop_last() =~= s.take(i));
}

proof fn lemma_digits_grow(s: Seq<u8>, i: int, j: int)
    requires
        0 <= i <= j <= s.len(),
        all_digits(s),
    ensures
        digits_value(s.take(i)) <= digits_value(s.take(j)),
    decreases j - i,
{
    if i < j {
        lemma_digits_grow(s, i, j - 1);
        lemma_digits_prefix(s, j - 1);
    }
}

/// Index of the first `b` in `s[from..to]`, as an index of `s`.
fn find_byte(s: &[u8], from: usize, to: usize, b: u8) -> (r: usize)
    requires
        from <= to <= s@.len(),
    ensures
        r == from + index_of(s@.subrange(from as int, to as int), b),
        r <= to,
{
    let mut i = from;
    while i < to && s[i] != b
        invariant
            from <= i <= to <= s@.len(),
            forall|j: int| from <= j < i ==> s@[j] != b,
        decreases to - i,
    {
        i = i + 1;
    }
    proof {
        lemma_index_of(s@.subrange(from as int, to as int), b, i - from);
    }
    i
}

proof fn lemma_exp_index(s: Seq<u8>, k: int)
    requires
        0 <= k <= s.len(),
        forall|j: int| 0 <= j < k ==> !is_exp_mark(s[j]),
        k == s.len() || is_exp_mark(s[k]),
    ensures
        exp_index(s) == k,
    decreases k,
{
    if k > 0 {
        lemma_exp_index(s.drop_first(), k - 1);
    }
}

/// Index of the first `e` or `E` in `s[from..to]`, as an index of `s`.
fn find_exp_mark(s: &[u8], from: usize, to: usize) -> (r: usize)
    requires
        from <= to <= s@.len(),
    ensures
        r == from + exp_index(s@.subrange(from as int, to as int)),
        r <= to,
{
    let mut i = from;
    while i < to && s[i] != 101 && s[i] != 69
        invariant
            from <= i <= to <= s@.len(),
            forall|j: int| from <= j < i ==> !is_exp_mark(s@[j]),
        decreases to - i,
    {
        i = i + 1;
    }
    proof {
        lemma_exp_index(s@.subrange(from as int, to as int), i - from);
    }
    i
}

/// Value of the longest prefix of the digits `s` whose value is at most `limit`, and its
/// length.
fn digits_fit(s: &[u8], limit: u64) -> (r: (u64, usize))
    requires
        all_digits(s@),
    ensures
        r.1 == fit_from(s@, limit as nat, 0),
        r.1 <= s@.len(),
        r.0 == digits_value(s@.take(r.1 as int)),
        r.0 <= limit,
{
    let mut acc: u64 = 0;
    let mut i: usize = 0;
    while i < s.len()
        invariant
            i <= s@.len(),
            all_digits(s@),
            acc == digits_value(s@.take(i as int)),
            acc <= limit,
            fit_from(s@, limit as nat, 0) == fit_from(s@, limit as nat, i as nat),
        decreases s@.len() - i,
    {
        let d = (s[i] - 48) as u64;
        proof {
            lemma_digits_prefix(s@, i as int);
        }
        if d > limit || acc > (limit - d) / 10 {
            return (acc, i);
        }
        acc = acc * 10 + d;
        i = i + 1;
    }
    (acc, i)
}

/// Value of the digits `s`, where it is at most `limit`.
fn digits_up_to(s: &[u8], limit: u64) -> (r: Option<u64>)
    requires
        all_digits(s@),
    ensures
        r == (if digits_value(s@) <= limit {
            Some(digits_value(s@) as u64)
        } else {
            None::<u64>
        }),
{
    let mut acc: u64 = 0;
    let mut i: usize = 0;
    while i < s.len()
        invariant
            i <= s@.len(),
            all_digits(s@),
            acc == digits_value(s@.take(i as int)),
            acc <= limit,
        decreases s@.len() - i,
    {
        let d = (s[i] - 48) as u64;
        proof {
            lemma_digits_prefix(s@, i as int);
        }
        if d > limit || acc > (limit - d) / 10 {
            proof {
                lemma_digits_grow(s@, i + 1, s@.len() as int);
                assert(s@.take(s@.len() as int) =~= s@);
            }
            return None;
        }
        acc = acc * 10 + d;
        i = i + 1;
    }
    assert(s@.take(s@.len() as int) =~= s@);
    Some(acc)
}

/// Length of the whitespace character that `s[from..to]` starts with, or zero.
fn space_len_at(s: &[u8], from: usize, to: usize) -> (r: usize)
    requires
        from <= to <= s@.len(),
    ensures
        r == space_prefix(s@.subrange(from as int, to as int)),
{
    let n = to - from;
    if n >= 1 && (s[from] == 9 || s[from] == 10 || s[from] == 11 || s[from] == 12 || s[from]
        == 13 || s[from] == 32) {
        1
    } else if n >= 2 && s[from] == 0xc2 && (s[from + 1] == 0x85 || s[from + 1] == 0xa0) {
        2
    } else if n >= 3 && space3(s[from], s[from + 1], s[from + 2]) {
        3
    } else {
        0
    }
}

/// Length of the whitespace character that `s[from..to]` ends with, or zero.
fn space_len_before(s: &[u8], from: usize, to: usize) -> (r: usize)
    requires
        from <= to <= s@.len(),
    ensures
        r == space_suffix(s@.subrange(from as int, to as int)),
{
    let n = to - from;
    if n >= 1 && (s[to - 1] == 9 || s[to - 1] == 10 || s[to - 1] == 11 || s[to - 1] == 12 || s[to
        - 1] == 13 || s[to - 1] == 32) {
        1
    } else if n >= 2 && s[to - 2] == 0xc2 && (s[to - 1] == 0x85 || s[to - 1] == 0xa0) {
        2
    } else if n >= 3 && space3(s[to - 3], s[to - 2], s[to - 1]) {
        3
    } else {
        0
    }
}

fn space3(a: u8, b: u8, c: u8) -> (r: bool)
    ensures
        r == is_space3(a, b, c),
{
    (a == 0xe1 && b == 0x9a && c == 0x80) || (a == 0xe2 && b == 0x80 && ((0x80 <= c && c <= 0x8a)
        || c == 0xa8 || c == 0xa9 || c == 0xaf)) || (a == 0xe2 && b == 0x81 && c == 0x9f) || (a
        == 0xe3 && b == 0x80 && c == 0x80)
}

/// Bounds of the value text within `content`.
fn text_bounds(content: &[u8]) -> (r: (usize, usize))
    ensures
        r.0 <= r.1 <= content@.len(),
        content@.subrange(r.0 as int, r.1 as int) == value_text(content@),
{
    let end = find_byte(content, 0, content.len(), DELIMITER);
    assert(content@.subrange(0, content@.len() as int) =~= content@);
    let ghost f = content@.take(end as int);
    assert(f.skip(0) =~= f);
    let mut lo: usize = 0;
    loop
        invariant
            lo <= end <= content@.len(),
            f == content@.take(end as int),
            leading_spaces(f) == lo + leading_spaces(f.skip(lo as int)),
        ensures
            lo <= end,
            leading_spaces(f) == lo,
        decreases end - lo,
    {
        let k = space_len_at(content, lo, end);
        assert(f.skip(lo as int) =~= content@.subrange(lo as int, end as int));
        if k == 0 {
            break;
        }
        assert(f.skip(lo as int).skip(k as int) =~= f.skip(lo + k));
        lo = lo + k;
    }
    let ghost a = f.skip(lo as int);
    assert(a =~= content@.subrange(lo as int, end as int));
    let mut hi: usize = end;
    loop
        invariant
            lo <= hi <= end <= content@.len(),
            a == content@.subrange(lo as int, end as int),
            trailing_spaces(a) == (end - hi) + trailing_spaces(
                content@.subrange(lo as int, hi as int),
            ),
        ensures
            lo <= hi <= end,
            trailing_spaces(a) == end - hi,
        decreases hi - lo,
    {
        let k = space_len_before(content, lo, hi);
        if k == 0 {
            break;
        }
        assert(content@.subrange(lo as int, hi as int).take(hi - lo - k) =~= content@.subrange(
            lo as int,
            hi - k,
        ));
        hi = hi - k;
    }
    assert(a.take(a.len() - trailing_spaces(a)) =~= content@.subrange(lo as int, hi as int));
    (lo, hi)
}

/// Magnitude limit of a signed value of the text `t`.
fn limit_for(t: &[u8], neg: u64, pos: u64) -> (r: u64)
    ensures
        r == (if is_negative(t@) {
            neg
        } else {
            pos
        }),
{
    if t.len() > 0 && t[0] == 45 {
        neg
    } else {
        pos
    }
}

/// Applies the sign of the text `t` to `m <= 2^63`, where the result fits.
fn apply_sign(t: &[u8], m: u64) -> (r: i64)
    requires
        fits_i64(signed(t@, m as nat)),
    ensures
        r == signed(t@, m as nat),
{
    if t.len() > 0 && t[0] == 45 {
        if m == I64_NEG_LIMIT {
            i64::MIN
        } else {
            -(m as i64)
        }
    } else {
        m as i64
    }
}

/// Start of the digits of `t`, past its sign.
fn sign_len(t: &[u8]) -> (r: usize)
    ensures
        t@.skip(r as int) == unsigned_part(t@),
        r <= t@.len(),
{
    if t.len() > 0 && (t[0] == 43 || t[0] == 45) {
        assert(t@.skip(1) =~= t@.drop_first());
        1
    } else {
        assert(t@.skip(0) =~= t@);
        0
    }
}

/// Whether `s[from..to]` is all digits.
fn digits_between(s: &[u8], from: usize, to: usize) -> (r: bool)
    requires
        from <= to <= s@.len(),
    ensures
        r == all_digits(s@.subrange(from as int, to as int)),
{
    let mut i = from;
    while i < to
        invariant
            from <= i <= to <= s@.len(),
            forall|j: int| from <= j < i ==> is_digit(s@[j]),
        decreases to - i,
    {
        if s[i] < 48 || s[i] > 57 {
            assert(!is_digit(s@.subrange(from as int, to as int)[i - from]));
            return false;
        }
        i = i + 1;
    }
    assert forall|j: int| 0 <= j < to - from implies is_digit(
        #[trigger] s@.subrange(from as int, to as int)[j],
    ) by {
        assert(s@.subrange(from as int, to as int)[j] == s@[from + j]);
    }
    true
}

/// Copies `s[from..to]`.
fn copy_range(s: &[u8], from: usize, to: usize, out: &mut Vec<u8>)
    requires
        from <= to <= s@.len(),
    ensures
        final(out)@ == old(out)@ + s@.subrange(from as int, to as int),
{
    let mut i = from;
    while i < to
        invariant
            from <= i <= to <= s@.len(),
            out@ == old(out)@ + s@.subrange(from as int, i as int),
        decreases to - i,
    {
        out.push(s[i]);
        i = i + 1;
        assert(s@.subrange(from as int, i as int) =~= s@.subrange(from as int, i - 1).push(
            s@[i - 1],
        ));
    }
}

/// Reads a count of thousandths from a value's content, as temperature and humidity come.
pub fn parse_thousandths(content: &[u8]) -> (r: Result<Reading, ReadError>)
    ensures
        r == thousandths_of(content@),
{
    let (lo, hi) = text_bounds(content);
    let t = slice_range(content, lo, hi);
    let start = sign_len(t);
    let ghost u = unsigned_part(t@);
    assert(u =~= t@.subrange(start as int, t@.len() as int));
    if start == t.len() || !digits_between(t, start, t.len()) {
        return Err(ReadError::InvalidData);
    }
    let digs = slice_range(t, start, t.len());
    let limit = limit_for(t, I32_NEG_LIMIT, I32_POS_LIMIT);
    match digits_up_to(digs, limit) {
        None => Err(ReadError::InvalidData),
        Some(m) => {
            let v = apply_sign(t, m);
            Ok(Reading { mantissa: v, exponent: -3 })
        },
    }
}

/// The digits of `t[from..to]` without its point, and how many follow the point.
fn split_point(t: &[u8], from: usize, to: usize) -> (r: Option<(Vec<u8>, usize)>)
    requires
        from <= to <= t@.len(),
    ensures
        match point_digits(t@.subrange(from as int, to as int)) {
            Some((d, scale)) => match r {
                Some((v, n)) => v@ == d && n == scale,
                None => false,
            },
            None => r is None,
        },
{
    let ghost m = t@.subrange(from as int, to as int);
    let dot = find_byte(t, from, to, 46);
    let frac_start = if dot < to {
        dot + 1
    } else {
        dot
    };
    let ghost whole = m.take(index_of(m, 46) as int);
    let ghost frac = if index_of(m, 46) < m.len() {
        m.skip(index_of(m, 46) as int + 1)
    } else {
        Seq::empty()
    };
    assert(whole =~= t@.subrange(from as int, dot as int));
    assert(frac =~= t@.subrange(frac_start as int, to as int));
    if !digits_between(t, from, dot) || !digits_between(t, frac_start, to) || (dot - from) + (to
        - frac_start) == 0 {
        return None;
    }
    let mut digs: Vec<u8> = Vec::new();
    copy_range(t, from, dot, &mut digs);
    copy_range(t, frac_start, to, &mut digs);
    assert(digs@ =~= whole + frac);
    Some((digs, to - frac_start))
}

/// Value of the digits `s`, where it is at most `limit`.
fn wide_digits_up_to(s: &[u8], limit: u128) -> (r: Option<u128>)
    requires
        all_digits(s@),
    ensures
        r == (if digits_value(s@) <= limit {
            Some(digits_value(s@) as u128)
        } else {
            None::<u128>
        }),
{
    let mut acc: u128 = 0;
    let mut i: usize = 0;
    while i < s.len()
        invariant
            i <= s@.len(),
            all_digits(s@),
            acc == digits_value(s@.take(i as int)),
            acc <= limit,
        decreases s@.len() - i,
    {
        let d = (s[i] - 48) as u128;
        proof {
            lemma_digits_prefix(s@, i as int);
        }
        if d > limit || acc > (limit - d) / 10 {
            proof {
                lemma_digits_grow(s@, i + 1, s@.len() as int);
                assert(s@.take(s@.len() as int) =~= s@);
            }
            return None;
        }
        acc = acc * 10 + d;
        i = i + 1;
    }
    assert(s@.take(s@.len() as int) =~= s@);
    Some(acc)
}

/// The value of the integer text `t[from..to]`, held within `EXP_CAP` in magnitude.
fn exponent_between(t: &[u8], from: usize, to: usize) -> (r: Option<i128>)
    requires
        from <= to <= t@.len(),
    ensures
        match integer_of(t@.subrange(from as int, to as int)) {
            Some(v) => r == Some(clamp_exp(v) as i128),
            None => r is None,
        },
{
    let s = slice_range(t, from, to);
    let start = sign_len(s);
    assert(unsigned_part(s@) =~= s@.subrange(start as int, s@.len() as int));
    if start == s.len() || !digits_between(s, start, s.len()) {
        return None;
    }
    let digs = slice_range(s, start, s.len());
    let mag: u128 = match wide_digits_up_to(digs, EXP_CAP) {
        Some(v) => v,
        None => EXP_CAP,
    };
    if s.len() > 0 && s[0] == 45 {
        Some(0i128 - mag as i128)
    } else {
        Some(mag as i128)
    }
}

/// The parts of the number text `t`, its exponent held within `EXP_CAP` in magnitude.
fn split_number(t: &[u8]) -> (r: Option<(Vec<u8>, usize, i128)>)
    ensures
        match number_parts(t@) {
            Some((d, scale, e)) => match r {
                Some((v, n, x)) => v@ == d && n == scale && x == clamp_exp(e),
                None => false,
            },
            None => r is None,
        },
{
    let start = sign_len(t);
    let ghost u = unsigned_part(t@);
    assert(u =~= t@.subrange(start as int, t@.len() as int));
    let x = find_exp_mark(t, start, t.len());
    assert(u.take(exp_index(u) as int) =~= t@.subrange(start as int, x as int));
    let e: i128 = if x < t.len() {
        assert(u.skip(exp_index(u) as int + 1) =~= t@.subrange(x + 1, t@.len() as int));
        match exponent_between(t, x + 1, t.len()) {
            Some(v) => v,
            None => {
                return None;
            },
        }
    } else {
        0
    };
    match split_point(t, start, x) {
        Some((digs, scale)) => Some((digs, scale, e)),
        None => None,
    }
}

/// Reads kilopascals from a value's content and gives hectopascals.
pub fn parse_hectopascals(content: &[u8]) -> (r: Result<Reading, ReadError>)
    ensures
        r == hectopascals_of(content@),
{
    let (lo, hi) = text_bounds(content);
    let t = slice_range(content, lo, hi);
    let ghost parts = number_parts(t@);
    match split_number(t) {
        None => Err(ReadError::InvalidData),
        Some((digs, scale, e)) => {
            let limit = limit_for(t, I64_NEG_LIMIT, I64_POS_LIMIT);
            let (m, k) = digits_fit(digs.as_slice(), limit);
            assert(scale as int <= u64::MAX && digs@.len() <= u64::MAX);
            let exponent: i128 = e - scale as i128 + 1 + (digs.len() - k) as i128;
            if exponent < i64::MIN as i128 || exponent > i64::MAX as i128 {
                if m == 0 || exponent < i64::MIN as i128 {
                    Ok(Reading { mantissa: 0, exponent: 0 })
                } else {
                    Err(ReadError::InvalidData)
                }
            } else {
                let v = apply_sign(t, m);
                Ok(Reading { mantissa: v, exponent: exponent as i64 })
            }
        },
    }
}

/// `s[from..to]`.
fn slice_range(s: &[u8], from: usize, to: usize) -> (r: &[u8])
    requires
        from <= to <= s@.len(),
    ensures
        r@ == s@.subrange(from as int, to as int),
{
    let (head, _) = s.split_at(to);
    let (_, mid) = head.split_at(from);
    assert(mid@ =~= s@.subrange(from as int, to as int));
    mid
}

/// Whether every byte of `t` is ASCII, and none is whitespace or the delimiter.
pub open spec fn is_plain(t: Seq<u8>) -> bool {
    forall|i: int| 0 <= i < t.len() ==> #[trigger] t[i] < 128 && !is_space(t[i]) && t[i]
        != DELIMITER
}

proof fn lemma_integer_bytes(s: Seq<u8>)
    requires
        integer_of(s) is Some,
    ensures
        forall|j: int| 0 <= j < s.len() ==> is_digit(#[trigger] s[j]) || is_sign(s[j]),
        s.len() > 0,
{
    let u = unsigned_part(s);
    let off: int = if s.len() > 0 && is_sign(s[0]) {
        1
    } else {
        0
    };
    assert(u =~= s.skip(off));
    assert forall|j: int| 0 <= j < s.len() implies is_digit(#[trigger] s[j]) || is_sign(s[j]) by {
        if j >= off {
            assert(u[j - off] == s[j]);
        }
    }
}

proof fn lemma_point_bytes(m: Seq<u8>)
    requires
        point_digits(m) is Some,
    ensures
        forall|j: int| 0 <= j < m.len() ==> is_digit(#[trigger] m[j]) || m[j] == 46,
        m.len() > 0,
{
    let k = index_of(m, 46);
    lemma_index_of_bound(m, 46);
    lemma_index_of_found(m, 46);
    assert forall|j: int| 0 <= j < m.len() implies is_digit(#[trigger] m[j]) || m[j] == 46 by {
        if j < k {
            assert(m.take(k as int)[j] == m[j]);
        } else if j > k {
            assert(m.skip(k as int + 1)[j - k - 1] == m[j]);
        }
    }
}

proof fn lemma_exp_index_bound(s: Seq<u8>)
    ensures
        exp_index(s) <= s.len(),
        exp_index(s) < s.len() ==> is_exp_mark(s[exp_index(s) as int]),
    decreases s.len(),
{
    if s.len() > 0 && !is_exp_mark(s[0]) {
        lemma_exp_index_bound(s.drop_first());
    }
}

proof fn lemma_numeric_is_plain(t: Seq<u8>)
    requires
        integer_of(t) is Some || number_parts(t) is Some,
    ensures
        is_plain(t),
        t.len() > 0,
{
    if integer_of(t) is Some {
        lemma_integer_bytes(t);
    } else {
        let u = unsigned_part(t);
        let off: int = if t.len() > 0 && is_sign(t[0]) {
            1
        } else {
            0
        };
        assert(u =~= t.skip(off));
        let x = exp_index(u);
        lemma_exp_index_bound(u);
        let m = u.take(x as int);
        lemma_point_bytes(m);
        if x < u.len() {
            lemma_integer_bytes(u.skip(x as int + 1));
        }
        assert forall|i: int| 0 <= i < t.len() implies #[trigger] t[i] < 128 && !is_space(t[i])
            && t[i] != DELIMITER by {
            if i >= off {
                let j = i - off;
                assert(u[j] == t[i]);
                if j < x {
                    assert(m[j] == u[j]);
                } else if j > x {
                    assert(u.skip(x as int + 1)[j - x - 1] == u[j]);
                }
            }
        }
    }
}

proof fn lemma_index_of_bound(s: Seq<u8>, b: u8)
    ensures
        index_of(s, b) <= s.len(),
        forall|j: int| 0 <= j < index_of(s, b) ==> s[j] != b,
    decreases s.len(),
{
    if s.len() > 0 && s[0] != b {
        lemma_index_of_bound(s.drop_first(), b);
        assert forall|j: int| 0 <= j < index_of(s, b) implies s[j] != b by {
            if j > 0 {
                assert(s[j] == s.drop_first()[j - 1]);
            }
        }
    }
}

proof fn lemma_index_of_found(s: Seq<u8>, b: u8)
    ensures
        index_of(s, b) < s.len() ==> s[index_of(s, b) as int] == b,
    decreases s.len(),
{
    if s.len() > 0 && s[0] != b {
        lemma_index_of_found(s.drop_first(), b);
    }
}

/// The value text of a plain text followed by the delimiter is that text, whatever follows.
proof fn lemma_delimited(t: Seq<u8>, rest: Seq<u8>)
    requires
        is_plain(t),
        t.len() > 0,
    ensures
        value_text(t + seq![DELIMITER] + rest) == t,
{
    let c = t + seq![DELIMITER] + rest;
    lemma_index_of(c, DELIMITER, t.len() as int);
    let f = c.take(t.len() as int);
    assert(f =~= t);
    assert(space_prefix(f) == 0);
    assert(f.skip(0) =~= f);
    assert(space_suffix(f) == 0);
    assert(f.take(f.len() as int) =~= f);
}

/// A reading of temperature or humidity given as integer text `n` and then the delimiter is
/// `n` thousandths, where `n` fits in an `i32`; whatever follows the delimiter is ignored.
pub proof fn thousandths_law(t: Seq<u8>, rest: Seq<u8>)
    requires
        integer_of(t) is Some,
    ensures
        thousandths_of(t + seq![DELIMITER] + rest) == (if fits_i32(integer_of(t)->0) {
            Ok(Reading { mantissa: integer_of(t)->0 as i64, exponent: -3i64 })
        } else {
            Err(ReadError::InvalidData)
        }),
{
    lemma_numeric_is_plain(t);
    lemma_delimited(t, rest);
}

proof fn lemma_fit_all(d: Seq<u8>, limit: nat, i: nat)
    requires
        all_digits(d),
        digits_value(d) <= limit,
        i <= d.len(),
    ensures
        fit_from(d, limit, i) == d.len(),
    decreases d.len() - i,
{
    if i < d.len() {
        lemma_digits_grow(d, i as int + 1, d.len() as int);
        assert(d.take(d.len() as int) =~= d);
        lemma_fit_all(d, limit, i + 1);
    }
}

/// A pressure given as number text of kilopascals and then the delimiter reads as that text
/// does, whatever follows the delimiter. Where its digits fit in a reading's mantissa, it is
/// ten times that many hectopascals exactly: the same digits, the exponent one higher. Zero
/// digits read as zero, whatever the exponent.
pub proof fn hectopascals_law(t: Seq<u8>, rest: Seq<u8>)
    requires
        number_parts(t) is Some,
    ensures
        hectopascals_of(t + seq![DELIMITER] + rest) == hectopascals_of_text(t),
        ({
            let (d, scale, e) = number_parts(t)->0;
            &&& (digits_value(d) <= magnitude_limit(t) && fits_i64(e - scale + 1)
                ==> hectopascals_of_text(t) == Ok::<Reading, ReadError>(
                Reading {
                    mantissa: signed(t, digits_value(d)) as i64,
                    exponent: (e - scale + 1) as i64,
                },
            ))
            &&& (digits_value(d) == 0 ==> (hectopascals_of_text(t) matches Ok(r) && r.mantissa
                == 0))
        }),
{
    lemma_numeric_is_plain(t);
    lemma_delimited(t, rest);
    let (d, scale, e) = number_parts(t)->0;
    let u = unsigned_part(t);
    let m = u.take(exp_index(u) as int);
    let k = index_of(m, 46);
    let whole = m.take(k as int);
    let frac = if k < m.len() {
        m.skip(k as int + 1)
    } else {
        Seq::empty()
    };
    assert(d == whole + frac);
    assert(all_digits(d)) by {
        assert forall|j: int| 0 <= j < d.len() implies is_digit(#[trigger] d[j]) by {
            if j < whole.len() {
                assert(d[j] == whole[j]);
            } else {
                assert(d[j] == frac[j - whole.len()]);
            }
        }
    }
    if digits_value(d) <= magnitude_limit(t) {
        lemma_fit_all(d, magnitude_limit(t), 0);
        assert(d.take(d.len() as int) =~= d);
    }
}

/// Content whose value text is not integer text reads, as temperature or humidity, as a
/// data-format failure; content whose value text is not number text does so as pressure.
/// Neither is ever an I/O failure.
pub proof fn non_numeric_law(content: Seq<u8>)
    ensures
        integer_of(value_text(content)) is None ==> thousandths_of(content) == Err::<
            Reading,
            ReadError,
        >(ReadError::InvalidData),
        number_parts(value_text(content)) is None ==> hectopascals_of(content) == Err::<
            Reading,
            ReadError,
        >(ReadError::InvalidData),
        thousandths_of(content) != Err::<Reading, ReadError>(ReadError::Io),
        hectopascals_of(content) != Err::<Reading, ReadError>(ReadError::Io),
{
}

/// An environmental sensor on a bus, read through the files that its kernel driver exposes.
pub struct BME280 {
    i2c: u8,
    addr: u8,
}

impl BME280 {
    pub closed spec fn bus(&self) -> u8 {
        self.i2c
    }

    pub closed spec fn address(&self) -> u8 {
        self.addr
    }

    /// The device's directory: the bus in hexadecimal, then the address in four hexadecimal
    /// digits.
    pub open spec fn base_path(&self) -> Seq<char> {
        DEVICES_DIR@ + num_text(self.bus() as nat, 16, 1) + seq!['-'] + num_text(
            self.address() as nat,
            16,
            4,
        )
    }

    pub fn new(i2c: u8, addr: u8) -> (r: BME280)
        ensures
            r.bus() == i2c,
            r.address() == addr,
    {
        BME280 { i2c, addr }
    }

    pub fn basepath(&self) -> (r: String)
        ensures
            r@ == self.base_path(),
    {
        let mut s = String::from_str(DEVICES_DIR);
        push_digits(&mut s, self.i2c as u64, 16, 1);
        s.push('-');
        push_digits(&mut s, self.addr as u64, 16, 4);
        s
    }

    fn value_path(&self, leaf: &str) -> (r: String)
        ensures
            r@ == self.base_path() + seq!['/'] + leaf@,
    {
        let mut s = self.basepath();
        s.push('/');
        s.append(leaf);
        s
    }

    /// Where the temperature is read from.
    pub fn temperature_path(&self) -> (r: String)
        ensures
            r@ == self.base_path() + seq!['/'] + TEMP_PATH@,
    {
        self.value_path(TEMP_PATH)
    }

    /// Where the humidity is read from.
    pub fn humidity_path(&self) -> (r: String)
        ensures
            r@ == self.base_path() + seq!['/'] + HUMI_PATH@,
    {
        self.value_path(HUMI_PATH)
    }

    /// Where the pressure is read from.
    pub fn pressure_path(&self) -> (r: String)
        ensures
            r@ == self.base_path() + seq!['/'] + PRES_PATH@,
    {
        self.value_path(PRES_PATH)
    }

    /// Temperature in degrees Celsius, from the content read at `temperature_path`, or `None`
    /// where that location could not be read.
    pub fn temperature(&self, content: Option<&[u8]>) -> (r: Result<Reading, ReadError>)
        ensures
            match content {
                None => r == Err::<Reading, ReadError>(ReadError::Io),
                Some(c) => r == thousandths_of(c@),
            },
    {
        match content {
            None => Err(ReadError::Io),
            Some(c) => parse_thousandths(c),
        }
    }

    /// Relative humidity in percent, from the content read at `humidity_path`, or `None` where
    /// that location could not be read.
    pub fn humidity(&self, content: Option<&[u8]>) -> (r: Result<Reading, ReadError>)
        ensures
            match content {
                None => r == Err::<Reading, ReadError>(ReadError::Io),
                Some(c) => r == thousandths_of(c@),
            },
    {
        match content {
            None => Err(ReadError::Io),
            Some(c) => parse_thousandths(c),
        }
    }

    /// Pressure in hectopascals, from the content read at `pressure_path`, or `None` where that
    /// location could not be read.
    pub fn pressure(&self, content: Option<&[u8]>) -> (r: Result<Reading, ReadError>)
        ensures
            match content {
                None => r == Err::<Reading, ReadError>(ReadError::Io),
                Some(c) => r == hectopascals_of(c@),
            },
    {
        match content {
            None => Err(ReadError::Io),
            Some(c) => parse_hectopascals(c),
        }
    }
}

} // verus!
