//! Reading unsigned decimal numbers out of map fields.
//!
//! A field is accepted exactly as `str::parse` accepts it for an unsigned
//! integer type: an optional leading `+`, then one or more ASCII digits,
//! whose value must fit the target type.
use vstd::prelude::*;

verus! {

/// The ASCII code of `0`.
pub const DIGIT_ZERO: u8 = 48;
/// The ASCII code of `9`.
pub const DIGIT_NINE: u8 = 57;
/// The ASCII code of `+`.
pub const PLUS_SIGN: u8 = 43;

pub open spec fn is_digit(b: u8) -> bool {
    DIGIT_ZERO <= b <= DIGIT_NINE
}

pub open spec fn all_digits(d: Seq<u8>) -> bool {
    forall|i: int| 0 <= i < d.len() ==> is_digit(#[trigger] d[i])
}

/// The value of a string of decimal digits, most significant first.
pub open spec fn digits_value(d: Seq<u8>) -> nat
    decreases d.len(),
{
    if d.len() == 0 {
        0
    } else {
        digits_value(d.drop_last()) * 10 + (d.last() - DIGIT_ZERO) as nat
    }
}

/// The digits that follow an optional leading `+`.
pub open spec fn unsigned_digits(f: Seq<u8>) -> Seq<u8> {
    if f.len() > 0 && f[0] == PLUS_SIGN {
        f.drop_first()
    } else {
        f
    }
}

/// The number a field denotes, if it is a well-formed unsigned decimal.
pub open spec fn unsigned_value(f: Seq<u8>) -> Option<nat> {
    let d = unsigned_digits(f);
    if d.len() > 0 && all_digits(d) {
        Some(digits_value(d))
    } else {
        None
    }
}

/// What parsing a field as an unsigned integer no larger than `max` gives.
pub open spec fn parse_bounded(f: Seq<u8>, max: nat) -> Option<nat> {
    match unsigned_value(f) {
        Some(v) => if v <= max {
            Some(v)
        } else {
            None
        },
        None => None,
    }
}

pub open spec fn spec_parse_u32(f: Seq<u8>) -> Option<u32> {
    match parse_bounded(f, u32::MAX as nat) {
        Some(v) => Some(v as u32),
        None => None,
    }
}

pub open spec fn spec_parse_u16(f: Seq<u8>) -> Option<u16> {
    match parse_bounded(f, u16::MAX as nat) {
        Some(v) => Some(v as u16),
        None => None,
    }
}

/// A byte string made only of the bytes `0` to `9`.
pub open spec fn ascii_digit_string(d: Seq<u8>) -> bool {
    forall|i: int| 0 <= i < d.len() ==> 48 <= #[trigger] d[i] <= 57
}

proof fn lemma_bounded_single_digit(k: u8, max: nat)
    requires
        k <= 9,
        k <= max,
    ensures
        parse_bounded(seq![(48 + k) as u8], max) == Some(k as nat),
{
    let f = seq![(48 + k) as u8];
    assert(unsigned_digits(f) == f);
    assert(f.drop_last() =~= Seq::<u8>::empty());
    assert(digits_value(Seq::<u8>::empty()) == 0);
    assert(f.last() == (48 + k) as u8);
    assert(digits_value(f) == k as nat);
    assert(all_digits(f));
}

proof fn lemma_bounded_append_digit(d: Seq<u8>, k: u8, max: nat)
    requires
        d.len() > 0,
        ascii_digit_string(d),
        k <= 9,
    ensures
        parse_bounded(d, max) matches Some(v) ==> (if v * 10 + k <= max {
            parse_bounded(d.push((48 + k) as u8), max) == Some((v * 10 + k) as nat)
        } else {
            parse_bounded(d.push((48 + k) as u8), max) is None
        }),
{
    let e = d.push((48 + k) as u8);
    assert(d[0] != PLUS_SIGN);
    assert(e[0] == d[0]);
    assert(unsigned_digits(d) == d);
    assert(unsigned_digits(e) == e);
    assert(e.drop_last() =~= d);
    assert(all_digits(d));
    assert(all_digits(e)) by {
        assert forall|i: int| 0 <= i < e.len() implies is_digit(#[trigger] e[i]) by {
            if i < d.len() {
                assert(e[i] == d[i]);
            }
        }
    }
}

proof fn lemma_bounded_plus_sign(d: Seq<u8>, max: nat)
    requires
        d.len() > 0,
        ascii_digit_string(d),
    ensures
        parse_bounded(seq![43u8] + d, max) == parse_bounded(d, max),
{
    let e = seq![43u8] + d;
    assert(e.drop_first() =~= d);
    assert(d[0] != PLUS_SIGN);
    assert(unsigned_digits(d) == d);
}

proof fn lemma_bounded_rejects_stray_byte(f: Seq<u8>, i: int, max: nat)
    requires
        0 <= i < f.len(),
        !(48 <= f[i] <= 57),
        !(i == 0 && f[i] == 43),
    ensures
        parse_bounded(f, max) is None,
{
    let d = unsigned_digits(f);
    if f.len() > 0 && f[0] == PLUS_SIGN {
        assert(d[i - 1] == f[i]);
    } else {
        assert(d[i] == f[i]);
    }
}

/// Each digit read alone is its own value.
pub proof fn lemma_single_digit_fields(k: u8)
    requires
        k <= 9,
    ensures
        spec_parse_u32(seq![(48 + k) as u8]) == Some(k as u32),
        spec_parse_u16(seq![(48 + k) as u8]) == Some(k as u16),
{
    lemma_bounded_single_digit(k, u32::MAX as nat);
    lemma_bounded_single_digit(k, u16::MAX as nat);
}

/// Writing one more digit after a number multiplies it by ten and adds the
/// digit, as long as the result still fits; past that the field is refused.
pub proof fn lemma_appending_a_digit(d: Seq<u8>, k: u8)
    requires
        d.len() > 0,
        ascii_digit_string(d),
        k <= 9,
    ensures
        spec_parse_u32(d) matches Some(v) ==> (if v * 10 + k <= u32::MAX {
            spec_parse_u32(d.push((48 + k) as u8)) == Some((v * 10 + k) as u32)
        } else {
            spec_parse_u32(d.push((48 + k) as u8)) is None
        }),
        spec_parse_u16(d) matches Some(v) ==> (if v * 10 + k <= u16::MAX {
            spec_parse_u16(d.push((48 + k) as u8)) == Some((v * 10 + k) as u16)
        } else {
            spec_parse_u16(d.push((48 + k) as u8)) is None
        }),
{
    lemma_bounded_append_digit(d, k, u32::MAX as nat);
    lemma_bounded_append_digit(d, k, u16::MAX as nat);
}

/// A leading `+` before the digits changes nothing.
pub proof fn lemma_plus_sign_is_ignored(d: Seq<u8>)
    requires
        d.len() > 0,
        ascii_digit_string(d),
    ensures
        spec_parse_u32(seq![43u8] + d) == spec_parse_u32(d),
        spec_parse_u16(seq![43u8] + d) == spec_parse_u16(d),
{
    lemma_bounded_plus_sign(d, u32::MAX as nat);
    lemma_bounded_plus_sign(d, u16::MAX as nat);
}

/// A field holding any byte other than a digit, but for one leading `+`,
/// is refused; so is an empty field.
pub proof fn lemma_stray_bytes_are_refused(f: Seq<u8>, i: int)
    requires
        0 <= i < f.len(),
        !(48 <= f[i] <= 57),
        !(i == 0 && f[i] == 43),
    ensures
        spec_parse_u32(f) is None,
        spec_parse_u16(f) is None,
        spec_parse_u32(Seq::<u8>::empty()) is None,
        spec_parse_u16(Seq::<u8>::empty()) is None,
{
    lemma_bounded_rejects_stray_byte(f, i, u32::MAX as nat);
    lemma_bounded_rejects_stray_byte(f, i, u16::MAX as nat);
}

/// Appending digits never makes a number smaller.
proof fn lemma_digits_value_prefix(d: Seq<u8>, i: int)
    requires
        0 <= i <= d.len(),
        all_digits(d),
    ensures
        digits_value(d.take(i)) <= digits_value(d),
    decreases d.len(),
{
    if i < d.len() {
        assert(d.drop_last().take(i) =~= d.take(i));
        lemma_digits_value_prefix(d.drop_last(), i);
    } else {
        assert(d.take(i) =~= d);
    }
}

/// Parses `f` as an unsigned decimal no larger than `max`.
fn parse_bounded_exec(f: &[u8], max: u32) -> (res: Option<u32>)
    ensures
        match parse_bounded(f@, max as nat) {
            Some(v) => res == Some(v as u32),
            None => res is None,
        },
{
    let n = f.len();
    let mut start: usize = 0;
    if n > 0 && f[0] == PLUS_SIGN {
        start = 1;
    }
    let ghost d = unsigned_digits(f@);
    assert(d =~= f@.subrange(start as int, n as int));
    if start == n {
        return None;
    }
    let mut acc: u64 = 0;
    let mut i: usize = start;
    while i < n
        invariant
            start <= i <= n,
            n == f@.len(),
            d =~= f@.subrange(start as int, n as int),
            d == unsigned_digits(f@),
            d.len() > 0,
            all_digits(d.take(i - start)),
            acc == digits_value(d.take(i - start)),
            acc <= max,
        decreases n - i,
    {
        let b = f[i];
        if b < DIGIT_ZERO || b > DIGIT_NINE {
            assert(d[i - start] == b);
            assert(!all_digits(d));
            return None;
        }
        let ghost k = i - start;
        assert(d.take(k + 1).drop_last() =~= d.take(k));
        acc = acc * 10 + (b - DIGIT_ZERO) as u64;
        i = i + 1;
        assert(all_digits(d.take(i - start)));
        if acc > max as u64 {
            proof {
                if all_digits(d) {
                    lemma_digits_value_prefix(d, i - start);
                }
            }
            return None;
        }
    }
    assert(d.take(n - start) =~= d);
    Some(acc as u32)
}

/// `str::parse::<u32>` on the bytes of a field.
pub fn parse_u32(f: &[u8]) -> (res: Option<u32>)
    ensures
        res == spec_parse_u32(f@),
{
    parse_bounded_exec(f, u32::MAX)
}

/// `str::parse::<u16>` on the bytes of a field.
pub fn parse_u16(f: &[u8]) -> (res: Option<u16>)
    ensures
        res == spec_parse_u16(f@),
{
    match parse_bounded_exec(f, u16::MAX as u32) {
        Some(v) => Some(v as u16),
        None => None,
    }
}

} // verus!
