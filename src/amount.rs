//! Fixed-point amounts with four decimal digits, and their text form.

use vstd::prelude::*;

verus! {

/// Number of decimal digits kept after the point.
pub const DECIMAL_PRECISION: usize = 4;

/// The scale of a fixed-point amount: one unit is `1 / FLOAT_BASE`.
pub const FLOAT_BASE: u32 = 10000;

/// A non-negative amount, scaled by `FLOAT_BASE` (so `"123.45"` is `1_234_500`).
#[derive(Copy, Clone, Debug, PartialEq, Eq, Structural, PartialOrd, Ord)]
pub struct Amount(pub u64);

/// Why a text is not an amount.
#[derive(Copy, Clone, Debug, PartialEq, Eq, Structural)]
pub enum AmountError {
    /// The text holds no `.`.
    MissingDecimalPoint,
    /// More than `DECIMAL_PRECISION` characters follow the first `.`.
    TooManyDecimalDigits,
    /// The whole or the fractional part is not an unsigned decimal number
    /// that fits in a `u64`.
    InvalidNumber,
    /// The scaled value does not fit in a `u64`.
    Overflow,
}

pub open spec fn is_digit(b: u8) -> bool {
    48 <= b <= 57
}

/// The value of a string of decimal digits, most significant first.
pub open spec fn digits_value(s: Seq<u8>) -> nat
    decreases s.len(),
{
    if s.len() == 0 {
        0
    } else {
        digits_value(s.drop_last()) * 10 + (s.last() - 48) as nat
    }
}

/// The digits of an unsigned number's text: a leading `+` is allowed.
pub open spec fn unsigned_digits(s: Seq<u8>) -> Seq<u8> {
    if s.len() > 0 && s[0] == 43u8 {
        s.drop_first()
    } else {
        s
    }
}

/// The text of an unsigned decimal number: an optional `+`, then at least one digit.
pub open spec fn is_unsigned_text(s: Seq<u8>) -> bool {
    let d = unsigned_digits(s);
    d.len() > 0 && forall|i: int| 0 <= i < d.len() ==> is_digit(#[trigger] d[i])
}

pub open spec fn unsigned_value(s: Seq<u8>) -> nat {
    digits_value(unsigned_digits(s))
}

/// `s` holds an unsigned number no larger than `max`.
pub open spec fn unsigned_within(s: Seq<u8>, max: nat) -> bool {
    is_unsigned_text(s) && unsigned_value(s) <= max
}

pub open spec fn no_dot(s: Seq<u8>) -> bool {
    forall|j: int| 0 <= j < s.len() ==> #[trigger] s[j] != 46u8
}

/// `i` is the position of the first `.` in `s`.
pub open spec fn is_first_dot(s: Seq<u8>, i: int) -> bool {
    0 <= i < s.len() && s[i] == 46u8 && no_dot(s.take(i))
}

/// What a fraction of `len` digits is multiplied by to reach the scale.
pub open spec fn frac_scale(len: nat) -> nat {
    if len == 0 {
        10000
    } else if len == 1 {
        1000
    } else if len == 2 {
        100
    } else if len == 3 {
        10
    } else {
        1
    }
}

/// The amount written in `s`, whose first `.` stands at `i`.
pub open spec fn amount_at(s: Seq<u8>, i: int) -> Result<Amount, AmountError> {
    let whole = s.take(i);
    let frac = s.skip(i + 1);
    if frac.len() > DECIMAL_PRECISION {
        Err(AmountError::TooManyDecimalDigits)
    } else if !unsigned_within(frac, u64::MAX as nat) || !unsigned_within(whole, u64::MAX as nat) {
        Err(AmountError::InvalidNumber)
    } else {
        let v = unsigned_value(whole) * FLOAT_BASE + unsigned_value(frac) * frac_scale(frac.len());
        if v > u64::MAX {
            Err(AmountError::Overflow)
        } else {
            Ok(Amount(v as u64))
        }
    }
}

/// The amount written in `s`: whole part, `.`, at most four fraction digits.
pub open spec fn amount_of_text(s: Seq<u8>) -> Result<Amount, AmountError> {
    if no_dot(s) {
        Err(AmountError::MissingDecimalPoint)
    } else {
        amount_at(s, choose|i: int| is_first_dot(s, i))
    }
}

proof fn lemma_first_dot_unique(s: Seq<u8>, i: int, j: int)
    requires
        is_first_dot(s, i),
        is_first_dot(s, j),
    ensures
        i == j,
{
    if i < j {
        assert(s.take(j)[i] == 46u8);
    } else if j < i {
        assert(s.take(i)[j] == 46u8);
    }
}

/// Reads the unsigned number in `b[lo..hi]`; `None` unless it is one and
/// at most `max`.
pub(crate) fn parse_unsigned(b: &[u8], lo: usize, hi: usize, max: u64) -> (r: Option<u64>)
    requires
        lo <= hi <= b@.len(),
    ensures
        r.is_some() <==> unsigned_within(b@.subrange(lo as int, hi as int), max as nat),
        r.is_some() ==> r.unwrap() == unsigned_value(b@.subrange(lo as int, hi as int)),
{
    let ghost s = b@.subrange(lo as int, hi as int);
    let start: usize = if lo < hi && b[lo] == 43u8 {
        lo + 1
    } else {
        lo
    };
    assert(unsigned_digits(s) =~= b@.subrange(start as int, hi as int));
    if start >= hi {
        return None;
    }
    let mut acc: u64 = 0;
    let mut too_big: bool = false;
    let mut i: usize = start;
    while i < hi
        invariant
            lo <= start <= i <= hi <= b@.len(),
            s == b@.subrange(lo as int, hi as int),
            unsigned_digits(s) =~= b@.subrange(start as int, hi as int),
            forall|j: int| start <= j < i ==> is_digit(#[trigger] b@[j]),
            too_big ==> digits_value(b@.subrange(start as int, i as int)) > max,
            !too_big ==> acc == digits_value(b@.subrange(start as int, i as int)),
            !too_big ==> acc <= max,
        decreases hi - i,
    {
        let c = b[i];
        if c < 48 || c > 57 {
            assert(b@.subrange(start as int, hi as int)[i - start] == c);
            assert(!is_digit(unsigned_digits(s)[i - start]));
            return None;
        }
        let d: u64 = (c - 48) as u64;
        let ghost prev = b@.subrange(start as int, i as int);
        assert(b@.subrange(start as int, i + 1).drop_last() =~= prev);
        if !too_big {
            if d > max || acc > (max - d) / 10 {
                too_big = true;
                assert(acc * 10 + d > max) by (nonlinear_arith)
                    requires d > max || acc > (max - d) / 10;
            } else {
                assert(acc * 10 + d <= max) by (nonlinear_arith)
                    requires acc <= (max - d) / 10, d <= max;
                acc = acc * 10 + d;
            }
        }
        i = i + 1;
    }
    assert(b@.subrange(start as int, hi as int) =~= b@.subrange(start as int, i as int));
    if too_big {
        None
    } else {
        Some(acc)
    }
}

fn frac_multiplier(len: usize) -> (r: u64)
    requires
        len <= DECIMAL_PRECISION,
    ensures
        r == frac_scale(len as nat),
{
    if len == 0 {
        10000
    } else if len == 1 {
        1000
    } else if len == 2 {
        100
    } else if len == 3 {
        10
    } else {
        1
    }
}

impl Amount {
    /// Reads an amount from its text: the whole part, a `.`, and at most
    /// `DECIMAL_PRECISION` fraction digits; overflow of a `u64` is refused.
    pub fn parse_bytes(b: &[u8]) -> (r: Result<Amount, AmountError>)
        ensures
            r == amount_of_text(b@),
    {
        let n = b.len();
        let mut k: usize = 0;
        while k < n && b[k] != 46u8
            invariant
                k <= n == b@.len(),
                no_dot(b@.take(k as int)),
            decreases n - k,
        {
            assert(b@.take(k + 1) =~= b@.take(k as int).push(b@[k as int]));
            k = k + 1;
        }
        if k == n {
            assert(b@.take(k as int) =~= b@);
            return Err(AmountError::MissingDecimalPoint);
        }
        proof {
            assert(is_first_dot(b@, k as int));
            lemma_first_dot_unique(b@, k as int, choose|i: int| is_first_dot(b@, i));
        }
        let ghost whole = b@.take(k as int);
        let ghost frac = b@.skip(k + 1);
        if n - (k + 1) > DECIMAL_PRECISION {
            return Err(AmountError::TooManyDecimalDigits);
        }
        assert(frac =~= b@.subrange(k + 1, n as int));
        assert(whole =~= b@.subrange(0, k as int));
        let f = match parse_unsigned(b, k + 1, n, u64::MAX) {
            Some(f) => f,
            None => return Err(AmountError::InvalidNumber),
        };
        let w = match parse_unsigned(b, 0, k, u64::MAX) {
            Some(w) => w,
            None => return Err(AmountError::InvalidNumber),
        };
        let m = frac_multiplier(n - (k + 1));
        assert((f as u128) * (m as u128) <= 0xffff_ffff_ffff_ffffu128 * 10000) by (nonlinear_arith)
            requires f <= 0xffff_ffff_ffff_ffffu64, m <= 10000;
        let v: u128 = (w as u128) * (FLOAT_BASE as u128) + (f as u128) * (m as u128);
        if v > u64::MAX as u128 {
            Err(AmountError::Overflow)
        } else {
            Ok(Amount(v as u64))
        }
    }
}

/// Splits a balance scaled by `FLOAT_BASE` into its sign (`true` when
/// negative), its whole part and its four fraction digits, for display.
pub fn fixed_point_parts(v: i128) -> (r: (bool, u128, u16))
    ensures
        r.0 == (v < 0),
        r.2 < FLOAT_BASE,
        (if v < 0 { -v } else { v as int }) == r.1 * FLOAT_BASE + r.2,
{
    let negative = v < 0;
    let magnitude: u128 = if negative {
        (-(v + 1)) as u128 + 1
    } else {
        v as u128
    };
    (negative, magnitude / 10000, (magnitude % 10000) as u16)
}

impl core::str::FromStr for Amount {
    type Err = AmountError;

    fn from_str(s: &str) -> Result<Amount, AmountError> {
        Amount::parse_bytes(s.as_bytes())
    }
}

} // verus!
