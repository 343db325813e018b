//! Fixed-point numbers with nine fractional digits, the numeric type of
//! bucket boundaries, observations and sums.
use vstd::prelude::*;
use crate::text::{decimal, fraction, push_char, push_decimal, push_fraction};

verus! {

/// Units of the last fractional digit in one whole unit.
pub const SCALE: i64 = 1_000_000_000;

/// Number of fractional digits.
pub const FRACTION_DIGITS: u32 = 9;

/// `10^k`.
pub open spec fn pow10(k: nat) -> int
    decreases k,
{
    if k == 0 { 1 } else { 10 * pow10((k - 1) as nat) }
}

/// Whether an integer fits in an `i64`.
pub open spec fn fits_i64(n: int) -> bool {
    i64::MIN <= n <= i64::MAX
}

/// The decimal text of `n / SCALE`: a minus sign for a negative value, the
/// integer part, and, where the fraction is not zero, a point and the
/// fraction's digits without trailing zeros (`1`, `0.56`, `-2.25`).
pub open spec fn fixed_text(n: int) -> Seq<char> {
    let m = if n < 0 { -n } else { n };
    let sign = if n < 0 { seq!['-'] } else { Seq::<char>::empty() };
    let frac = if m % (SCALE as int) == 0 {
        Seq::<char>::empty()
    } else {
        seq!['.'] + fraction((m % (SCALE as int)) as nat, FRACTION_DIGITS as nat)
    };
    sign + decimal((m / (SCALE as int)) as nat) + frac
}

/// A decimal number held as a whole count of `1 / SCALE` parts.
#[derive(Clone, Copy, Debug, PartialEq, Eq, Structural)]
pub struct Fixed {
    pub nanos: i64,
}

/// Appends the decimal text of `n / SCALE`.
pub fn push_fixed(out: &mut String, n: i128)
    requires
        n > i128::MIN,
    ensures
        final(out)@ == old(out)@ + fixed_text(n as int),
{
    let m: u128 = if n < 0 { (-n) as u128 } else { n as u128 };
    let ghost start = out@;
    if n < 0 {
        push_char(out, '-');
    }
    let ghost signed = out@;
    let s = SCALE as u128;
    push_decimal(out, m / s);
    let ghost whole = out@;
    if m % s != 0 {
        push_char(out, '.');
        push_fraction(out, m % s, FRACTION_DIGITS);
    }
    proof {
        let sign = if n < 0 { seq!['-'] } else { Seq::<char>::empty() };
        assert(signed =~= start + sign);
        let frac = if (m as int) % (SCALE as int) == 0 {
            Seq::<char>::empty()
        } else {
            seq!['.'] + fraction(((m as int) % (SCALE as int)) as nat, FRACTION_DIGITS as nat)
        };
        assert(out@ =~= whole + frac);
        assert(out@ =~= start + (sign + decimal(((m as int) / (SCALE as int)) as nat) + frac));
    }
}

fn pow10_exec(k: u32) -> (r: i128)
    requires
        k <= 9,
    ensures
        r == pow10(k as nat),
        1 <= r <= 1_000_000_000,
    decreases k,
{
    if k == 0 {
        1
    } else {
        let p = pow10_exec(k - 1);
        assert(pow10(k as nat) == 10 * pow10((k - 1) as nat));
        assert(p <= 100_000_000) by {
            if k - 1 <= 8 {
                lemma_pow10_bound((k - 1) as nat);
            }
        }
        10 * p
    }
}

proof fn lemma_pow10_bound(k: nat)
    requires
        k <= 8,
    ensures
        pow10(k) <= 100_000_000,
    decreases k,
{
    reveal_with_fuel(pow10, 9);
}

impl Fixed {
    /// The number `digits * 10^-scale`, where it can be held: the scale is
    /// at most the nine fractional digits and the result fits.
    pub fn new(digits: i64, scale: u32) -> (r: Option<Fixed>)
        ensures
            r == (if scale <= FRACTION_DIGITS && fits_i64(digits * pow10((FRACTION_DIGITS - scale) as nat)) {
                Some(Fixed { nanos: (digits * pow10((FRACTION_DIGITS - scale) as nat)) as i64 })
            } else {
                None::<Fixed>
            }),
    {
        if scale > FRACTION_DIGITS {
            return None;
        }
        let p = pow10_exec(FRACTION_DIGITS - scale);
        let d = digits as i128;
        assert(-0x8000_0000_0000_0000 * 1_000_000_000 <= d * p <= 0x7fff_ffff_ffff_ffff * 1_000_000_000)
            by (nonlinear_arith)
            requires
                -0x8000_0000_0000_0000 <= d <= 0x7fff_ffff_ffff_ffff,
                1 <= p <= 1_000_000_000,
        ;
        let n = d * p;
        if n < i64::MIN as i128 || n > i64::MAX as i128 {
            None
        } else {
            Some(Fixed { nanos: n as i64 })
        }
    }

    /// The whole number `n`, where it fits.
    pub fn whole(n: i64) -> (r: Option<Fixed>)
        ensures
            r == (if fits_i64(n * SCALE) {
                Some(Fixed { nanos: (n * SCALE) as i64 })
            } else {
                None::<Fixed>
            }),
    {
        let r = Fixed::new(n, 0);
        assert(pow10(9) == SCALE) by {
            reveal_with_fuel(pow10, 10);
        }
        r
    }

    /// The number as decimal text: `0.5`, `1`, `-3.25`.
    pub fn to_text(&self) -> (r: String)
        ensures
            r@ == fixed_text(self.nanos as int),
    {
        let mut out = String::new();
        push_fixed(&mut out, self.nanos as i128);
        assert(out@ =~= fixed_text(self.nanos as int));
        out
    }
}

} // verus!
