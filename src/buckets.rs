//! Builders of bucket boundary sequences, and the check that a sequence is
//! strictly ascending.
use vstd::prelude::*;
use crate::number::{Fixed, SCALE, fits_i64};
use vstd::arithmetic::div_mod::{lemma_div_by_multiple, lemma_div_is_ordered};

verus! {

/// Each boundary lies strictly below the next.
pub open spec fn strictly_ascending(b: Seq<Fixed>) -> bool {
    forall|i: int| 0 <= i < b.len() - 1 ==> #[trigger] b[i].nanos < b[i + 1].nanos
}

/// The product of two fixed-point numbers, with the parts below `1 / SCALE`
/// dropped (truncated toward zero).
pub open spec fn fixed_mul(a: int, b: int) -> int {
    if a * b >= 0 {
        (a * b) / (SCALE as int)
    } else {
        -((-(a * b)) / (SCALE as int))
    }
}

/// The `i`-th boundary of an exponential sequence: `start * factor^i`, each
/// product truncated as `fixed_mul` does.
pub open spec fn exponential_at(start: int, factor: int, i: nat) -> int
    decreases i,
{
    if i == 0 {
        start
    } else {
        fixed_mul(exponential_at(start, factor, (i - 1) as nat), factor)
    }
}

/// Where boundaries are out of order: the position `index` of the first
/// boundary that is not above the one before it.
#[derive(Clone, Copy, Debug, PartialEq, Eq, Structural)]
pub struct BucketOrderError {
    pub index: usize,
}

/// Succeeds exactly when the boundaries are strictly ascending; otherwise
/// names the first boundary that is not above its predecessor.
pub fn validate_histogram_buckets(buckets: &[Fixed]) -> (r: Result<(), BucketOrderError>)
    ensures
        r is Ok <==> strictly_ascending(buckets@),
        r matches Err(e) ==> 1 <= e.index < buckets@.len()
            && buckets@[e.index - 1].nanos >= buckets@[e.index as int].nanos
            && strictly_ascending(buckets@.take(e.index as int)),
{
    let mut i: usize = 1;
    while i < buckets.len()
        invariant
            1 <= i,
            i <= buckets@.len() || buckets@.len() == 0,
            forall|j: int| 0 <= j < i - 1 ==> #[trigger] buckets@[j].nanos < buckets@[j + 1].nanos,
        decreases buckets.len() - i,
    {
        if buckets[i - 1].nanos >= buckets[i].nanos {
            assert(!strictly_ascending(buckets@)) by {
                assert(buckets@[i - 1].nanos >= buckets@[(i - 1) + 1].nanos);
            }
            assert(strictly_ascending(buckets@.take(i as int))) by {
                assert forall|j: int| 0 <= j < i - 1 implies #[trigger] buckets@.take(i as int)[j].nanos
                    < buckets@.take(i as int)[j + 1].nanos by {
                    assert(buckets@[j].nanos < buckets@[j + 1].nanos);
                }
            }
            return Err(BucketOrderError { index: i });
        }
        i = i + 1;
    }
    Ok(())
}

proof fn lemma_linear_between(start: int, width: int, i: int, c: int)
    requires
        0 <= i <= c,
    ensures
        width >= 0 ==> start <= start + width * i <= start + width * c,
        width < 0 ==> start + width * c <= start + width * i <= start,
{
    assert(width >= 0 ==> 0 <= width * i <= width * c) by (nonlinear_arith)
        requires 0 <= i <= c;
    assert(width < 0 ==> width * c <= width * i <= 0) by (nonlinear_arith)
        requires 0 <= i <= c;
}

/// `count` boundaries `start, start + width, start + 2 * width, ...`.
pub fn linear_buckets(start: Fixed, width: Fixed, count: usize) -> (r: Vec<Fixed>)
    requires
        count == 0 || fits_i64(start.nanos + width.nanos * (count - 1)),
    ensures
        r@.len() == count,
        forall|i: int| 0 <= i < count ==> #[trigger] r@[i].nanos == start.nanos + width.nanos * i,
{
    let mut r: Vec<Fixed> = Vec::new();
    let mut current: i64 = start.nanos;
    let mut i: usize = 0;
    while i < count
        invariant
            i <= count,
            r@.len() == i,
            count == 0 || fits_i64(start.nanos + width.nanos * (count - 1)),
            i < count ==> current == start.nanos + width.nanos * i,
            forall|j: int| 0 <= j < i ==> #[trigger] r@[j].nanos == start.nanos + width.nanos * j,
        decreases count - i,
    {
        r.push(Fixed { nanos: current });
        if i + 1 < count {
            proof {
                lemma_linear_between(start.nanos as int, width.nanos as int, i + 1, count - 1);
                assert(start.nanos + width.nanos * (i + 1) == current + width.nanos) by (nonlinear_arith)
                    requires current == start.nanos + width.nanos * i;
            }
            current = current + width.nanos;
        }
        i = i + 1;
    }
    r
}

/// `count` linear boundaries, or `None` exactly where the last of them does
/// not fit.
pub fn checked_linear_buckets(start: Fixed, width: Fixed, count: usize) -> (r: Option<Vec<Fixed>>)
    ensures
        r is Some <==> (count == 0 || fits_i64(start.nanos + width.nanos * (count - 1))),
        r matches Some(v) ==> v@.len() == count && forall|i: int| 0 <= i < count ==>
            #[trigger] v@[i].nanos == start.nanos + width.nanos * i,
{
    if count > 0 {
        let steps = (count - 1) as i128;
        assert(-0x8000_0000_0000_0000 * 0xffff_ffff_ffff_ffff <= (width.nanos as int) * (steps as int) <= 0x8000_0000_0000_0000 * 0xffff_ffff_ffff_ffff)
            by (nonlinear_arith)
            requires
                -0x8000_0000_0000_0000 <= width.nanos <= 0x7fff_ffff_ffff_ffff,
                0 <= steps <= 0xffff_ffff_ffff_ffff,
        ;
        let last = start.nanos as i128 + width.nanos as i128 * steps;
        if last < i64::MIN as i128 || last > i64::MAX as i128 {
            return None;
        }
    }
    Some(linear_buckets(start, width, count))
}

/// Every one of the first `count` exponential boundaries fits in an `i64`.
pub open spec fn exponential_fits(start: Fixed, factor: Fixed, count: nat) -> bool {
    forall|i: nat| i < count ==> fits_i64(#[trigger] exponential_at(start.nanos as int, factor.nanos as int, i))
}

/// A start above zero whose first product, truncated, is already above it:
/// `start * (factor - 1)` is at least one part in `SCALE`. Every later
/// product then rises too.
pub open spec fn rises(start: Fixed, factor: Fixed) -> bool {
    start.nanos > 0 && start.nanos * (factor.nanos - SCALE) >= SCALE
}

proof fn lemma_step_rises(start: int, f: int, x: int)
    requires
        start > 0,
        start * (f - SCALE) >= SCALE,
        x >= start,
    ensures
        fixed_mul(x, f) >= x + 1,
{
    let s = SCALE as int;
    assert(f - s > 0) by (nonlinear_arith)
        requires
            start > 0,
            start * (f - s) >= s,
            s > 0,
    ;
    assert((x - start) * (f - s) >= 0) by (nonlinear_arith)
        requires
            x >= start,
            f - s > 0,
    ;
    assert(x * (f - s) == start * (f - s) + (x - start) * (f - s)) by (nonlinear_arith);
    assert(x * f == x * s + x * (f - s)) by (nonlinear_arith);
    assert((x + 1) * s == x * s + s) by (nonlinear_arith);
    assert(x * s >= 0) by (nonlinear_arith)
        requires
            x >= start,
            start > 0,
            s > 0,
    ;
    lemma_div_is_ordered((x + 1) * s, x * f, s);
    lemma_div_by_multiple(x + 1, s);
}

fn mul_fixed(a: i64, b: i64) -> (r: i128)
    ensures
        r == fixed_mul(a as int, b as int),
{
    assert(-0x8000_0000_0000_0000 * 0x8000_0000_0000_0000 <= (a as int) * (b as int) <= 0x8000_0000_0000_0000 * 0x8000_0000_0000_0000)
        by (nonlinear_arith)
        requires
            -0x8000_0000_0000_0000 <= a <= 0x7fff_ffff_ffff_ffff,
            -0x8000_0000_0000_0000 <= b <= 0x7fff_ffff_ffff_ffff,
    ;
    let p = (a as i128) * (b as i128);
    let s = SCALE as i128;
    if p >= 0 { p / s } else { -((-p) / s) }
}

/// `count` boundaries `start, start * factor, start * factor^2, ...`, each
/// product truncated to nine fractional digits; `None` exactly where one of
/// them does not fit.
pub fn checked_exponential_buckets(start: Fixed, factor: Fixed, count: usize) -> (r: Option<Vec<Fixed>>)
    ensures
        r is Some <==> exponential_fits(start, factor, count as nat),
        r matches Some(v) ==> v@.len() == count && forall|i: int| 0 <= i < count ==>
            #[trigger] v@[i].nanos == exponential_at(start.nanos as int, factor.nanos as int, i as nat),
        r matches Some(v) ==> (rises(start, factor) ==> strictly_ascending(v@)),
{
    let ghost a = start.nanos as int;
    let ghost f = factor.nanos as int;
    let mut r: Vec<Fixed> = Vec::new();
    let mut current: i64 = start.nanos;
    let mut i: usize = 0;
    while i < count
        invariant
            i <= count,
            r@.len() == i,
            a == start.nanos as int,
            f == factor.nanos as int,
            i < count ==> current == exponential_at(a, f, i as nat),
            forall|k: nat| k <= i && k < count ==> fits_i64(#[trigger] exponential_at(a, f, k)),
            rises(start, factor) ==> forall|k: nat| k <= i && k < count ==> #[trigger] exponential_at(a, f, k) >= a,
            rises(start, factor) ==> forall|k: nat| k + 1 <= i && k + 1 < count ==>
                #[trigger] exponential_at(a, f, k) < exponential_at(a, f, k + 1),
            forall|j: int| 0 <= j < i ==> #[trigger] r@[j].nanos == exponential_at(a, f, j as nat),
        decreases count - i,
    {
        r.push(Fixed { nanos: current });
        if i + 1 < count {
            let next = mul_fixed(current, factor.nanos);
            assert(exponential_at(a, f, (i + 1) as nat) == fixed_mul(exponential_at(a, f, i as nat), f));
            if next < i64::MIN as i128 || next > i64::MAX as i128 {
                assert(!fits_i64(exponential_at(a, f, (i + 1) as nat)));
                assert(!exponential_fits(start, factor, count as nat));
                return None;
            }
            proof {
                if rises(start, factor) {
                    lemma_step_rises(a, f, exponential_at(a, f, i as nat));
                    assert(exponential_at(a, f, i as nat) < exponential_at(a, f, (i as nat + 1) as nat));
                }
            }
            current = next as i64;
        }
        i = i + 1;
    }
    proof {
        if rises(start, factor) {
            assert forall|j: int| 0 <= j < r@.len() - 1 implies #[trigger] r@[j].nanos < r@[j + 1].nanos by {
                assert(exponential_at(a, f, j as nat) < exponential_at(a, f, (j as nat + 1) as nat));
            }
        }
    }
    Some(r)
}

/// `count` boundaries `start, start * factor, start * factor^2, ...`, each
/// product truncated to nine fractional digits. Where the truncated
/// products rise from the first step on, the result is strictly ascending;
/// otherwise it may repeat a boundary, which `validate_histogram_buckets`
/// reports.
pub fn exponential_buckets(start: Fixed, factor: Fixed, count: usize) -> (r: Vec<Fixed>)
    requires
        exponential_fits(start, factor, count as nat),
    ensures
        r@.len() == count,
        forall|i: int| 0 <= i < count ==> #[trigger] r@[i].nanos == exponential_at(start.nanos as int, factor.nanos as int, i as nat),
        rises(start, factor) ==> strictly_ascending(r@),
{
    match checked_exponential_buckets(start, factor, count) {
        Some(v) => v,
        None => Vec::new(),
    }
}

} // verus!
