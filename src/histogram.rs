//! Fixed-boundary histograms keyed by a label set.
use vstd::prelude::*;
use crate::buckets::strictly_ascending;
use crate::labels::LabelSet;
use crate::number::Fixed;

verus! {

/// Magnitude bound of one observation, in parts of `1 / SCALE`.
pub const OBSERVATION_BOUND: i128 = 0x8000_0000_0000_0000;

/// The sum of all counts in a sequence.
pub open spec fn total(s: Seq<u64>) -> int
    decreases s.len(),
{
    if s.len() == 0 {
        0
    } else {
        total(s.drop_last()) + s.last()
    }
}

/// The cumulative count of bucket `i`: the counts of buckets `0..=i`.
pub open spec fn cumulative(s: Seq<u64>, i: int) -> int {
    total(s.take(i + 1))
}

/// The bucket that an observation falls in: the first whose boundary is at
/// least the value, or the number of boundaries where none is.
pub open spec fn bucket_of(b: Seq<Fixed>, v: int) -> int
    decreases b.len(),
{
    if b.len() == 0 {
        0
    } else if v <= b[0].nanos {
        0
    } else {
        1 + bucket_of(b.drop_first(), v)
    }
}

/// Per-bucket counts after one observation lands in bucket `slot`; an
/// observation above every boundary changes none of them.
pub open spec fn bumped(counts: Seq<u64>, slot: int) -> Seq<u64> {
    if 0 <= slot < counts.len() {
        counts.update(slot, (counts[slot] + 1) as u64)
    } else {
        counts
    }
}

/// One observation: a number, or a value that is no finite number.
#[derive(Clone, Copy, Debug, PartialEq, Eq, Structural)]
pub enum Sample {
    Value(Fixed),
    PosInf,
    NegInf,
    NaN,
}

/// A running sum of observations, which an infinite or undefined
/// observation leaves infinite or undefined as floating-point addition does.
#[derive(Clone, Copy, Debug, PartialEq, Eq, Structural)]
pub enum Total {
    /// A finite sum, in parts of `1 / SCALE`.
    Finite(i128),
    PosInf,
    NegInf,
    NaN,
}

/// The sum after one more observation: an undefined term or opposite
/// infinities give an undefined sum, an infinity otherwise stays.
pub open spec fn added(t: Total, s: Sample) -> Total {
    match (t, s) {
        (Total::NaN, _) => Total::NaN,
        (_, Sample::NaN) => Total::NaN,
        (Total::Finite(a), Sample::Value(v)) => Total::Finite((a + v.nanos) as i128),
        (Total::Finite(_), Sample::PosInf) => Total::PosInf,
        (Total::Finite(_), Sample::NegInf) => Total::NegInf,
        (Total::PosInf, Sample::NegInf) => Total::NaN,
        (Total::PosInf, _) => Total::PosInf,
        (Total::NegInf, Sample::PosInf) => Total::NaN,
        (Total::NegInf, _) => Total::NegInf,
    }
}

/// The bucket of a sample: that of its value; the first for minus
/// infinity; none for plus infinity or an undefined value.
pub open spec fn slot_of(b: Seq<Fixed>, s: Sample) -> int {
    match s {
        Sample::Value(v) => bucket_of(b, v.nanos as int),
        Sample::NegInf => 0,
        _ => b.len() as int,
    }
}

/// The aggregate of all observations of one label.
#[derive(Clone, Debug)]
pub struct HistogramData {
    /// Observations per bucket (not cumulative).
    pub counts: Vec<u64>,
    /// Number of observations.
    pub count: u64,
    /// Sum of the observations.
    pub sum: Total,
}

impl HistogramData {
    /// Counts for `n` buckets, no more bucketed observations than observed
    /// ones, and a sum that each observation moved by at most its bound.
    pub open spec fn wf(&self, n: nat) -> bool {
        &&& self.counts@.len() == n
        &&& total(self.counts@) <= self.count
        &&& self.sum matches Total::Finite(x) ==> -(self.count * OBSERVATION_BOUND) <= x <= self.count * OBSERVATION_BOUND
    }

    /// No observations over `n` buckets.
    pub fn zeroed(n: usize) -> (r: HistogramData)
        ensures
            r.counts@ == Seq::new(n as nat, |i: int| 0u64),
            r.count == 0,
            r.sum == Total::Finite(0),
            r.wf(n as nat),
    {
        let mut counts: Vec<u64> = Vec::new();
        let mut i: usize = 0;
        while i < n
            invariant
                i <= n,
                counts@ == Seq::new(i as nat, |k: int| 0u64),
            decreases n - i,
        {
            counts.push(0);
            i = i + 1;
            assert(counts@ =~= Seq::new(i as nat, |k: int| 0u64));
        }
        proof { lemma_total_zero(counts@); }
        HistogramData { counts, count: 0, sum: Total::Finite(0) }
    }

    /// Records one observation against the given boundaries.
    pub fn record(&mut self, buckets: &Vec<Fixed>, value: Sample)
        requires
            old(self).wf(buckets@.len()),
            old(self).count < u64::MAX,
        ensures
            final(self).wf(buckets@.len()),
            final(self).counts@ == bumped(old(self).counts@, slot_of(buckets@, value)),
            final(self).count == old(self).count + 1,
            final(self).sum == added(old(self).sum, value),
    {
        let i = find_slot(buckets, value);
        if i < buckets.len() {
            proof {
                lemma_total_ge_each(self.counts@, i as int);
                lemma_total_bump(self.counts@, i as int);
            }
            let c = self.counts[i];
            self.counts.set(i, c + 1);
        }
        self.count = self.count + 1;
        self.sum = match (self.sum, value) {
            (Total::NaN, _) => Total::NaN,
            (_, Sample::NaN) => Total::NaN,
            (Total::Finite(a), Sample::Value(v)) => Total::Finite(a + v.nanos as i128),
            (Total::Finite(_), Sample::PosInf) => Total::PosInf,
            (Total::Finite(_), Sample::NegInf) => Total::NegInf,
            (Total::PosInf, Sample::NegInf) => Total::NaN,
            (Total::PosInf, _) => Total::PosInf,
            (Total::NegInf, Sample::PosInf) => Total::NaN,
            (Total::NegInf, _) => Total::NegInf,
        };
    }
}

fn find_slot(buckets: &Vec<Fixed>, value: Sample) -> (r: usize)
    ensures
        r == slot_of(buckets@, value),
{
    match value {
        Sample::Value(v) => {
            let mut i: usize = 0;
            while i < buckets.len() && buckets[i].nanos < v.nanos
                invariant
                    i <= buckets@.len(),
                    forall|j: int| 0 <= j < i ==> #[trigger] buckets@[j].nanos < v.nanos,
                decreases buckets.len() - i,
            {
                i = i + 1;
            }
            proof { lemma_bucket_of(buckets@, v.nanos as int, i as int); }
            i
        },
        Sample::NegInf => 0,
        _ => buckets.len(),
    }
}

/// A histogram: fixed boundaries, and for each label set seen so far the
/// aggregate of its observations.
#[derive(Debug)]
pub struct Histogram {
    /// Upper bounds of the buckets, strictly ascending, fixed at construction.
    buckets: Vec<Fixed>,
    /// One entry per distinct label set, in order of first observation.
    data: Vec<(LabelSet, HistogramData)>,
}

impl Histogram {
    /// The bucket boundaries.
    pub closed spec fn bounds(&self) -> Seq<Fixed> {
        self.buckets@
    }

    /// The entries, one per label set observed.
    pub closed spec fn entries(&self) -> Seq<(LabelSet, HistogramData)> {
        self.data@
    }

    /// The entries, one per label set observed, in order of first
    /// observation.
    pub fn data(&self) -> (r: &Vec<(LabelSet, HistogramData)>)
        ensures
            r@ == self.entries(),
    {
        &self.data
    }

    /// The bucket boundaries.
    pub fn buckets(&self) -> (r: &Vec<Fixed>)
        ensures
            r@ == self.bounds(),
    {
        &self.buckets
    }

    /// Ascending boundaries, well-formed aggregates, and no label set twice.
    pub open spec fn wf(&self) -> bool {
        &&& strictly_ascending(self.bounds())
        &&& forall|i: int| 0 <= i < self.entries().len() ==> (#[trigger] self.entries()[i]).1.wf(self.bounds().len())
        &&& forall|i: int, j: int|
            0 <= i < j < self.entries().len() ==> (#[trigger] self.entries()[i]).0@ != (#[trigger] self.entries()[j]).0@
    }

    #[verifier::type_invariant]
    pub(crate) open spec fn inv(&self) -> bool {
        self.wf()
    }

    /// Whether the label set has an entry.
    pub open spec fn has_label(&self, label: Seq<(Seq<char>, Seq<char>)>) -> bool {
        exists|i: int| 0 <= i < self.entries().len() && (#[trigger] self.entries()[i]).0@ == label
    }

    /// An empty histogram over validated boundaries.
    pub fn new(buckets: Vec<Fixed>) -> (r: Histogram)
        requires
            strictly_ascending(buckets@),
        ensures
            r.wf(),
            r.bounds() == buckets@,
            r.entries().len() == 0,
    {
        Histogram { buckets, data: Vec::new() }
    }

    /// The position of the entry of a label set.
    pub fn find(&self, label: &LabelSet) -> (r: Option<usize>)
        ensures
            r matches Some(i) ==> i < self.entries().len() && self.entries()[i as int].0@ == label@,
            r is None ==> !self.has_label(label@),
    {
        let mut i: usize = 0;
        while i < self.data.len()
            invariant
                i <= self.entries().len(),
                forall|j: int| 0 <= j < i ==> (#[trigger] self.entries()[j]).0@ != label@,
            decreases self.data.len() - i,
        {
            if self.data[i].0.same_as(label) {
                return Some(i);
            }
            i = i + 1;
        }
        None
    }

    /// The aggregate of a label set, if it has been observed.
    pub fn get(&self, label: &LabelSet) -> (r: Option<&HistogramData>)
        ensures
            r is None <==> !self.has_label(label@),
            r matches Some(d) ==> exists|i: int|
                0 <= i < self.entries().len() && (#[trigger] self.entries()[i]).0@ == label@ && self.entries()[i].1 == *d,
    {
        proof { use_type_invariant(self); }
        match self.find(label) {
            Some(i) => Some(&self.data[i].1),
            None => None,
        }
    }

    /// What one observation of `s` under `label` does: the label's entry is
    /// created, zeroed, on its first observation; its count goes up by one,
    /// its sum takes the sample, and the first bucket whose boundary is at
    /// least the sample goes up by one (none, where the sample is above every
    /// boundary or undefined). Nothing else changes.
    pub open spec fn observed(
        before: Histogram,
        after: Histogram,
        label: Seq<(Seq<char>, Seq<char>)>,
        s: Sample,
    ) -> bool {
        let slot = slot_of(before.bounds(), s);
        let n = before.bounds().len();
        &&& after.bounds() == before.bounds()
        &&& if before.has_label(label) {
            &&& after.entries().len() == before.entries().len()
            &&& forall|i: int| 0 <= i < before.entries().len() ==> {
                let (l0, d0) = #[trigger] before.entries()[i];
                let (l1, d1) = after.entries()[i];
                if l0@ == label {
                    &&& l1 == l0
                    &&& d1.counts@ == bumped(d0.counts@, slot)
                    &&& d1.count == d0.count + 1
                    &&& d1.sum == added(d0.sum, s)
                } else {
                    after.entries()[i] == before.entries()[i]
                }
            }
        } else {
            let (l1, d1) = after.entries().last();
            &&& after.entries().drop_last() == before.entries()
            &&& after.entries().len() == before.entries().len() + 1
            &&& l1@ == label
            &&& d1.counts@ == bumped(Seq::new(n, |k: int| 0u64), slot)
            &&& d1.count == 1
            &&& d1.sum == added(Total::Finite(0), s)
        }
    }

    /// Records a number under `label`, as `observed` says.
    pub fn observe(&mut self, label: LabelSet, value: Fixed)
        requires
            forall|i: int| 0 <= i < old(self).entries().len() && (#[trigger] old(self).entries()[i]).0@ == label@
                ==> old(self).entries()[i].1.count < u64::MAX,
        ensures
            final(self).wf(),
            Histogram::observed(*old(self), *final(self), label@, Sample::Value(value)),
    {
        self.observe_sample(label, Sample::Value(value));
    }

    /// Records a sample, finite or not, under `label`, as `observed` says.
    pub fn observe_sample(&mut self, label: LabelSet, value: Sample)
        requires
            forall|i: int| 0 <= i < old(self).entries().len() && (#[trigger] old(self).entries()[i]).0@ == label@
                ==> old(self).entries()[i].1.count < u64::MAX,
        ensures
            final(self).wf(),
            Histogram::observed(*old(self), *final(self), label@, value),
    {
        proof { use_type_invariant(&*self); }
        let n = self.buckets.len();
        let found = self.find(&label);
        let mut data: Vec<(LabelSet, HistogramData)> = Vec::new();
        std::mem::swap(&mut data, &mut self.data);
        assert(data@ == old(self).entries());
        match found {
            Some(i) => {
                let mut entry = (LabelSet::empty(), HistogramData::zeroed(0));
                data.set_and_swap(i, &mut entry);
                entry.1.record(&self.buckets, value);
                data.set_and_swap(i, &mut entry);
                proof {
                    assert forall|j: int| 0 <= j < i implies old(self).entries()[j].0@ != label@ by {
                        if old(self).entries()[j].0@ == label@ {
                            assert(old(self).entries()[j].0@ != old(self).entries()[i as int].0@);
                        }
                    }
                    assert forall|j: int| i < j < old(self).entries().len() implies old(self).entries()[j].0@ != label@ by {
                        if old(self).entries()[j].0@ == label@ {
                            assert(old(self).entries()[i as int].0@ != old(self).entries()[j].0@);
                        }
                    }
                }
            },
            None => {
                let mut d = HistogramData::zeroed(n);
                d.record(&self.buckets, value);
                data.push((label, d));
                proof {
                    assert(data@.drop_last() =~= old(self).entries());
                }
            },
        }
        self.data = data;
    }
}

proof fn lemma_total_zero(s: Seq<u64>)
    requires
        forall|i: int| 0 <= i < s.len() ==> s[i] == 0,
    ensures
        total(s) == 0,
    decreases s.len(),
{
    if s.len() > 0 {
        lemma_total_zero(s.drop_last());
    }
}

/// A count is never more than the total of the counts.
pub proof fn lemma_total_ge_each(s: Seq<u64>, k: int)
    requires
        0 <= k < s.len(),
    ensures
        s[k] <= total(s),
    decreases s.len(),
{
    if k < s.len() - 1 {
        lemma_total_ge_each(s.drop_last(), k);
    }
    lemma_total_nonneg(s.drop_last());
}

/// A total of counts is never negative.
pub proof fn lemma_total_nonneg(s: Seq<u64>)
    ensures
        total(s) >= 0,
    decreases s.len(),
{
    if s.len() > 0 {
        lemma_total_nonneg(s.drop_last());
    }
}

proof fn lemma_total_bump(s: Seq<u64>, k: int)
    requires
        0 <= k < s.len(),
        s[k] < u64::MAX,
    ensures
        total(s.update(k, (s[k] + 1) as u64)) == total(s) + 1,
    decreases s.len(),
{
    let t = s.update(k, (s[k] + 1) as u64);
    if k < s.len() - 1 {
        lemma_total_bump(s.drop_last(), k);
        assert(t.drop_last() =~= s.drop_last().update(k, (s[k] + 1) as u64));
    } else {
        assert(t.drop_last() =~= s.drop_last());
    }
}

proof fn lemma_bucket_of(b: Seq<Fixed>, v: int, i: int)
    requires
        0 <= i <= b.len(),
        forall|j: int| 0 <= j < i ==> #[trigger] b[j].nanos < v,
        i < b.len() ==> v <= b[i].nanos,
    ensures
        bucket_of(b, v) == i,
    decreases b.len(),
{
    if b.len() > 0 && i > 0 {
        let t = b.drop_first();
        assert forall|j: int| 0 <= j < i - 1 implies #[trigger] t[j].nanos < v by {
            assert(b[j + 1].nanos < v);
        }
        lemma_bucket_of(t, v, i - 1);
    }
}

} // verus!
