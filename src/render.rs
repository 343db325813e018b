//! Rendering of metric values into the Prometheus text exposition format.
use vstd::prelude::*;
use crate::histogram::{Histogram, HistogramData, OBSERVATION_BOUND, Total, cumulative, lemma_total_nonneg, total};
use crate::labels::{LabelSet, labels_text, pair_text, pairs_view, push_labels, push_pair};
use crate::number::{Fixed, fixed_text, push_fixed};
use crate::text::{decimal, push_decimal, push_str};

verus! {

/// The lines of a sequence, each already ending in a newline, joined.
pub open spec fn joined(ls: Seq<Seq<char>>) -> Seq<char>
    decreases ls.len(),
{
    if ls.len() == 0 {
        Seq::empty()
    } else {
        joined(ls.drop_last()) + ls.last()
    }
}

/// The type of a metric, as written on its `# TYPE` line.
#[derive(Clone, Copy, Debug, PartialEq, Eq, Structural)]
pub enum MetricKind {
    Counter,
    Gauge,
    Histogram,
}

/// `counter`, `gauge` or `histogram`.
pub open spec fn kind_text(k: MetricKind) -> Seq<char> {
    match k {
        MetricKind::Counter => "counter"@,
        MetricKind::Gauge => "gauge"@,
        MetricKind::Histogram => "histogram"@,
    }
}

impl MetricKind {
    /// The kind's name in the exposition format.
    pub fn as_str(&self) -> (r: &'static str)
        ensures
            r@ == kind_text(*self),
    {
        match self {
            MetricKind::Counter => "counter",
            MetricKind::Gauge => "gauge",
            MetricKind::Histogram => "histogram",
        }
    }
}

/// Name, help text and kind of one metric.
#[derive(Clone, Debug)]
pub struct MetricMetadata {
    pub name: String,
    pub help: String,
    pub kind: MetricKind,
}

/// `# HELP <name> <help>` and `# TYPE <name> <kind>`, each on its own line.
pub open spec fn header(name: Seq<char>, help: Seq<char>, kind: Seq<char>) -> Seq<char> {
    "# HELP "@ + name + " "@ + help + "\n"@ + "# TYPE "@ + name + " "@ + kind + "\n"@
}

/// The header of a metric.
pub open spec fn meta_header(meta: MetricMetadata) -> Seq<char> {
    header(meta.name@, meta.help@, kind_text(meta.kind))
}

/// `<name> <value>`: a metric with no labels.
pub open spec fn scalar_text(meta: MetricMetadata, value: Seq<char>) -> Seq<char> {
    meta_header(meta) + meta.name@ + " "@ + value + "\n"@
}

/// `<name>{<labels>} <value>`.
pub open spec fn sample_line(name: Seq<char>, labels: Seq<char>, value: Seq<char>) -> Seq<char> {
    name + "{"@ + labels + "} "@ + value + "\n"@
}

/// One sample per pair, labelled `<label_name>="<escaped key>"`, in the
/// pairs' order.
pub open spec fn single_label_text(
    meta: MetricMetadata,
    label_name: Seq<char>,
    pairs: Seq<(Seq<char>, Seq<char>)>,
) -> Seq<char> {
    meta_header(meta) + joined(
        pairs.map_values(|p: (Seq<char>, Seq<char>)| sample_line(meta.name@, pair_text((label_name, p.0)), p.1)),
    )
}

/// Label sets and sample values, as the views of keyed pairs.
pub open spec fn keyed_view(v: Seq<(LabelSet, String)>) -> Seq<(Seq<(Seq<char>, Seq<char>)>, Seq<char>)> {
    v.map_values(|p: (LabelSet, String)| (p.0@, p.1@))
}

/// One sample per pair, labelled by every label of its key in declared
/// order, in the pairs' order.
pub open spec fn multi_label_text(
    meta: MetricMetadata,
    pairs: Seq<(Seq<(Seq<char>, Seq<char>)>, Seq<char>)>,
) -> Seq<char> {
    meta_header(meta) + joined(
        pairs.map_values(|p: (Seq<(Seq<char>, Seq<char>)>, Seq<char>)| sample_line(meta.name@, labels_text(p.0), p.1)),
    )
}

/// Appends the header of a metric.
pub fn push_header(out: &mut String, meta: &MetricMetadata)
    ensures
        final(out)@ == old(out)@ + meta_header(*meta),
{
    push_str(out, "# HELP ");
    push_str(out, meta.name.as_str());
    push_str(out, " ");
    push_str(out, meta.help.as_str());
    push_str(out, "\n");
    push_str(out, "# TYPE ");
    push_str(out, meta.name.as_str());
    push_str(out, " ");
    push_str(out, meta.kind.as_str());
    push_str(out, "\n");
    assert(final(out)@ =~= old(out)@ + meta_header(*meta));
}

proof fn lemma_joined_step(ls: Seq<Seq<char>>, i: int)
    requires
        0 <= i < ls.len(),
    ensures
        joined(ls.take(i + 1)) == joined(ls.take(i)) + ls[i],
{
    assert(ls.take(i + 1).drop_last() =~= ls.take(i));
}

/// Renders a metric with no labels.
pub fn render_scalar_text(meta: &MetricMetadata, value: &String) -> (r: String)
    ensures
        r@ == scalar_text(*meta, value@),
{
    let mut out = String::new();
    push_header(&mut out, meta);
    push_str(&mut out, meta.name.as_str());
    push_str(&mut out, " ");
    push_str(&mut out, value.as_str());
    push_str(&mut out, "\n");
    assert(out@ =~= scalar_text(*meta, value@));
    out
}

/// Renders pairs of a key and a value under one named label.
pub fn render_single_label(meta: &MetricMetadata, label_name: &String, pairs: &Vec<(String, String)>) -> (r: String)
    ensures
        r@ == single_label_text(*meta, label_name@, pairs_view(pairs@)),
{
    let ghost ls = pairs_view(pairs@).map_values(
        |p: (Seq<char>, Seq<char>)| sample_line(meta.name@, pair_text((label_name@, p.0)), p.1),
    );
    let mut out = String::new();
    push_header(&mut out, meta);
    let ghost start = out@;
    let mut i: usize = 0;
    while i < pairs.len()
        invariant
            i <= pairs.len(),
            ls.len() == pairs@.len(),
            ls == pairs_view(pairs@).map_values(
                |p: (Seq<char>, Seq<char>)| sample_line(meta.name@, pair_text((label_name@, p.0)), p.1),
            ),
            start == meta_header(*meta),
            out@ == start + joined(ls.take(i as int)),
        decreases pairs.len() - i,
    {
        let ghost before = out@;
        push_str(&mut out, meta.name.as_str());
        push_str(&mut out, "{");
        push_pair(&mut out, label_name, &pairs[i].0);
        push_str(&mut out, "} ");
        push_str(&mut out, pairs[i].1.as_str());
        push_str(&mut out, "\n");
        proof {
            lemma_joined_step(ls, i as int);
            assert(out@ =~= before + ls[i as int]);
        }
        i = i + 1;
    }
    assert(ls.take(pairs.len() as int) =~= ls);
    out
}

/// Renders pairs of a label set and a value, each sample labelled by the
/// whole set.
pub fn render_multi_label(meta: &MetricMetadata, pairs: &Vec<(LabelSet, String)>) -> (r: String)
    ensures
        r@ == multi_label_text(*meta, keyed_view(pairs@)),
{
    let ghost ls = keyed_view(pairs@).map_values(
        |p: (Seq<(Seq<char>, Seq<char>)>, Seq<char>)| sample_line(meta.name@, labels_text(p.0), p.1),
    );
    let mut out = String::new();
    push_header(&mut out, meta);
    let ghost start = out@;
    let mut i: usize = 0;
    while i < pairs.len()
        invariant
            i <= pairs.len(),
            ls.len() == pairs@.len(),
            ls == keyed_view(pairs@).map_values(
                |p: (Seq<(Seq<char>, Seq<char>)>, Seq<char>)| sample_line(meta.name@, labels_text(p.0), p.1),
            ),
            start == meta_header(*meta),
            out@ == start + joined(ls.take(i as int)),
        decreases pairs.len() - i,
    {
        let ghost before = out@;
        push_str(&mut out, meta.name.as_str());
        push_str(&mut out, "{");
        push_labels(&mut out, &pairs[i].0.pairs);
        push_str(&mut out, "} ");
        push_str(&mut out, pairs[i].1.as_str());
        push_str(&mut out, "\n");
        proof {
            lemma_joined_step(ls, i as int);
            assert(out@ =~= before + ls[i as int]);
        }
        i = i + 1;
    }
    assert(ls.take(pairs.len() as int) =~= ls);
    out
}

/// The text of a sum: its decimal text, or `inf`, `-inf` or `NaN`.
pub open spec fn total_text(t: Total) -> Seq<char> {
    match t {
        Total::Finite(n) => fixed_text(n as int),
        Total::PosInf => "inf"@,
        Total::NegInf => "-inf"@,
        Total::NaN => "NaN"@,
    }
}

/// Appends the text of a sum whose finite value is above `i128::MIN`.
fn push_total(out: &mut String, t: Total)
    requires
        t matches Total::Finite(n) ==> n > i128::MIN,
    ensures
        final(out)@ == old(out)@ + total_text(t),
{
    match t {
        Total::Finite(n) => push_fixed(out, n),
        Total::PosInf => push_str(out, "inf"),
        Total::NegInf => push_str(out, "-inf"),
        Total::NaN => push_str(out, "NaN"),
    }
}

/// The labels of a histogram sample ahead of `le`: none, or the label set
/// followed by a comma.
pub open spec fn le_prefix(labels: Seq<(Seq<char>, Seq<char>)>) -> Seq<char> {
    if labels.len() == 0 {
        Seq::empty()
    } else {
        labels_text(labels) + ","@
    }
}

/// `<name>_bucket{<labels>,le="<bound>"} <n>`.
pub open spec fn bucket_line(name: Seq<char>, prefix: Seq<char>, bound: Seq<char>, n: int) -> Seq<char> {
    name + "_bucket{"@ + prefix + "le=\""@ + bound + "\"} "@ + decimal(n as nat) + "\n"@
}

/// One bucket line per boundary, ascending, each with its cumulative count.
pub open spec fn bucket_lines(
    name: Seq<char>,
    labels: Seq<(Seq<char>, Seq<char>)>,
    b: Seq<Fixed>,
    counts: Seq<u64>,
) -> Seq<Seq<char>> {
    Seq::new(
        b.len(),
        |i: int| bucket_line(name, le_prefix(labels), fixed_text(b[i].nanos as int), cumulative(counts, i)),
    )
}

/// `<name>_sum{<labels>} <sum>`.
pub open spec fn sum_line(name: Seq<char>, labels: Seq<(Seq<char>, Seq<char>)>, d: HistogramData) -> Seq<char> {
    name + "_sum{"@ + labels_text(labels) + "} "@ + total_text(d.sum) + "\n"@
}

/// `<name>_count{<labels>} <count>`.
pub open spec fn count_line(name: Seq<char>, labels: Seq<(Seq<char>, Seq<char>)>, d: HistogramData) -> Seq<char> {
    name + "_count{"@ + labels_text(labels) + "} "@ + decimal(d.count as nat) + "\n"@
}

/// The samples of one label set: its bucket lines, the `+Inf` bucket with
/// the total count, then `_sum` and `_count`.
pub open spec fn entry_text(
    name: Seq<char>,
    b: Seq<Fixed>,
    labels: Seq<(Seq<char>, Seq<char>)>,
    d: HistogramData,
) -> Seq<char> {
    joined(bucket_lines(name, labels, b, d.counts@))
        + bucket_line(name, le_prefix(labels), "+Inf"@, d.count as int)
        + sum_line(name, labels, d)
        + count_line(name, labels, d)
}

/// The header, then the samples of every label set in the histogram's order.
pub open spec fn histogram_text(meta: MetricMetadata, h: Histogram) -> Seq<char> {
    meta_header(meta) + joined(
        Seq::new(h.entries().len(), |i: int| entry_text(meta.name@, h.bounds(), h.entries()[i].0@, h.entries()[i].1)),
    )
}

/// A prefix of a sequence of counts totals no more than the whole.
pub proof fn lemma_total_prefix(s: Seq<u64>, k: int)
    requires
        0 <= k <= s.len(),
    ensures
        0 <= total(s.take(k)) <= total(s),
    decreases s.len() - k,
{
    lemma_total_nonneg(s.take(k));
    if k < s.len() {
        lemma_total_prefix(s, k + 1);
        assert(s.take(k + 1).drop_last() =~= s.take(k));
    } else {
        assert(s.take(k) =~= s);
    }
}

fn push_le_prefix(out: &mut String, labels: &LabelSet)
    ensures
        final(out)@ == old(out)@ + le_prefix(labels@),
{
    if labels.pairs.len() > 0 {
        push_labels(out, &labels.pairs);
        push_str(out, ",");
        assert(final(out)@ =~= old(out)@ + le_prefix(labels@));
    } else {
        assert(labels@.len() == 0);
        assert(final(out)@ =~= old(out)@ + le_prefix(labels@));
    }
}

fn push_bucket_line(out: &mut String, name: &String, labels: &LabelSet, bound: i64, n: u64)
    ensures
        final(out)@ == old(out)@ + bucket_line(name@, le_prefix(labels@), fixed_text(bound as int), n as int),
{
    push_str(out, name.as_str());
    push_str(out, "_bucket{");
    push_le_prefix(out, labels);
    push_str(out, "le=\"");
    push_fixed(out, bound as i128);
    push_str(out, "\"} ");
    push_decimal(out, n as u128);
    push_str(out, "\n");
    assert(final(out)@ =~= old(out)@ + bucket_line(name@, le_prefix(labels@), fixed_text(bound as int), n as int));
}

fn push_inf_line(out: &mut String, name: &String, labels: &LabelSet, n: u64)
    ensures
        final(out)@ == old(out)@ + bucket_line(name@, le_prefix(labels@), "+Inf"@, n as int),
{
    push_str(out, name.as_str());
    push_str(out, "_bucket{");
    push_le_prefix(out, labels);
    push_str(out, "le=\"");
    push_str(out, "+Inf");
    push_str(out, "\"} ");
    push_decimal(out, n as u128);
    push_str(out, "\n");
    assert(final(out)@ =~= old(out)@ + bucket_line(name@, le_prefix(labels@), "+Inf"@, n as int));
}

fn push_bucket_lines(out: &mut String, name: &String, buckets: &Vec<Fixed>, labels: &LabelSet, d: &HistogramData)
    requires
        d.wf(buckets@.len()),
    ensures
        final(out)@ == old(out)@ + joined(bucket_lines(name@, labels@, buckets@, d.counts@)),
{
    let ghost ls = bucket_lines(name@, labels@, buckets@, d.counts@);
    let mut cum: u64 = 0;
    let mut i: usize = 0;
    while i < buckets.len()
        invariant
            i <= buckets@.len(),
            d.wf(buckets@.len()),
            ls == bucket_lines(name@, labels@, buckets@, d.counts@),
            cum == total(d.counts@.take(i as int)),
            out@ == old(out)@ + joined(ls.take(i as int)),
        decreases buckets.len() - i,
    {
        proof {
            lemma_total_prefix(d.counts@, i as int + 1);
            assert(d.counts@.take(i as int + 1).drop_last() =~= d.counts@.take(i as int));
        }
        cum = cum + d.counts[i];
        push_bucket_line(out, name, labels, buckets[i].nanos, cum);
        proof {
            lemma_joined_step(ls, i as int);
        }
        i = i + 1;
    }
    assert(ls.take(buckets@.len() as int) =~= ls);
}

fn push_sum_and_count(out: &mut String, name: &String, labels: &LabelSet, d: &HistogramData)
    requires
        d.sum matches Total::Finite(x) ==> -(d.count * OBSERVATION_BOUND) <= x <= d.count * OBSERVATION_BOUND,
    ensures
        final(out)@ == old(out)@ + sum_line(name@, labels@, *d) + count_line(name@, labels@, *d),
{
    push_str(out, name.as_str());
    push_str(out, "_sum{");
    push_labels(out, &labels.pairs);
    push_str(out, "} ");
    push_total(out, d.sum);
    push_str(out, "\n");
    let ghost mid = out@;
    assert(mid =~= old(out)@ + sum_line(name@, labels@, *d));
    push_str(out, name.as_str());
    push_str(out, "_count{");
    push_labels(out, &labels.pairs);
    push_str(out, "} ");
    push_decimal(out, d.count as u128);
    push_str(out, "\n");
    assert(final(out)@ =~= mid + count_line(name@, labels@, *d));
}

#[verifier::rlimit(30)]
fn push_entry(out: &mut String, name: &String, buckets: &Vec<Fixed>, labels: &LabelSet, d: &HistogramData)
    requires
        d.wf(buckets@.len()),
    ensures
        final(out)@ == old(out)@ + entry_text(name@, buckets@, labels@, *d),
{
    push_bucket_lines(out, name, buckets, labels, d);
    push_inf_line(out, name, labels, d.count);
    push_sum_and_count(out, name, labels, d);
    assert(final(out)@ =~= old(out)@ + entry_text(name@, buckets@, labels@, *d));
}

/// Renders a histogram: the header, then for each label set its cumulative
/// bucket counts, `+Inf` bucket, sum and count.
pub fn render_histogram_text(meta: &MetricMetadata, h: &Histogram) -> (r: String)
    ensures
        r@ == histogram_text(*meta, *h),
{
    proof { use_type_invariant(h); }
    let ghost ls = Seq::new(
        h.entries().len(),
        |i: int| entry_text(meta.name@, h.bounds(), h.entries()[i].0@, h.entries()[i].1),
    );
    let mut out = String::new();
    push_header(&mut out, meta);
    let ghost start = out@;
    let mut i: usize = 0;
    while i < h.data().len()
        invariant
            i <= h.entries().len(),
            h.wf(),
            ls == Seq::new(
                h.entries().len(),
                |i: int| entry_text(meta.name@, h.bounds(), h.entries()[i].0@, h.entries()[i].1),
            ),
            start == meta_header(*meta),
            out@ == start + joined(ls.take(i as int)),
        decreases h.entries().len() - i,
    {
        push_entry(&mut out, &meta.name, h.buckets(), &h.data()[i].0, &h.data()[i].1);
        proof {
            lemma_joined_step(ls, i as int);
        }
        i = i + 1;
    }
    assert(ls.take(h.entries().len() as int) =~= ls);
    out
}

/// In a well-formed histogram the cumulative counts of each label set never
/// fall from one boundary to the next and never pass its total count; the
/// rendered samples of the label set are its bucket lines, each with the
/// cumulative count of its boundary, followed by the `+Inf` bucket carrying
/// the total count.
pub proof fn lemma_cumulative_counts(name: Seq<char>, h: Histogram, k: int, i: int, j: int)
    requires
        h.wf(),
        0 <= k < h.entries().len(),
        0 <= i <= j < h.bounds().len(),
    ensures
        ({
            let (labels, d) = h.entries()[k];
            &&& cumulative(d.counts@, i) <= cumulative(d.counts@, j) <= d.count
            &&& bucket_lines(name, labels@, h.bounds(), d.counts@)[i]
                == bucket_line(name, le_prefix(labels@), fixed_text(h.bounds()[i].nanos as int), cumulative(d.counts@, i))
            &&& entry_text(name, h.bounds(), labels@, d) == joined(bucket_lines(name, labels@, h.bounds(), d.counts@))
                + bucket_line(name, le_prefix(labels@), "+Inf"@, d.count as int)
                + sum_line(name, labels@, d)
                + count_line(name, labels@, d)
        }),
{
    let d = h.entries()[k].1;
    assert(d.wf(h.bounds().len()));
    let c = d.counts@;
    assert(c.take(j + 1).take(i + 1) =~= c.take(i + 1));
    lemma_total_prefix(c.take(j + 1), i + 1);
    lemma_total_prefix(c, j + 1);
}

} // verus!
