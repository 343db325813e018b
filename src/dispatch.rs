//! Choosing how a metric value is rendered, by what the value can do.
use vstd::prelude::*;
use crate::histogram::Histogram;
use crate::labels::{LabelSet, pairs_view};
use crate::render::{
    MetricMetadata, histogram_text, keyed_view, multi_label_text, render_histogram_text,
    render_multi_label, render_scalar_text, render_single_label, scalar_text, single_label_text,
};

verus! {

/// The value of one metric field.
#[derive(Debug)]
pub enum MetricValue {
    /// A value with only a textual form.
    Scalar(String),
    /// Pairs of a key with a textual form and a value.
    Labeled(Vec<(String, String)>),
    /// Pairs of a key made of several named labels and a value.
    Keyed(Vec<(LabelSet, String)>),
    /// A histogram.
    Histogram(Histogram),
}

/// What a value can do: be rendered as a histogram, be walked as key/value
/// pairs, and (for pairs) have keys made of several named labels.
#[derive(Clone, Copy, Debug, PartialEq, Eq, Structural)]
pub struct Shape {
    pub histogram: bool,
    pub pairs: bool,
    pub struct_key: bool,
}

/// How a value is written out.
#[derive(Clone, Copy, Debug, PartialEq, Eq, Structural)]
pub enum Strategy {
    Histogram,
    MultiLabel,
    SingleLabel,
    Scalar,
}

/// The precedence of strategies: a histogram before pairs, keys made of
/// several labels before keys with one textual form, and a bare scalar last.
pub open spec fn strategy_for(s: Shape) -> Strategy {
    if s.histogram {
        Strategy::Histogram
    } else if s.pairs {
        if s.struct_key { Strategy::MultiLabel } else { Strategy::SingleLabel }
    } else {
        Strategy::Scalar
    }
}

/// Picks the strategy for a shape, by the fixed precedence.
pub fn select_strategy(s: Shape) -> (r: Strategy)
    ensures
        r == strategy_for(s),
{
    if s.histogram {
        Strategy::Histogram
    } else if s.pairs {
        if s.struct_key { Strategy::MultiLabel } else { Strategy::SingleLabel }
    } else {
        Strategy::Scalar
    }
}

/// Why a field cannot be rendered.
#[derive(Clone, Copy, Debug, PartialEq, Eq, Structural)]
pub enum RenderError {
    /// Pairs with single-textual keys were given no label name.
    MissingLabelName,
}

/// The label name of a field, if it has one.
pub open spec fn label_view(l: Option<String>) -> Option<Seq<char>> {
    match l {
        Some(s) => Some(s@),
        None => None,
    }
}

impl MetricValue {
    /// The capabilities of each kind of value.
    pub open spec fn shape_of(&self) -> Shape {
        match self {
            MetricValue::Scalar(_) => Shape { histogram: false, pairs: false, struct_key: false },
            MetricValue::Labeled(_) => Shape { histogram: false, pairs: true, struct_key: false },
            MetricValue::Keyed(_) => Shape { histogram: false, pairs: true, struct_key: true },
            MetricValue::Histogram(_) => Shape { histogram: true, pairs: false, struct_key: false },
        }
    }

    /// The value's capabilities.
    pub fn shape(&self) -> (r: Shape)
        ensures
            r == self.shape_of(),
    {
        match self {
            MetricValue::Scalar(_) => Shape { histogram: false, pairs: false, struct_key: false },
            MetricValue::Labeled(_) => Shape { histogram: false, pairs: true, struct_key: false },
            MetricValue::Keyed(_) => Shape { histogram: false, pairs: true, struct_key: true },
            MetricValue::Histogram(_) => Shape { histogram: true, pairs: false, struct_key: false },
        }
    }
}

/// The text of a field, or `None` where pairs with single-textual keys have
/// no label name.
pub open spec fn field_text(v: MetricValue, meta: MetricMetadata, label: Option<Seq<char>>) -> Option<Seq<char>> {
    match v {
        MetricValue::Histogram(h) => Some(histogram_text(meta, h)),
        MetricValue::Keyed(p) => Some(multi_label_text(meta, keyed_view(p@))),
        MetricValue::Labeled(p) => match label {
            Some(l) => Some(single_label_text(meta, l, pairs_view(p@))),
            None => None,
        },
        MetricValue::Scalar(s) => Some(scalar_text(meta, s@)),
    }
}

/// Renders a field by the strategy its value's shape selects; a label name
/// is used only by pairs with single-textual keys, which need one.
pub fn render_field(value: &MetricValue, meta: &MetricMetadata, label_name: &Option<String>) -> (r: Result<String, RenderError>)
    ensures
        r is Ok <==> field_text(*value, *meta, label_view(*label_name)) is Some,
        r matches Ok(t) ==> field_text(*value, *meta, label_view(*label_name)) == Some(t@),
        r matches Err(e) ==> e == RenderError::MissingLabelName,
{
    match value {
        MetricValue::Histogram(h) => Ok(render_histogram_text(meta, h)),
        MetricValue::Keyed(p) => Ok(render_multi_label(meta, p)),
        MetricValue::Labeled(p) => match label_name {
            Some(l) => Ok(render_single_label(meta, l, p)),
            None => Err(RenderError::MissingLabelName),
        },
        MetricValue::Scalar(s) => Ok(render_scalar_text(meta, s)),
    }
}

/// A field is rendered by the strategy that the precedence picks for its
/// value's shape: a histogram as a histogram, pairs with multi-label keys
/// in multi-label form, pairs with single-textual keys under the label name
/// (and not at all without one), and anything else as a bare scalar.
pub proof fn lemma_rendered_by_strategy(v: MetricValue, meta: MetricMetadata, label: Option<Seq<char>>)
    ensures
        strategy_for(v.shape_of()) == Strategy::Histogram ==> v is Histogram
            && field_text(v, meta, label) == Some(histogram_text(meta, v->Histogram_0)),
        strategy_for(v.shape_of()) == Strategy::MultiLabel ==> v is Keyed
            && field_text(v, meta, label) == Some(multi_label_text(meta, keyed_view(v->Keyed_0@))),
        strategy_for(v.shape_of()) == Strategy::SingleLabel ==> v is Labeled
            && field_text(v, meta, label) == match label {
                Some(l) => Some(single_label_text(meta, l, pairs_view(v->Labeled_0@))),
                None => None,
            },
        strategy_for(v.shape_of()) == Strategy::Scalar ==> v is Scalar
            && field_text(v, meta, label) == Some(scalar_text(meta, v->Scalar_0@)),
{
}

} // verus!
