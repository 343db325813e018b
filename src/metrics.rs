//! Entry points for rendering one field, and a set of registered fields that
//! renders them all in order.
use vstd::prelude::*;
use crate::dispatch::{MetricValue, RenderError, field_text, label_view, render_field};
use crate::histogram::Histogram;
use crate::render::{MetricMetadata, histogram_text, joined, render_histogram_text, render_scalar_text, scalar_text};
use crate::text::push_str;

verus! {

/// A value that renders itself as a histogram.
pub trait HistogramMetric {
    /// The histogram's text under the given metadata.
    spec fn histogram_exposition(&self, meta: MetricMetadata) -> Seq<char>;

    fn render_histogram(&self, meta: &MetricMetadata) -> (r: String)
        ensures
            r@ == self.histogram_exposition(*meta),
    ;
}

impl HistogramMetric for Histogram {
    open spec fn histogram_exposition(&self, meta: MetricMetadata) -> Seq<char> {
        histogram_text(meta, *self)
    }

    fn render_histogram(&self, meta: &MetricMetadata) -> (r: String) {
        render_histogram_text(meta, self)
    }
}

/// A field's value, seen through the entry point that its configuration
/// picks.
pub struct MetricWrapper<'a>(pub &'a MetricValue);

impl<'a> MetricWrapper<'a> {
    /// `<name> <value>` under the header, for a value with only a textual
    /// form.
    pub fn render_scalar(&self, meta: &MetricMetadata) -> (r: String)
        requires
            self.0 is Scalar,
        ensures
            r@ == scalar_text(*meta, self.0->Scalar_0@),
    {
        match self.0 {
            MetricValue::Scalar(s) => render_scalar_text(meta, s),
            _ => String::new(),
        }
    }

    /// The histogram's text for a histogram; nothing for any other value.
    pub fn render_histogram(&self, meta: &MetricMetadata) -> (r: String)
        ensures
            self.0 is Histogram ==> r@ == histogram_text(*meta, self.0->Histogram_0),
            !(self.0 is Histogram) ==> r@ == Seq::<char>::empty(),
    {
        match self.0 {
            MetricValue::Histogram(h) => h.render_histogram(meta),
            _ => String::new(),
        }
    }

    /// Renders a field configured with a label name: pairs with
    /// single-textual keys are labelled with it; any other value is
    /// rendered as its shape selects.
    pub fn render_with_label_attr(&self, meta: &MetricMetadata, label_name: &str) -> (r: String)
        ensures
            field_text(*self.0, *meta, Some(label_name@)) == Some(r@),
    {
        let l = Some(label_name.to_owned());
        match render_field(self.0, meta, &l) {
            Ok(t) => t,
            Err(_) => String::new(),
        }
    }

    /// Renders a field configured without a label name; pairs with
    /// single-textual keys cannot be, and give `MissingLabelName`.
    pub fn render_with_struct_key(&self, meta: &MetricMetadata) -> (r: Result<String, RenderError>)
        ensures
            r is Err <==> self.0 is Labeled,
            r matches Ok(t) ==> field_text(*self.0, *meta, None) == Some(t@),
            r matches Err(e) ==> e == RenderError::MissingLabelName,
    {
        render_field(self.0, meta, &None)
    }
}

/// `prefix_name`, or `name` without a prefix, where `name` is the override
/// if one is given and the field's own name otherwise.
pub open spec fn metric_name_text(field: Seq<char>, name_override: Option<Seq<char>>, prefix: Option<Seq<char>>) -> Seq<char> {
    let base = match name_override {
        Some(n) => n,
        None => field,
    };
    match prefix {
        Some(p) => p + "_"@ + base,
        None => base,
    }
}

/// The exported name of a field.
pub fn metric_name(field: &str, name_override: Option<&str>, prefix: Option<&str>) -> (r: String)
    ensures
        r@ == metric_name_text(
            field@,
            match name_override { Some(n) => Some(n@), None => None },
            match prefix { Some(p) => Some(p@), None => None },
        ),
{
    let base = match name_override {
        Some(n) => n,
        None => field,
    };
    let mut out = String::new();
    match prefix {
        Some(p) => {
            push_str(&mut out, p);
            push_str(&mut out, "_");
        },
        None => {},
    }
    push_str(&mut out, base);
    assert(out@ =~= metric_name_text(
        field@,
        match name_override { Some(n) => Some(n@), None => None },
        match prefix { Some(p) => Some(p@), None => None },
    ));
    out
}

/// A value that renders as a whole exposition.
pub trait PrometheusMetric {
    /// The exposition text.
    spec fn exposition(&self) -> Seq<char>;

    fn render(&self) -> (r: String)
        ensures
            r@ == self.exposition(),
    ;
}

/// One registered field: its metadata, its value and its label name, if
/// configured.
#[derive(Debug)]
pub struct MetricField {
    pub meta: MetricMetadata,
    pub value: MetricValue,
    pub label_name: Option<String>,
}

/// The text of a registered field that can be rendered.
pub open spec fn registered_text(f: MetricField) -> Seq<char> {
    field_text(f.value, f.meta, label_view(f.label_name)).unwrap()
}

/// Fields registered in declaration order.
#[derive(Debug)]
pub struct MetricSet {
    fields: Vec<MetricField>,
}

impl MetricSet {
    /// The registered fields, in registration order.
    pub closed spec fn field_list(&self) -> Seq<MetricField> {
        self.fields@
    }

    /// Every field can be rendered: none is a single-label collection
    /// without a label name.
    pub open spec fn wf(&self) -> bool {
        forall|i: int| 0 <= i < self.field_list().len() ==> field_text(
            (#[trigger] self.field_list()[i]).value,
            self.field_list()[i].meta,
            label_view(self.field_list()[i].label_name),
        ) is Some
    }

    #[verifier::type_invariant]
    spec fn inv(&self) -> bool {
        self.wf()
    }

    /// The fields' texts, in registration order.
    pub open spec fn text(&self) -> Seq<char> {
        joined(self.field_list().map_values(|f: MetricField| registered_text(f)))
    }

    /// The registered fields, in registration order.
    pub fn fields(&self) -> (r: &Vec<MetricField>)
        ensures
            r@ == self.field_list(),
    {
        &self.fields
    }

    /// A set with no fields.
    pub fn new() -> (r: MetricSet)
        ensures
            r.field_list().len() == 0,
    {
        MetricSet { fields: Vec::new() }
    }

    /// Registers a field after those already registered. Pairs with
    /// single-textual keys without a label name are refused, and the set is
    /// left as it was.
    pub fn register(&mut self, meta: MetricMetadata, value: MetricValue, label_name: Option<String>) -> (r: Result<(), RenderError>)
        ensures
            r is Err <==> field_text(value, meta, label_view(label_name)) is None,
            r is Err ==> final(self).field_list() == old(self).field_list()
                && r == Err::<(), RenderError>(RenderError::MissingLabelName),
            r is Ok ==> final(self).field_list() == old(self).field_list().push(MetricField { meta, value, label_name }),
    {
        proof { use_type_invariant(&*self); }
        let missing = match (&value, &label_name) {
            (MetricValue::Labeled(_), None) => true,
            _ => false,
        };
        if missing {
            return Err(RenderError::MissingLabelName);
        }
        let mut fields: Vec<MetricField> = Vec::new();
        std::mem::swap(&mut fields, &mut self.fields);
        fields.push(MetricField { meta, value, label_name });
        self.fields = fields;
        Ok(())
    }
}

impl PrometheusMetric for MetricSet {
    open spec fn exposition(&self) -> Seq<char> {
        self.text()
    }

    fn render(&self) -> (r: String) {
        proof { use_type_invariant(self); }
        let ghost ls = self.field_list().map_values(|f: MetricField| registered_text(f));
        let mut out = String::new();
        let mut i: usize = 0;
        while i < self.fields.len()
            invariant
                i <= self.field_list().len(),
                self.wf(),
                ls == self.field_list().map_values(|f: MetricField| registered_text(f)),
                out@ == joined(ls.take(i as int)),
            decreases self.field_list().len() - i,
        {
            let f = &self.fields[i];
            let t = render_field(&f.value, &f.meta, &f.label_name);
            match t {
                Ok(t) => push_str(&mut out, t.as_str()),
                Err(_) => {},
            }
            proof {
                assert(ls.take(i as int + 1).drop_last() =~= ls.take(i as int));
            }
            i = i + 1;
        }
        assert(ls.take(self.field_list().len() as int) =~= ls);
        out
    }
}

} // verus!
