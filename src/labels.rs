//! Named label sets and their `name="value",...` form.
use std::borrow::Cow;
use vstd::prelude::*;
use crate::escape::{escape_label_value, escaped};
use crate::text::{push_char, push_str};

verus! {

/// Label names paired with label values, in declared order.
pub open spec fn pairs_view(v: Seq<(String, String)>) -> Seq<(Seq<char>, Seq<char>)> {
    v.map_values(|p: (String, String)| (p.0@, p.1@))
}

/// `name="escaped value"`.
pub open spec fn pair_text(p: (Seq<char>, Seq<char>)) -> Seq<char> {
    p.0 + seq!['=', '"'] + escaped(p.1) + seq!['"']
}

/// The pairs' texts joined by commas, with no trailing comma; empty for no
/// pairs.
pub open spec fn labels_text(ps: Seq<(Seq<char>, Seq<char>)>) -> Seq<char>
    decreases ps.len(),
{
    if ps.len() == 0 {
        Seq::empty()
    } else if ps.len() == 1 {
        pair_text(ps[0])
    } else {
        labels_text(ps.drop_last()) + seq![','] + pair_text(ps.last())
    }
}

/// A key that decomposes into several named label values.
pub trait Label {
    /// The label names and values, in declared order.
    spec fn label_pairs(&self) -> Seq<(Seq<char>, Seq<char>)>;

    /// The labels as `k1="v1",k2="v2"`, values escaped.
    fn fmt_labels(&self) -> (r: String)
        ensures
            r@ == labels_text(self.label_pairs()),
    ;
}

/// A set of named labels, kept in declared order.
#[derive(Clone, Debug)]
pub struct LabelSet {
    pub pairs: Vec<(String, String)>,
}

impl View for LabelSet {
    type V = Seq<(Seq<char>, Seq<char>)>;

    open spec fn view(&self) -> Seq<(Seq<char>, Seq<char>)> {
        pairs_view(self.pairs@)
    }
}

/// Appends `name="escaped value"`.
pub fn push_pair(out: &mut String, name: &String, value: &String)
    ensures
        final(out)@ == old(out)@ + pair_text((name@, value@)),
{
    push_str(out, name.as_str());
    push_str(out, "=\"");
    match escape_label_value(value.as_str()) {
        Cow::Borrowed(v) => push_str(out, v),
        Cow::Owned(v) => push_str(out, v.as_str()),
    }
    push_char(out, '"');
    proof { reveal_strlit("=\""); }
    assert(final(out)@ =~= old(out)@ + pair_text((name@, value@)));
}

/// Appends the labels of `pairs` joined by commas.
pub fn push_labels(out: &mut String, pairs: &Vec<(String, String)>)
    ensures
        final(out)@ == old(out)@ + labels_text(pairs_view(pairs@)),
{
    let ghost ps = pairs_view(pairs@);
    let mut i: usize = 0;
    while i < pairs.len()
        invariant
            i <= pairs.len(),
            ps == pairs_view(pairs@),
            out@ == old(out)@ + labels_text(ps.take(i as int)),
        decreases pairs.len() - i,
    {
        if i > 0 {
            push_char(out, ',');
        }
        push_pair(out, &pairs[i].0, &pairs[i].1);
        proof {
            let t = ps.take(i as int + 1);
            assert(t.drop_last() =~= ps.take(i as int));
            assert(t.last() == (pairs@[i as int].0@, pairs@[i as int].1@));
            if i > 0 {
                assert(labels_text(t) == labels_text(ps.take(i as int)) + seq![','] + pair_text(t.last()));
            }
            assert(out@ =~= old(out)@ + labels_text(t));
        }
        i = i + 1;
    }
    assert(ps.take(pairs.len() as int) =~= ps);
}

impl LabelSet {
    /// A label set with no labels.
    pub fn empty() -> (r: LabelSet)
        ensures
            r@ == Seq::<(Seq<char>, Seq<char>)>::empty(),
    {
        let r = LabelSet { pairs: Vec::new() };
        assert(r@ =~= Seq::<(Seq<char>, Seq<char>)>::empty());
        r
    }

    /// Adds a label after those already present.
    pub fn with(self, name: &str, value: &str) -> (r: LabelSet)
        ensures
            r@ == self@.push((name@, value@)),
    {
        let mut pairs = self.pairs;
        pairs.push((name.to_owned(), value.to_owned()));
        let r = LabelSet { pairs };
        assert(r@ =~= self@.push((name@, value@)));
        r
    }

    /// Whether two label sets hold the same names and values in the same
    /// order.
    pub fn same_as(&self, other: &LabelSet) -> (r: bool)
        ensures
            r == (self@ == other@),
    {
        if self.pairs.len() != other.pairs.len() {
            assert(self@.len() != other@.len());
            return false;
        }
        let mut i: usize = 0;
        while i < self.pairs.len()
            invariant
                i <= self.pairs.len(),
                self.pairs.len() == other.pairs.len(),
                forall|j: int| 0 <= j < i ==> self@[j] == other@[j],
            decreases self.pairs.len() - i,
        {
            if self.pairs[i].0 != other.pairs[i].0 || self.pairs[i].1 != other.pairs[i].1 {
                assert(self@[i as int] != other@[i as int]);
                return false;
            }
            i = i + 1;
        }
        assert(self@ =~= other@);
        true
    }
}

impl Label for LabelSet {
    open spec fn label_pairs(&self) -> Seq<(Seq<char>, Seq<char>)> {
        self@
    }

    fn fmt_labels(&self) -> (r: String) {
        let mut out = String::new();
        push_labels(&mut out, &self.pairs);
        assert(out@ =~= labels_text(self@));
        out
    }
}

impl Label for () {
    open spec fn label_pairs(&self) -> Seq<(Seq<char>, Seq<char>)> {
        Seq::empty()
    }

    fn fmt_labels(&self) -> (r: String) {
        String::new()
    }
}

} // verus!
