//! Escaping of label values for use inside double quotes.
use std::borrow::Cow;
use vstd::prelude::*;
use crate::text::{push_char, push_str};

verus! {

/// Whether a character must be escaped inside a label value.
pub open spec fn needs_escape(c: char) -> bool {
    c == '"' || c == '\\' || c == '\n'
}

/// What one character becomes inside a quoted label value.
pub open spec fn escape_char(c: char) -> Seq<char> {
    if c == '"' {
        seq!['\\', '"']
    } else if c == '\\' {
        seq!['\\', '\\']
    } else if c == '\n' {
        seq!['\\', 'n']
    } else {
        seq![c]
    }
}

/// A label value escaped character by character, left to right.
pub open spec fn escaped(s: Seq<char>) -> Seq<char>
    decreases s.len(),
{
    if s.len() == 0 {
        Seq::empty()
    } else {
        escaped(s.drop_last()) + escape_char(s.last())
    }
}

/// A value without a character that needs escaping is left as it is.
pub proof fn lemma_escaped_plain(s: Seq<char>)
    requires
        forall|i: int| 0 <= i < s.len() ==> !needs_escape(#[trigger] s[i]),
    ensures
        escaped(s) == s,
    decreases s.len(),
{
    if s.len() > 0 {
        lemma_escaped_plain(s.drop_last());
        assert(s.drop_last().push(s.last()) =~= s);
    }
}

/// Escapes `"`, `\` and newline in a label value; every other character is
/// kept. A value with none of them is handed back borrowed, without a copy;
/// any other value comes back as a fresh, owned copy.
pub fn escape_label_value(s: &str) -> (r: Cow<'_, str>)
    ensures
        r@ == escaped(s@),
        (forall|i: int| 0 <= i < s@.len() ==> !needs_escape(#[trigger] s@[i]))
            ==> r == Cow::<'_, str>::Borrowed(s),
        (exists|i: int| 0 <= i < s@.len() && needs_escape(#[trigger] s@[i]))
            ==> r matches Cow::Owned(_),
{
    let mut plain = true;
    for c in it: s.chars()
        invariant
            it.seq() == s@,
            plain <==> forall|j: int| 0 <= j < it.index() ==> !needs_escape(#[trigger] s@[j]),
    {
        if c == '"' || c == '\\' || c == '\n' {
            plain = false;
        }
    }
    if plain {
        proof { lemma_escaped_plain(s@); }
        return Cow::Borrowed(s);
    }
    let mut out = String::new();
    for c in it: s.chars()
        invariant
            it.seq() == s@,
            out@ == escaped(s@.take(it.index() as int)),
    {
        let ghost before = out@;
        if c == '"' {
            push_str(&mut out, "\\\"");
            proof { reveal_strlit("\\\""); }
        } else if c == '\\' {
            push_str(&mut out, "\\\\");
            proof { reveal_strlit("\\\\"); }
        } else if c == '\n' {
            push_str(&mut out, "\\n");
            proof { reveal_strlit("\\n"); }
        } else {
            push_char(&mut out, c);
        }
        proof {
            let k = it.index() as int;
            assert(s@.take(k + 1).drop_last() =~= s@.take(k));
            assert(out@ =~= before + escape_char(c));
        }
    }
    assert(s@.take(s@.len() as int) =~= s@);
    Cow::Owned(out)
}

} // verus!
