//! The values that juno functions take and return.

use vstd::prelude::*;

verus! {

/// A number as serde_json holds it; a floating-point number is carried through
/// this library unread, inside such a value.
#[verifier::external_type_specification]
#[verifier::external_body]
pub struct ExJsonNumber(serde_json::Number);

/// Cloning a serde_json number gives back the same number.
pub assume_specification[ <serde_json::Number as Clone>::clone ](n: &serde_json::Number) -> (r: serde_json::Number)
    ensures
        r == *n,
;

/// A number in a juno value: a non-negative integer, a negative (or other
/// signed) integer, or a floating-point number.
#[derive(Clone, Debug, PartialEq)]
pub enum JunoNumber {
    PosInt(u64),
    NegInt(i64),
    Float(serde_json::Number),
}

impl JunoNumber {
    /// A copy of this number.
    pub fn duplicate(&self) -> (r: JunoNumber)
        ensures
            r == *self,
    {
        match self {
            JunoNumber::PosInt(n) => JunoNumber::PosInt(*n),
            JunoNumber::NegInt(n) => JunoNumber::NegInt(*n),
            JunoNumber::Float(f) => JunoNumber::Float(f.clone()),
        }
    }
}

/// A value exchanged with juno: null, a boolean, a number, a string, an
/// array, or an object (its entries in order, keys compared as text).
#[derive(Debug, PartialEq)]
pub enum JunoValue {
    Null,
    Bool(bool),
    Number(JunoNumber),
    String(String),
    Array(Vec<JunoValue>),
    Object(Vec<(String, JunoValue)>),
}

/// The mathematical content of a [`JunoValue`]: strings as character sequences.
pub enum JunoValueView {
    Null,
    Bool(bool),
    Number(JunoNumber),
    String(Seq<char>),
    Array(Seq<JunoValueView>),
    Object(Seq<(Seq<char>, JunoValueView)>),
}

impl JunoValue {
    /// The content of this value.
    pub open spec fn content(self) -> JunoValueView
        decreases self,
    {
        match self {
            JunoValue::Null => JunoValueView::Null,
            JunoValue::Bool(b) => JunoValueView::Bool(b),
            JunoValue::Number(n) => JunoValueView::Number(n),
            JunoValue::String(s) => JunoValueView::String(s@),
            JunoValue::Array(items) => JunoValueView::Array(
                Seq::new(items@.len(), |i: int| if 0 <= i < items@.len() { items@[i].content() } else { JunoValueView::Null }),
            ),
            JunoValue::Object(entries) => JunoValueView::Object(
                Seq::new(
                    entries@.len(),
                    |i: int| if 0 <= i < entries@.len() { (entries@[i].0@, entries@[i].1.content()) } else { (Seq::empty(), JunoValueView::Null) },
                ),
            ),
        }
    }
}

impl JunoValue {
    /// A copy of this value, with the same content.
    pub fn deep_clone(&self) -> (r: JunoValue)
        ensures
            r@ == self@,
        decreases self,
    {
        match self {
            JunoValue::Null => JunoValue::Null,
            JunoValue::Bool(b) => JunoValue::Bool(*b),
            JunoValue::Number(n) => JunoValue::Number(n.duplicate()),
            JunoValue::String(s) => JunoValue::String(s.clone()),
            JunoValue::Array(items) => {
                let mut out: Vec<JunoValue> = Vec::new();
                let mut i: usize = 0;
                while i < items.len()
                    invariant
                        i <= items.len(),
                        out@.len() == i,
                        forall|j: int| 0 <= j < i ==> #[trigger] out@[j]@ == items@[j]@,
                        *self == JunoValue::Array(*items),
                    decreases items.len() - i,
                {
                    proof {
                        assert(decreases_to!(*self => self->Array_0));
                        assert(decreases_to!(*items => items@));
                        assert(decreases_to!(items@ => items@[i as int]));
                    }
                    let item = items[i].deep_clone();
                    out.push(item);
                    i = i + 1;
                }
                let r = JunoValue::Array(out);
                proof {
                    if let JunoValueView::Array(a) = r@ {
                        if let JunoValueView::Array(b) = self@ {
                            assert forall|j: int| 0 <= j < a.len() implies a[j] == b[j] by {
                                assert(out@[j]@ == items@[j]@);
                            }
                            assert(a =~= b);
                        }
                    }
                }
                r
            },
            JunoValue::Object(entries) => {
                let mut out: Vec<(String, JunoValue)> = Vec::new();
                let mut i: usize = 0;
                while i < entries.len()
                    invariant
                        i <= entries.len(),
                        out@.len() == i,
                        forall|j: int|
                            0 <= j < i ==> #[trigger] out@[j].0@ == entries@[j].0@ && out@[j].1@
                                == entries@[j].1@,
                        *self == JunoValue::Object(*entries),
                    decreases entries.len() - i,
                {
                    proof {
                        assert(decreases_to!(*self => self->Object_0));
                        assert(decreases_to!(*entries => entries@));
                        assert(decreases_to!(entries@ => entries@[i as int]));
                        assert(decreases_to!(entries@[i as int] => entries@[i as int].1));
                    }
                    let key = entries[i].0.clone();
                    let item = entries[i].1.deep_clone();
                    out.push((key, item));
                    i = i + 1;
                }
                let r = JunoValue::Object(out);
                proof {
                    if let JunoValueView::Object(a) = r@ {
                        if let JunoValueView::Object(b) = self@ {
                            assert forall|j: int| 0 <= j < a.len() implies a[j] == b[j] by {
                                assert(out@[j].0@ == entries@[j].0@);
                            }
                            assert(a =~= b);
                        }
                    }
                }
                r
            },
        }
    }
}

impl Clone for JunoValue {
    fn clone(&self) -> (r: Self)
        ensures
            r@ == self@,
    {
        self.deep_clone()
    }
}

impl View for JunoValue {
    type V = JunoValueView;

    open spec fn view(&self) -> JunoValueView {
        self.content()
    }
}

} // verus!
