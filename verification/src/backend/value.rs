//! Run-time values.

use crate::backend::number::Number;
use vstd::prelude::*;
use vstd::std_specs::cmp::PartialEqSpecImpl;
use vstd::string::*;

verus! {

/// A run-time value. Values have no identity: they are copied freely.
#[derive(Debug)]
pub enum Value {
    Bool(bool),
    Number(Number),
    String(String),
    Nil,
}

/// A value, with a string as its sequence of characters.
pub enum ValueView {
    Bool(bool),
    Number(Number),
    String(Seq<char>),
    Nil,
}

impl ValueView {
    /// Only `nil` and `false` are falsy.
    pub open spec fn is_truthy(self) -> bool {
        match self {
            ValueView::Nil => false,
            ValueView::Bool(b) => b,
            _ => true,
        }
    }

    /// Equality of two values: of the same kind and equal as such. Values of
    /// different kinds are unequal.
    pub open spec fn equals(self, other: ValueView) -> bool {
        match (self, other) {
            (ValueView::Bool(a), ValueView::Bool(b)) => a == b,
            (ValueView::Number(a), ValueView::Number(b)) => a.equal_to(b),
            (ValueView::String(a), ValueView::String(b)) => a == b,
            (ValueView::Nil, ValueView::Nil) => true,
            _ => false,
        }
    }

    /// Whether two values are of the same kind.
    pub open spec fn same_kind(self, other: ValueView) -> bool {
        match (self, other) {
            (ValueView::Bool(_), ValueView::Bool(_)) => true,
            (ValueView::Number(_), ValueView::Number(_)) => true,
            (ValueView::String(_), ValueView::String(_)) => true,
            (ValueView::Nil, ValueView::Nil) => true,
            _ => false,
        }
    }

    /// The display form of a value that is no number: `true`, `false`, `nil`,
    /// or the string itself. A number's display form is its shortest decimal
    /// text, which the caller writes.
    pub open spec fn text(self) -> Option<Seq<char>> {
        match self {
            ValueView::Bool(b) => Some(
                if b {
                    "true"@
                } else {
                    "false"@
                },
            ),
            ValueView::Number(_) => None,
            ValueView::String(s) => Some(s),
            ValueView::Nil => Some("nil"@),
        }
    }
}

impl View for Value {
    type V = ValueView;

    open spec fn view(&self) -> ValueView {
        match self {
            Value::Bool(b) => ValueView::Bool(*b),
            Value::Number(n) => ValueView::Number(*n),
            Value::String(s) => ValueView::String(s@),
            Value::Nil => ValueView::Nil,
        }
    }
}

impl DeepView for Value {
    type V = ValueView;

    open spec fn deep_view(&self) -> ValueView {
        self@
    }
}

impl Clone for Value {
    fn clone(&self) -> (r: Self)
        ensures
            r == *self,
    {
        match self {
            Value::Bool(b) => Value::Bool(*b),
            Value::Number(n) => Value::Number(*n),
            Value::String(s) => Value::String(s.clone()),
            Value::Nil => Value::Nil,
        }
    }
}

impl PartialEq for Value {
    fn eq(&self, other: &Self) -> (r: bool) {
        match (self, other) {
            (Value::Bool(a), Value::Bool(b)) => *a == *b,
            (Value::Number(a), Value::Number(b)) => a.equals(b),
            (Value::String(a), Value::String(b)) => *a == *b,
            (Value::Nil, Value::Nil) => true,
            _ => false,
        }
    }
}

impl PartialEqSpecImpl for Value {
    open spec fn obeys_eq_spec() -> bool {
        true
    }

    open spec fn eq_spec(&self, other: &Self) -> bool {
        self@.equals(other@)
    }
}

impl Value {
    /// Truthiness: what a value counts as where a condition is asked for.
    pub fn is_truthy(&self) -> (r: bool)
        ensures
            r == self@.is_truthy(),
            r == !(self@ is Nil || self@ == ValueView::Bool(false)),
    {
        match self {
            Value::Nil => false,
            Value::Bool(b) => *b,
            _ => true,
        }
    }

    /// The display form, where the value is no number.
    pub fn text(&self) -> (r: Option<String>)
        ensures
            r is Some == self@.text() is Some,
            r matches Some(s) ==> Some(s@) == self@.text(),
    {
        match self {
            Value::Bool(b) => {
                if *b {
                    Some(String::from_str("true"))
                } else {
                    Some(String::from_str("false"))
                }
            },
            Value::Number(_) => None,
            Value::String(s) => Some(s.clone()),
            Value::Nil => Some(String::from_str("nil")),
        }
    }
}

/// Only `nil` and `false` are falsy: every number, zero too, every string,
/// the empty one too, and `true` are truthy.
pub proof fn lemma_truthiness(value: ValueView)
    ensures
        !value.is_truthy() <==> (value is Nil || value == ValueView::Bool(false)),
        value is Number ==> value.is_truthy(),
        value is String ==> value.is_truthy(),
{
}

/// A value equals itself, unless it is a NaN.
pub proof fn lemma_equality_reflexive(a: ValueView)
    ensures
        a.equals(a) <==> !(a matches ValueView::Number(n) && n.is_nan()),
{
}

/// Values of different kinds are unequal.
pub proof fn lemma_equality_across_kinds(a: ValueView, b: ValueView)
    requires
        !a.same_kind(b),
    ensures
        !a.equals(b),
{
}

/// Equality does not depend on the order of its operands.
pub proof fn lemma_equality_symmetric(a: ValueView, b: ValueView)
    ensures
        a.equals(b) == b.equals(a),
{
}

} // verus!
