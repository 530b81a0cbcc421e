use vstd::prelude::*;
use crate::numbers::{double_eq, double_text, spec_double_eq, spec_double_text};

verus! {

/// A runtime value: nil, a boolean, a double (carried as its bit pattern),
/// or a string.
#[derive(Debug)]
pub enum Value {
    Nil,
    Boolean(bool),
    Number(u64),
    Text(String),
}

/// Ghost image of a runtime value.
pub ghost enum ValueView {
    Nil,
    Boolean(bool),
    Number(u64),
    Text(Seq<char>),
}

impl View for Value {
    type V = ValueView;

    open spec fn view(&self) -> ValueView {
        match self {
            Value::Nil => ValueView::Nil,
            Value::Boolean(b) => ValueView::Boolean(*b),
            Value::Number(bits) => ValueView::Number(*bits),
            Value::Text(s) => ValueView::Text(s@),
        }
    }
}

/// Truthiness: nil and false are falsy; every other value, zero and the
/// empty string included, is truthy.
pub open spec fn spec_is_truthy(v: ValueView) -> bool {
    match v {
        ValueView::Nil => false,
        ValueView::Boolean(b) => b,
        _ => true,
    }
}

/// Structural equality without coercion: values of different variants are
/// unequal, and numbers compare by IEEE-754 equality.
pub open spec fn spec_value_eq(a: ValueView, b: ValueView) -> bool {
    match (a, b) {
        (ValueView::Nil, ValueView::Nil) => true,
        (ValueView::Boolean(x), ValueView::Boolean(y)) => x == y,
        (ValueView::Number(x), ValueView::Number(y)) => spec_double_eq(x, y),
        (ValueView::Text(x), ValueView::Text(y)) => x == y,
        _ => false,
    }
}

/// The display form of a value: `NIL` for nil, `true`/`false` for booleans,
/// the canonical decimal text for numbers, the text itself for strings.
pub open spec fn spec_value_text(v: ValueView) -> Seq<char> {
    match v {
        ValueView::Nil => "NIL"@,
        ValueView::Boolean(b) => if b {
            "true"@
        } else {
            "false"@
        },
        ValueView::Number(bits) => spec_double_text(bits),
        ValueView::Text(s) => s,
    }
}

impl Value {
    /// Whether this value counts as true.
    pub fn is_truthy(&self) -> (r: bool)
        ensures
            r == spec_is_truthy(self@),
    {
        match self {
            Value::Nil => false,
            Value::Boolean(b) => *b,
            _ => true,
        }
    }

    /// Whether this value is a number.
    pub fn is_numeric(&self) -> (r: bool)
        ensures
            r == (self@ is Number),
    {
        matches!(self, Value::Number(_))
    }

    /// Whether this value is a string.
    pub fn is_stringy(&self) -> (r: bool)
        ensures
            r == (self@ is Text),
    {
        matches!(self, Value::Text(_))
    }

    /// The bit pattern of a numeric value.
    pub fn as_number(&self) -> (r: u64)
        requires
            self@ is Number,
        ensures
            self@ == ValueView::Number(r),
    {
        match self {
            Value::Number(bits) => *bits,
            _ => 0,
        }
    }

    /// The display form of this value.
    pub fn as_string(&self) -> (r: String)
        ensures
            r@ == spec_value_text(self@),
    {
        match self {
            Value::Nil => {
                let mut s = String::new();
                s.append("NIL");
                s
            },
            Value::Boolean(b) => {
                let mut s = String::new();
                if *b {
                    s.append("true");
                } else {
                    s.append("false");
                }
                s
            },
            Value::Number(bits) => double_text(*bits),
            Value::Text(t) => t.clone(),
        }
    }

    /// Structural equality without coercion.
    pub fn equals(&self, other: &Value) -> (r: bool)
        ensures
            r == spec_value_eq(self@, other@),
    {
        match (self, other) {
            (Value::Nil, Value::Nil) => true,
            (Value::Boolean(a), Value::Boolean(b)) => *a == *b,
            (Value::Number(a), Value::Number(b)) => double_eq(*a, *b),
            (Value::Text(a), Value::Text(b)) => *a == *b,
            _ => false,
        }
    }

    /// A copy of this value that provably keeps its image.
    pub fn duplicate(&self) -> (r: Value)
        ensures
            r@ == self@,
    {
        match self {
            Value::Nil => Value::Nil,
            Value::Boolean(b) => Value::Boolean(*b),
            Value::Number(bits) => Value::Number(*bits),
            Value::Text(s) => Value::Text(s.clone()),
        }
    }
}

} // verus!
