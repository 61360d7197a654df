use vstd::prelude::*;

use crate::numeric::eq_bits;

verus! {

/// Mathematical model of a runtime value. A number is carried as the 64-bit
/// encoding of an IEEE-754 double.
pub enum ValueM {
    Num(u64),
    Str(Seq<char>),
    Bool(bool),
    Nil,
}

/// A runtime value: a number (an encoded IEEE-754 double), a string, a
/// boolean, or nil. Values are produced and destroyed per evaluation.
#[derive(Debug, Clone, PartialEq)]
pub enum Object {
    Number(u64),
    String(String),
    Boolean(bool),
    Nil,
}

impl View for Object {
    type V = ValueM;

    open spec fn view(&self) -> ValueM {
        match self {
            Object::Number(b) => ValueM::Num(*b),
            Object::String(s) => ValueM::Str(s@),
            Object::Boolean(b) => ValueM::Bool(*b),
            Object::Nil => ValueM::Nil,
        }
    }
}

/// Truthiness: nil and false are false, every other value is true.
pub open spec fn truthy(v: ValueM) -> bool {
    match v {
        ValueM::Nil => false,
        ValueM::Bool(b) => b,
        _ => true,
    }
}

/// Structural equality of runtime values: same variant and same payload;
/// numbers compare by IEEE-754 value equality.
pub open spec fn val_eq(a: ValueM, b: ValueM) -> bool {
    match (a, b) {
        (ValueM::Num(x), ValueM::Num(y)) => eq_bits(x, y),
        (ValueM::Str(x), ValueM::Str(y)) => x == y,
        (ValueM::Bool(x), ValueM::Bool(y)) => x == y,
        (ValueM::Nil, ValueM::Nil) => true,
        _ => false,
    }
}

} // verus!
