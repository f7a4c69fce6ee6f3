//! What a theme value stands for.

use vstd::prelude::*;
use crate::color::Color;
use crate::scalar::{self, Scalar};

verus! {

/// The model shared by token values, style values, theme values and property values.
#[verifier::ext_equal]
pub enum Value {
    Color(Color),
    Float(Scalar),
    Int(i32),
    Bool(bool),
    Text(Seq<char>),
    /// A reference to a token by its path.
    Ref(Seq<char>),
}

/// `==` of values: numbers are compared as numbers, so that NaN equals nothing.
pub open spec fn same_value(a: Value, b: Value) -> bool {
    match (a, b) {
        (Value::Float(x), Value::Float(y)) => scalar::same_scalar(x, y),
        _ => a == b,
    }
}

/// Sameness of values does not depend on which comes first, every value but NaN is the same as itself,
/// and values of two kinds are never the same.
pub proof fn sameness_is_symmetric(a: Value, b: Value)
    ensures
        same_value(a, b) == same_value(b, a),
        !(a matches Value::Float(x) && x.nan()) ==> same_value(a, a),
        a is Float && !(b is Float) ==> !same_value(a, b),
        !(a is Float) ==> (same_value(a, b) <==> a == b),
{
}

} // verus!
