//! The literal content read from an external description: a scalar
//! string, an ordered sequence, or an ordered key-to-value mapping.
//! Values are the payload of edit commands.

use vstd::prelude::*;

verus! {

/// A literal value carried by a command.
pub enum Value {
    /// A plain string.
    Scalar(String),
    /// An ordered list of values.
    Sequence(Vec<Value>),
    /// An ordered mapping from unique string keys to values.
    Mapping(Vec<(String, Value)>),
}

/// The character sequence of a scalar value; nothing for the other forms.
pub open spec fn spec_scalar(v: Value) -> Option<Seq<char>> {
    match v {
        Value::Scalar(s) => Some(s@),
        _ => None,
    }
}

impl Value {
    /// The string carried by a scalar value; nothing for the other forms.
    pub fn as_scalar(&self) -> (r: Option<&String>)
        ensures
            match r {
                Some(s) => spec_scalar(*self) == Some(s@),
                None => spec_scalar(*self) is None,
            },
    {
        match self {
            Value::Scalar(s) => Some(s),
            _ => None,
        }
    }
}

} // verus!
