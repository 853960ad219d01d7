//! Script values, as far as marshalling tells them apart.

use crate::bigint::BigInt;
use crate::number::Number;
use vstd::prelude::*;

verus! {

/// A value of the script runtime, by the shape that decides how it is
/// passed to native code.
#[derive(Clone, Debug, PartialEq, Eq)]
pub enum ScriptValue {
    /// The runtime's "undefined", which also stands for a missing argument.
    Undefined,
    /// The runtime's null value.
    Null,
    /// An ordinary number.
    Number(Number),
    /// A big integer.
    BigInt(BigInt),
    /// A typed view over a contiguous byte buffer: the address at which the
    /// buffer starts, and the offset of the view inside it.
    TypedView { base: u64, byte_offset: u64 },
    /// A contiguous byte buffer, by the address at which it starts.
    Buffer { base: u64 },
    /// Any value of another shape.
    Other,
}

/// The mathematical content of a [`ScriptValue`].
pub enum Value {
    Undefined,
    Null,
    Number(Number),
    BigInt(int),
    TypedView { base: nat, byte_offset: nat },
    Buffer { base: nat },
    Other,
}

impl View for ScriptValue {
    type V = Value;

    open spec fn view(&self) -> Value {
        match self {
            ScriptValue::Undefined => Value::Undefined,
            ScriptValue::Null => Value::Null,
            ScriptValue::Number(number) => Value::Number(*number),
            ScriptValue::BigInt(big) => Value::BigInt(big@),
            ScriptValue::TypedView { base, byte_offset } => Value::TypedView {
                base: *base as nat,
                byte_offset: *byte_offset as nat,
            },
            ScriptValue::Buffer { base } => Value::Buffer { base: *base as nat },
            ScriptValue::Other => Value::Other,
        }
    }
}

impl ScriptValue {
    /// Whether the value is in the form in which the library hands values
    /// out: a big integer in its canonical form. Values of the other shapes
    /// have one form only.
    pub open spec fn is_canonical(&self) -> bool {
        match self {
            ScriptValue::BigInt(big) => big.is_canonical(),
            _ => true,
        }
    }
}

impl Value {
    /// The whole number that the value stands for, if it stands for one: a
    /// number without fractional part, or a big integer.
    pub open spec fn whole_number(self) -> Option<int> {
        match self {
            Value::Number(number) => if number.is_integral() {
                Some(number.integer())
            } else {
                None
            },
            Value::BigInt(n) => Some(n),
            _ => None,
        }
    }
}

} // verus!
