//! Field values as the inspector sees them.
use vstd::prelude::*;

verus! {

/// The value of one field of an inspected instance.
///
/// A 32-bit float is held as its IEEE-754 bit pattern. `Absent` is the value of an
/// optional field that holds nothing.
#[derive(Debug, Clone, PartialEq)]
pub enum Value {
    Bool(bool),
    F32(u32),
    U32(u32),
    Usize(usize),
    Text(String),
    Variant(usize),
    Absent,
}

/// Mask of the exponent bits of an `f32` bit pattern.
pub const F32_EXPONENT_MASK: u32 = 0x7f80_0000;

/// Mask of the mantissa bits of an `f32` bit pattern.
pub const F32_MANTISSA_MASK: u32 = 0x007f_ffff;

/// Mask of every bit of an `f32` bit pattern but the sign.
pub const F32_MAGNITUDE_MASK: u32 = 0x7fff_ffff;

/// Bit pattern of `0.0f32`.
pub const F32_ZERO: u32 = 0;

/// Whether a bit pattern encodes a NaN.
pub open spec fn is_nan_bits(b: u32) -> bool {
    (b & F32_EXPONENT_MASK) == F32_EXPONENT_MASK && (b & F32_MANTISSA_MASK) != 0
}

/// IEEE-754 equality of two `f32` given by their bit patterns: NaN equals nothing,
/// and the two zeros are equal.
pub open spec fn f32_bits_eq(a: u32, b: u32) -> bool {
    &&& !is_nan_bits(a)
    &&& !is_nan_bits(b)
    &&& (a == b || ((a & F32_MAGNITUDE_MASK) == 0 && (b & F32_MAGNITUDE_MASK) == 0))
}

/// The equality that decides whether selected values agree.
pub open spec fn value_eq(a: Value, b: Value) -> bool {
    match (a, b) {
        (Value::Bool(x), Value::Bool(y)) => x == y,
        (Value::F32(x), Value::F32(y)) => f32_bits_eq(x, y),
        (Value::U32(x), Value::U32(y)) => x == y,
        (Value::Usize(x), Value::Usize(y)) => x == y,
        (Value::Text(x), Value::Text(y)) => x@ == y@,
        (Value::Variant(x), Value::Variant(y)) => x == y,
        (Value::Absent, Value::Absent) => true,
        _ => false,
    }
}

/// Whether two values are of the same kind.
pub open spec fn same_kind(a: Value, b: Value) -> bool {
    match (a, b) {
        (Value::Bool(_), Value::Bool(_)) => true,
        (Value::F32(_), Value::F32(_)) => true,
        (Value::U32(_), Value::U32(_)) => true,
        (Value::Usize(_), Value::Usize(_)) => true,
        (Value::Text(_), Value::Text(_)) => true,
        (Value::Variant(_), Value::Variant(_)) => true,
        (Value::Absent, Value::Absent) => true,
        _ => false,
    }
}

/// IEEE-754 equality on `f32` bit patterns.
pub fn f32_bits_equal(a: u32, b: u32) -> (r: bool)
    ensures
        r == f32_bits_eq(a, b),
{
    let a_nan = (a & F32_EXPONENT_MASK) == F32_EXPONENT_MASK && (a & F32_MANTISSA_MASK) != 0;
    let b_nan = (b & F32_EXPONENT_MASK) == F32_EXPONENT_MASK && (b & F32_MANTISSA_MASK) != 0;
    !a_nan && !b_nan && (a == b || ((a & F32_MAGNITUDE_MASK) == 0 && (b & F32_MAGNITUDE_MASK)
        == 0))
}

/// Whether two values agree.
pub fn values_equal(a: &Value, b: &Value) -> (r: bool)
    ensures
        r == value_eq(*a, *b),
{
    match (a, b) {
        (Value::Bool(x), Value::Bool(y)) => *x == *y,
        (Value::F32(x), Value::F32(y)) => f32_bits_equal(*x, *y),
        (Value::U32(x), Value::U32(y)) => *x == *y,
        (Value::Usize(x), Value::Usize(y)) => *x == *y,
        (Value::Text(x), Value::Text(y)) => *x == *y,
        (Value::Variant(x), Value::Variant(y)) => *x == *y,
        (Value::Absent, Value::Absent) => true,
        _ => false,
    }
}

/// Whether two values are of the same kind.
pub fn kinds_match(a: &Value, b: &Value) -> (r: bool)
    ensures
        r == same_kind(*a, *b),
{
    match (a, b) {
        (Value::Bool(_), Value::Bool(_)) => true,
        (Value::F32(_), Value::F32(_)) => true,
        (Value::U32(_), Value::U32(_)) => true,
        (Value::Usize(_), Value::Usize(_)) => true,
        (Value::Text(_), Value::Text(_)) => true,
        (Value::Variant(_), Value::Variant(_)) => true,
        (Value::Absent, Value::Absent) => true,
        _ => false,
    }
}

impl Value {
    /// A copy of the value.
    pub fn duplicate(&self) -> (r: Value)
        ensures
            r == *self,
    {
        match self {
            Value::Bool(b) => Value::Bool(*b),
            Value::F32(b) => Value::F32(*b),
            Value::U32(n) => Value::U32(*n),
            Value::Usize(n) => Value::Usize(*n),
            Value::Text(s) => Value::Text(s.clone()),
            Value::Variant(i) => Value::Variant(*i),
            Value::Absent => Value::Absent,
        }
    }
}

} // verus!
