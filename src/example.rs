//! An enum without data, inspected through the index of its variant.
use vstd::prelude::*;
use crate::value::Value;

verus! {

/// An example enum without data.
#[derive(Debug, Clone, Copy, PartialEq, Eq, Hash, Structural)]
pub enum TestEnum {
    A,
    B,
    C,
}

/// The index of a variant in declaration order.
pub open spec fn variant_index(e: TestEnum) -> usize {
    match e {
        TestEnum::A => 0,
        TestEnum::B => 1,
        TestEnum::C => 2,
    }
}

impl TestEnum {
    /// The value that stands for this variant.
    pub fn to_value(&self) -> (r: Value)
        ensures
            r == Value::Variant(variant_index(*self)),
    {
        match self {
            TestEnum::A => Value::Variant(0),
            TestEnum::B => Value::Variant(1),
            TestEnum::C => Value::Variant(2),
        }
    }

    /// The variant that a value stands for, if it stands for one.
    pub fn from_value(v: &Value) -> (r: Option<TestEnum>)
        ensures
            match r {
                Some(e) => *v == Value::Variant(variant_index(e)),
                None => !(*v is Variant) || v->Variant_0 > 2,
            },
    {
        match v {
            Value::Variant(0) => Some(TestEnum::A),
            Value::Variant(1) => Some(TestEnum::B),
            Value::Variant(2) => Some(TestEnum::C),
            _ => None,
        }
    }
}

} // verus!
