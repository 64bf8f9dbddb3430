//! Agreement of the values of one field across a selection.
use vstd::prelude::*;
use crate::value::{Value, value_eq, values_equal};

verus! {

/// Whether every value of a non-empty sequence agrees with the first one.
pub open spec fn all_agree(s: Seq<Value>) -> bool {
    s.len() > 0 && forall|i: int| 0 <= i < s.len() ==> value_eq(#[trigger] s[i], s[0])
}

/// The common value of a selection: the first value when every value agrees with it,
/// nothing when the selection is empty or its values diverge.
pub open spec fn common_value(s: Seq<Value>) -> Option<Value> {
    if all_agree(s) {
        Some(s[0])
    } else {
        None
    }
}

/// The values behind a sequence of references.
pub open spec fn deref_seq(s: Seq<&Value>) -> Seq<Value> {
    Seq::new(s.len(), |i: int| *s[i])
}

/// The values behind a sequence of mutable references.
pub open spec fn deref_mut_seq(s: Seq<&mut Value>) -> Seq<Value> {
    Seq::new(s.len(), |i: int| *s[i])
}

/// The value that every selected reference agrees on, if any.
pub fn get_same_or_none(data: &[&Value]) -> (r: Option<Value>)
    ensures
        r == common_value(deref_seq(data@)),
{
    if data.len() == 0 {
        return None;
    }
    let first = data[0].duplicate();
    let mut i: usize = 0;
    while i < data.len()
        invariant
            0 <= i <= data@.len(),
            data@.len() > 0,
            first == *data@[0],
            forall|j: int| 0 <= j < i ==> value_eq(*data@[j], first),
        decreases data@.len() - i,
    {
        if !values_equal(data[i], &first) {
            assert(!all_agree(deref_seq(data@))) by {
                assert(deref_seq(data@)[i as int] == *data@[i as int]);
            }
            return None;
        }
        i = i + 1;
    }
    assert(all_agree(deref_seq(data@))) by {
        assert forall|j: int| 0 <= j < data@.len() implies value_eq(
            #[trigger] deref_seq(data@)[j],
            deref_seq(data@)[0],
        ) by {
            assert(value_eq(*data@[j], first));
        }
    }
    Some(first)
}

/// The value that every selected value agrees on, if any; the selection is held for
/// writing but left as it is.
pub fn get_same_or_none_mut(data: &mut [&mut Value]) -> (r: Option<Value>)
    ensures
        final(data)@ == old(data)@,
        r == common_value(deref_mut_seq(old(data)@)),
{
    if data.len() == 0 {
        return None;
    }
    let first = data[0].duplicate();
    let mut i: usize = 0;
    while i < data.len()
        invariant
            0 <= i <= data@.len(),
            data@.len() > 0,
            first == *data@[0],
            data@ == old(data)@,
            forall|j: int| 0 <= j < i ==> value_eq(*data@[j], first),
        decreases data@.len() - i,
    {
        if !values_equal(data[i], &first) {
            assert(!all_agree(deref_mut_seq(data@))) by {
                assert(deref_mut_seq(data@)[i as int] == *data@[i as int]);
            }
            return None;
        }
        i = i + 1;
    }
    assert(all_agree(deref_mut_seq(data@))) by {
        assert forall|j: int| 0 <= j < data@.len() implies value_eq(
            #[trigger] deref_mut_seq(data@)[j],
            deref_mut_seq(data@)[0],
        ) by {
            assert(value_eq(*data@[j], first));
        }
    }
    Some(first)
}

} // verus!
