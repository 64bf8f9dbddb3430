//! The selector widget of an enum without data: the fixed list of its variant names.
use vstd::prelude::*;
use crate::descriptor::EnumDescriptor;
use crate::field::{commits, render_mut};
use crate::selection::{all_agree, deref_seq, deref_mut_seq, get_same_or_none};
use crate::value::Value;

verus! {

/// A selector: its label, the names to choose from, the entry that every selected
/// value agrees on, if any, and whether the selected values diverge.
#[derive(Debug, Clone, PartialEq)]
pub struct Selector {
    pub label: String,
    pub items: Vec<String>,
    pub selected: Option<usize>,
    pub inconsistent: bool,
}

/// The entry that the values `s` agree on, if they agree on a variant of an enum with
/// `n` variants.
pub open spec fn selected_entry(s: Seq<Value>, n: int) -> Option<usize> {
    if all_agree(s) && s[0] is Variant && s[0]->Variant_0 < n {
        Some(s[0]->Variant_0)
    } else {
        None
    }
}

/// Whether a choice of entry is written to the values `s`: it names a variant of an
/// enum with `n` variants, and a widget of variants would commit it.
pub open spec fn choice_commits(s: Seq<Value>, n: int, choice: Option<usize>) -> bool {
    match choice {
        Some(c) => c < n && commits(s, Some(Value::Variant(c))),
        None => false,
    }
}

/// The selector of an enum for a selection of its values.
pub fn render_enum(d: &EnumDescriptor, data: &[&Value], label: &String) -> (r: Selector)
    ensures
        r.label == *label,
        r.items@ == d.variants@,
        r.selected == selected_entry(deref_seq(data@), d.variants@.len() as int),
        r.inconsistent == !all_agree(deref_seq(data@)),
{
    let mut items: Vec<String> = Vec::new();
    let mut i: usize = 0;
    while i < d.variants.len()
        invariant
            0 <= i <= d.variants@.len(),
            items@ == d.variants@.subrange(0, i as int),
        decreases d.variants@.len() - i,
    {
        items.push(d.variants[i].clone());
        i = i + 1;
        assert(items@ =~= d.variants@.subrange(0, i as int));
    }
    assert(items@ =~= d.variants@);
    let common = get_same_or_none(data);
    let inconsistent = common.is_none();
    let selected = match common {
        Some(Value::Variant(v)) => if v < d.variants.len() {
            Some(v)
        } else {
            None
        },
        _ => None,
    };
    Selector { label: label.clone(), items, selected, inconsistent }
}

/// Writes the entry chosen through the selector of an enum to every selected value.
/// Returns whether it was written.
pub fn render_enum_mut(d: &EnumDescriptor, data: &mut [&mut Value], choice: Option<usize>) -> (changed: bool)
    ensures
        changed == choice_commits(deref_mut_seq(old(data)@), d.variants@.len() as int, choice),
        final(data)@.len() == old(data)@.len(),
        forall|i: int|
            0 <= i < final(data)@.len() ==> *#[trigger] final(data)@[i] == if changed {
                Value::Variant(choice->0)
            } else {
                *old(data)@[i]
            },
        forall|i: int|
            0 <= i < final(data)@.len() ==> *final(#[trigger] final(data)@[i])
                == *final(old(data)@[i]),
{
    match choice {
        Some(c) => if c < d.variants.len() {
            render_mut(data, Some(Value::Variant(c)))
        } else {
            false
        },
        None => false,
    }
}

} // verus!
