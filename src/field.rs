//! The rendering capability of one field across a selection: a read-only line, an
//! editable widget seeded from the selection, and the bulk write of a committed edit.
use vstd::prelude::*;
use crate::args::{InspectArgsDefault, InspectArgsSlider, setting_or, SLIDER_DEFAULT_MIN, SLIDER_DEFAULT_MAX};
use crate::selection::{all_agree, deref_seq, deref_mut_seq, get_same_or_none};
use crate::value::{Value, F32_ZERO, same_kind, kinds_match};

verus! {

/// The widget style chosen for a field, with its options.
#[derive(Debug, Clone, Copy, PartialEq, Eq)]
pub enum FieldStyle {
    Default(InspectArgsDefault),
    Slider(InspectArgsSlider),
}

/// What a read-only line shows for a selection.
#[derive(Debug, Clone, PartialEq)]
pub enum Shown {
    /// Every selected value agrees on this one.
    Value(Value),
    /// The selected values diverge.
    Inconsistent,
    /// Nothing is selected.
    Nothing,
}

/// A read-only line: the label and what it shows.
#[derive(Debug, Clone, PartialEq)]
pub struct TextLine {
    pub label: String,
    pub shown: Shown,
}

/// An editable control with the value it starts from.
#[derive(Debug, Clone, PartialEq)]
pub enum Control {
    Checkbox(bool),
    InputFloat(u32),
    Slider { value: u32, min: u32, max: u32 },
    InputU32(u32),
    InputUsize(usize),
    InputText(String),
    Combo(usize),
    /// No edit is possible; the selection is shown as a read-only line would show it.
    ReadOnly(Shown),
}

/// The editable widget of one field: its label, its control, and whether it is marked
/// as seeded from diverging values.
#[derive(Debug, Clone, PartialEq)]
pub struct FieldWidget {
    pub label: String,
    pub control: Control,
    pub inconsistent: bool,
}

/// What a read-only line shows for the values `s`.
pub open spec fn shown_of(s: Seq<Value>) -> Shown {
    if s.len() == 0 {
        Shown::Nothing
    } else if all_agree(s) {
        Shown::Value(s[0])
    } else {
        Shown::Inconsistent
    }
}

/// Whether a selection can be edited: it is not empty and no value is absent.
pub open spec fn editable(s: Seq<Value>) -> bool {
    s.len() > 0 && forall|i: int| 0 <= i < s.len() ==> !(#[trigger] s[i] is Absent)
}

/// Whether `seed` is the placeholder for diverging values of the kind of `v`:
/// false, zero, the empty text, or the first variant.
pub open spec fn is_placeholder_for(seed: Value, v: Value) -> bool {
    match v {
        Value::Bool(_) => seed == Value::Bool(false),
        Value::F32(_) => seed == Value::F32(F32_ZERO),
        Value::U32(_) => seed == Value::U32(0),
        Value::Usize(_) => seed == Value::Usize(0),
        Value::Text(_) => seed matches Value::Text(t) && t@.len() == 0,
        Value::Variant(_) => seed == Value::Variant(0),
        Value::Absent => seed == Value::Absent,
    }
}

/// Whether `c` is the control of the given style that starts from `seed`.
pub open spec fn control_for(c: Control, style: FieldStyle, seed: Value) -> bool {
    match seed {
        Value::Bool(b) => c == Control::Checkbox(b),
        Value::F32(x) => match style {
            FieldStyle::Default(_) => c == Control::InputFloat(x),
            FieldStyle::Slider(a) => c == (Control::Slider {
                value: x,
                min: setting_or(a.min_value, SLIDER_DEFAULT_MIN),
                max: setting_or(a.max_value, SLIDER_DEFAULT_MAX),
            }),
        },
        Value::U32(n) => c == Control::InputU32(n),
        Value::Usize(n) => c == Control::InputUsize(n),
        Value::Text(t) => c matches Control::InputText(u) && u@ == t@,
        Value::Variant(i) => c == Control::Combo(i),
        Value::Absent => c == Control::ReadOnly(Shown::Value(Value::Absent)),
    }
}

/// Whether `c` is the control for the values `s`: read-only where they cannot be
/// edited, else started from their common value, or from the placeholder of their
/// kind where they diverge.
pub open spec fn control_matches(c: Control, style: FieldStyle, s: Seq<Value>) -> bool {
    if !editable(s) {
        c == Control::ReadOnly(shown_of(s))
    } else if all_agree(s) {
        control_for(c, style, s[0])
    } else {
        exists|seed: Value| is_placeholder_for(seed, s[0]) && control_for(c, style, seed)
    }
}

/// Whether an edit committed through the widget of the values `s` is written: there
/// is an edit, the values can be edited, and the edit is of their kind.
pub open spec fn commits(s: Seq<Value>, edit: Option<Value>) -> bool {
    match edit {
        Some(v) => editable(s) && same_kind(v, s[0]),
        None => false,
    }
}

/// Whether an edit committed through the widget of the values `s` is written.
pub fn will_commit(s: &Vec<Value>, edit: &Option<Value>) -> (r: bool)
    ensures
        r == commits(s@, *edit),
{
    let v = match edit {
        Some(v) => v,
        None => {
            return false;
        },
    };
    if s.len() == 0 {
        return false;
    }
    let mut i: usize = 0;
    while i < s.len()
        invariant
            0 <= i <= s@.len(),
            forall|j: int| 0 <= j < i ==> !(#[trigger] s@[j] is Absent),
        decreases s@.len() - i,
    {
        if let Value::Absent = &s[i] {
            return false;
        }
        i = i + 1;
    }
    kinds_match(v, &s[0])
}

/// The read-only line of a field.
pub fn render(data: &[&Value], label: &String) -> (r: TextLine)
    ensures
        r.label == *label,
        r.shown == shown_of(deref_seq(data@)),
{
    let shown = if data.len() == 0 {
        Shown::Nothing
    } else {
        match get_same_or_none(data) {
            Some(v) => Shown::Value(v),
            None => Shown::Inconsistent,
        }
    };
    TextLine { label: label.clone(), shown }
}

/// Whether no selected value is absent.
fn none_absent(data: &[&Value]) -> (r: bool)
    ensures
        r == (forall|i: int| 0 <= i < data@.len() ==> !(#[trigger] deref_seq(data@)[i] is Absent)),
{
    let mut i: usize = 0;
    while i < data.len()
        invariant
            0 <= i <= data@.len(),
            forall|j: int| 0 <= j < i ==> !(#[trigger] deref_seq(data@)[j] is Absent),
        decreases data@.len() - i,
    {
        if let Value::Absent = data[i] {
            assert(deref_seq(data@)[i as int] is Absent);
            return false;
        }
        i = i + 1;
    }
    true
}

/// The placeholder for diverging values of the kind of `v`.
fn placeholder(v: &Value) -> (r: Value)
    ensures
        is_placeholder_for(r, *v),
{
    match v {
        Value::Bool(_) => Value::Bool(false),
        Value::F32(_) => Value::F32(F32_ZERO),
        Value::U32(_) => Value::U32(0),
        Value::Usize(_) => Value::Usize(0),
        Value::Text(_) => Value::Text(String::new()),
        Value::Variant(_) => Value::Variant(0),
        Value::Absent => Value::Absent,
    }
}

/// The control of the given style that starts from `seed`.
fn control_of(style: &FieldStyle, seed: Value) -> (r: Control)
    ensures
        control_for(r, *style, seed),
{
    match seed {
        Value::Bool(b) => Control::Checkbox(b),
        Value::F32(x) => match style {
            FieldStyle::Default(_) => Control::InputFloat(x),
            FieldStyle::Slider(a) => {
                let (min, max) = a.bounds();
                Control::Slider { value: x, min, max }
            },
        },
        Value::U32(n) => Control::InputU32(n),
        Value::Usize(n) => Control::InputUsize(n),
        Value::Text(t) => Control::InputText(t),
        Value::Variant(i) => Control::Combo(i),
        Value::Absent => Control::ReadOnly(Shown::Value(Value::Absent)),
    }
}

/// The editable widget of a field.
pub fn widget(data: &[&Value], label: &String, style: &FieldStyle) -> (r: FieldWidget)
    ensures
        r.label == *label,
        r.inconsistent == !all_agree(deref_seq(data@)),
        control_matches(r.control, *style, deref_seq(data@)),
{
    let ghost s = deref_seq(data@);
    let common = get_same_or_none(data);
    let inconsistent = common.is_none();
    let control = if data.len() == 0 || !none_absent(data) {
        let line = render(data, label);
        Control::ReadOnly(line.shown)
    } else {
        match common {
            Some(v) => control_of(style, v),
            None => {
                let seed = placeholder(data[0]);
                let c = control_of(style, seed);
                assert(is_placeholder_for(seed, s[0]) && control_for(c, *style, seed));
                c
            },
        }
    };
    FieldWidget { label: label.clone(), control, inconsistent }
}

/// Writes an edit committed through the widget of a field to every selected value.
/// Returns whether it was written.
pub fn render_mut(data: &mut [&mut Value], edit: Option<Value>) -> (changed: bool)
    ensures
        changed == commits(deref_mut_seq(old(data)@), edit),
        final(data)@.len() == old(data)@.len(),
        forall|i: int|
            0 <= i < final(data)@.len() ==> *#[trigger] final(data)@[i] == if changed {
                edit->0
            } else {
                *old(data)@[i]
            },
        forall|i: int|
            0 <= i < final(data)@.len() ==> *final(#[trigger] final(data)@[i])
                == *final(old(data)@[i]),
{
    let v = match edit {
        Some(v) => v,
        None => {
            return false;
        },
    };
    if data.len() == 0 {
        return false;
    }
    let mut i: usize = 0;
    while i < data.len()
        invariant
            0 <= i <= data@.len(),
            data@ == old(data)@,
            forall|j: int| 0 <= j < i ==> !(#[trigger] deref_mut_seq(data@)[j] is Absent),
        decreases data@.len() - i,
    {
        if let Value::Absent = data[i] {
            assert(deref_mut_seq(data@)[i as int] is Absent);
            return false;
        }
        i = i + 1;
    }
    if !kinds_match(&v, data[0]) {
        return false;
    }
    let mut i: usize = 0;
    while i < data.len()
        invariant
            0 <= i <= data@.len(),
            data@.len() == old(data)@.len(),
            forall|j: int| 0 <= j < i ==> *#[trigger] data@[j] == v,
            forall|j: int| i <= j < data@.len() ==> *#[trigger] data@[j] == *old(data)@[j],
            forall|j: int|
                0 <= j < data@.len() ==> *final(#[trigger] data@[j]) == *final(old(data)@[j]),
        decreases data@.len() - i,
    {
        *data[i] = v.duplicate();
        i = i + 1;
    }
    true
}

} // verus!
