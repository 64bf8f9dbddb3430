//! Rendering a selection of struct instances field by field.
use vstd::prelude::*;
use crate::args::{InspectArgsStruct, setting_or};
use crate::descriptor::{FieldDescriptor, StructDescriptor};
use crate::field::{
    FieldWidget, TextLine, commits, control_matches, render, shown_of, widget,
    will_commit,
};
use crate::selection::all_agree;
use crate::value::Value;

verus! {

/// An instance of an inspected struct: the values of its fields in declaration order.
#[derive(Debug, Clone, PartialEq)]
pub struct Instance {
    pub fields: Vec<Value>,
}

/// One step of drawing.
#[derive(Debug, Clone, PartialEq)]
pub enum DrawItem {
    /// A collapsible section with this title.
    Header(String),
    /// Enter the widget-identity scope of this label.
    PushId(String),
    /// Leave the innermost widget-identity scope.
    PopId,
    Indent,
    Unindent,
    /// The read-only line of a field.
    Line(TextLine),
    /// The editable widget of the field at this position.
    Widget { field: usize, widget: FieldWidget },
}

/// An on-change call owed after an edit: the method of the field at position `field`,
/// called on the selected instance at position `instance`.
#[derive(Debug, Clone, PartialEq)]
pub struct CallbackCall {
    pub field: usize,
    pub instance: usize,
    pub method: String,
}

/// What an editing pass did.
#[derive(Debug, Clone, PartialEq)]
pub struct MutOutcome {
    /// Whether any field was written.
    pub changed: bool,
    /// The on-change calls owed, in order.
    pub callbacks: Vec<CallbackCall>,
}

/// The instances behind a read-only selection.
pub open spec fn instances(s: Seq<&Instance>) -> Seq<Instance> {
    Seq::new(s.len(), |i: int| *s[i])
}

/// The instances behind a writable selection.
pub open spec fn instances_mut(s: Seq<&mut Instance>) -> Seq<Instance> {
    Seq::new(s.len(), |i: int| *s[i])
}

/// Whether every instance has one value per field of the struct.
pub open spec fn fits(d: StructDescriptor, s: Seq<Instance>) -> bool {
    forall|i: int| 0 <= i < s.len() ==> (#[trigger] s[i]).fields@.len() == d.fields@.len()
}

/// The values of field `f` across the instances.
pub open spec fn column(s: Seq<Instance>, f: int) -> Seq<Value> {
    Seq::new(s.len(), |i: int| s[i].fields@[f])
}

/// Whether the fields are drawn: there is no header, or it is open.
pub open spec fn body_visible(args: InspectArgsStruct, header_open: bool) -> bool {
    !setting_or(args.header, false) || header_open
}

/// The read-only lines of the first `k` fields: one per field that is not skipped,
/// none when nothing is selected.
pub open spec fn field_lines(d: StructDescriptor, s: Seq<Instance>, k: int) -> Seq<DrawItem>
    decreases k,
{
    if k <= 0 {
        Seq::empty()
    } else {
        let f = d.fields@[k - 1];
        field_lines(d, s, k - 1) + if f.skip || s.len() == 0 {
            Seq::empty()
        } else {
            seq![DrawItem::Line(TextLine { label: f.ident, shown: shown_of(column(s, k - 1)) })]
        }
    }
}

/// The drawing of a struct around the drawing of its fields: the optional header,
/// then, unless it is closed, the identity scope of the label and the optional
/// indentation around the fields.
pub open spec fn framed(
    d: StructDescriptor,
    label: String,
    args: InspectArgsStruct,
    header_open: bool,
    body: Seq<DrawItem>,
) -> Seq<DrawItem> {
    let head = if setting_or(args.header, false) {
        seq![DrawItem::Header(d.ident)]
    } else {
        Seq::empty()
    };
    let indent = setting_or(args.indent_children, false);
    if !body_visible(args, header_open) {
        head
    } else {
        head + seq![DrawItem::PushId(label)] + (if indent {
            seq![DrawItem::Indent]
        } else {
            Seq::empty()
        }) + body + (if indent {
            seq![DrawItem::Unindent]
        } else {
            Seq::empty()
        }) + seq![DrawItem::PopId]
    }
}

/// Whether `w` is the editable widget of field `f` for the values `s`.
pub open spec fn widget_fits(w: FieldWidget, f: FieldDescriptor, s: Seq<Value>) -> bool {
    &&& w.label == f.ident
    &&& w.inconsistent == !all_agree(s)
    &&& control_matches(w.control, f.style, s)
}

/// Whether `items` are the editable widgets of the first `k` fields: one per field that
/// is not skipped, in order.
pub open spec fn field_widgets(
    items: Seq<DrawItem>,
    d: StructDescriptor,
    s: Seq<Instance>,
    k: int,
) -> bool
    decreases k,
{
    if k <= 0 {
        items.len() == 0
    } else if d.fields@[k - 1].skip {
        field_widgets(items, d, s, k - 1)
    } else {
        &&& items.len() > 0
        &&& field_widgets(items.drop_last(), d, s, k - 1)
        &&& items.last() matches DrawItem::Widget { field, widget }
        &&& field == k - 1
        &&& widget_fits(widget, d.fields@[k - 1], column(s, k - 1))
    }
}

/// Whether an edit of field `f` is written: the fields are drawn, the field is not
/// skipped, and its widget commits the edit.
pub open spec fn field_commits(
    d: StructDescriptor,
    s: Seq<Instance>,
    edits: Seq<Option<Value>>,
    visible: bool,
    f: int,
) -> bool {
    visible && !d.fields@[f].skip && commits(column(s, f), edits[f])
}

/// The values of instance `i` once the edits of the first `k` fields are written.
pub open spec fn edited_upto(
    d: StructDescriptor,
    s: Seq<Instance>,
    edits: Seq<Option<Value>>,
    visible: bool,
    i: int,
    k: int,
) -> Seq<Value> {
    Seq::new(
        d.fields@.len(),
        |f: int|
            if f < k && field_commits(d, s, edits, visible, f) {
                edits[f]->0
            } else {
                s[i].fields@[f]
            },
    )
}

/// The values of instance `i` after an editing pass.
pub open spec fn edited_fields(
    d: StructDescriptor,
    s: Seq<Instance>,
    edits: Seq<Option<Value>>,
    visible: bool,
    i: int,
) -> Seq<Value> {
    edited_upto(d, s, edits, visible, i, d.fields@.len() as int)
}

/// Whether some field among the first `k` is written.
pub open spec fn any_commits(
    d: StructDescriptor,
    s: Seq<Instance>,
    edits: Seq<Option<Value>>,
    visible: bool,
    k: int,
) -> bool {
    exists|f: int| 0 <= f < k && field_commits(d, s, edits, visible, f)
}

/// The on-change calls owed for the first `k` fields, as (field, instance) pairs: for
/// each field that is written and has an on-change method, one per selected instance,
/// in selection order.
pub open spec fn owed_calls(
    d: StructDescriptor,
    s: Seq<Instance>,
    edits: Seq<Option<Value>>,
    visible: bool,
    k: int,
) -> Seq<(int, int)>
    decreases k,
{
    if k <= 0 {
        Seq::empty()
    } else {
        owed_calls(d, s, edits, visible, k - 1) + if field_commits(d, s, edits, visible, k - 1)
            && d.fields@[k - 1].on_set is Some {
            Seq::new(s.len(), |i: int| (k - 1, i))
        } else {
            Seq::empty()
        }
    }
}

/// The (field, instance) pair of an on-change call.
pub open spec fn call_pair(c: CallbackCall) -> (int, int) {
    (c.field as int, c.instance as int)
}

/// Wraps the drawing of the fields as `framed` says.
fn frame(
    d: &StructDescriptor,
    label: &String,
    args: &InspectArgsStruct,
    header_open: bool,
    body: Vec<DrawItem>,
) -> (r: Vec<DrawItem>)
    ensures
        r@ == framed(*d, *label, *args, header_open, body@),
{
    let ghost b = body@;
    let mut out: Vec<DrawItem> = Vec::new();
    let header = args.shows_header();
    if header {
        out.push(DrawItem::Header(d.ident.clone()));
        if !header_open {
            assert(out@ =~= framed(*d, *label, *args, header_open, b));
            return out;
        }
    }
    let indent = args.indents();
    out.push(DrawItem::PushId(label.clone()));
    if indent {
        out.push(DrawItem::Indent);
    }
    let mut body = body;
    out.append(&mut body);
    if indent {
        out.push(DrawItem::Unindent);
    }
    out.push(DrawItem::PopId);
    assert(out@ =~= framed(*d, *label, *args, header_open, b));
    out
}

/// The values of field `f` across a read-only selection.
fn column_of<'a>(data: &[&'a Instance], f: usize) -> (r: Vec<&'a Value>)
    requires
        forall|i: int| 0 <= i < data@.len() ==> f < (#[trigger] data@[i]).fields@.len(),
    ensures
        r@.len() == data@.len(),
        forall|i: int| 0 <= i < data@.len() ==> *#[trigger] r@[i] == data@[i].fields@[f as int],
{
    let mut out: Vec<&Value> = Vec::new();
    let mut i: usize = 0;
    while i < data.len()
        invariant
            0 <= i <= data@.len(),
            out@.len() == i,
            forall|i: int| 0 <= i < data@.len() ==> f < (#[trigger] data@[i]).fields@.len(),
            forall|j: int| 0 <= j < i ==> *#[trigger] out@[j] == data@[j].fields@[f as int],
        decreases data@.len() - i,
    {
        out.push(&data[i].fields[f]);
        i = i + 1;
    }
    out
}

/// The read-only drawing of a selection of instances.
///
/// `header_open` is whether the collapsible header, where there is one, is open.
pub fn render_struct(
    d: &StructDescriptor,
    data: &[&Instance],
    label: &String,
    args: &InspectArgsStruct,
    header_open: bool,
) -> (r: Vec<DrawItem>)
    requires
        fits(*d, instances(data@)),
    ensures
        r@ == framed(
            *d,
            *label,
            *args,
            header_open,
            field_lines(*d, instances(data@), d.fields@.len() as int),
        ),
{
    let ghost s = instances(data@);
    let mut body: Vec<DrawItem> = Vec::new();
    let mut f: usize = 0;
    while f < d.fields.len()
        invariant
            0 <= f <= d.fields@.len(),
            s == instances(data@),
            fits(*d, s),
            body@ == field_lines(*d, s, f as int),
        decreases d.fields@.len() - f,
    {
        let fd = &d.fields[f];
        if !fd.skip && data.len() > 0 {
            assert forall|i: int| 0 <= i < data@.len() implies f < (
            #[trigger] data@[i]).fields@.len() by {
                assert(s[i] == *data@[i]);
            }
            let col = column_of(data, f);
            let line = render(col.as_slice(), &fd.ident);
            assert(crate::selection::deref_seq(col@) =~= column(s, f as int));
            body.push(DrawItem::Line(line));
        }
        f = f + 1;
    }
    frame(d, label, args, header_open, body)
}

/// The editable drawing of a selection of instances: one widget per field that is not
/// skipped.
///
/// `header_open` is whether the collapsible header, where there is one, is open.
pub fn render_mut_widgets(
    d: &StructDescriptor,
    data: &[&Instance],
    label: &String,
    args: &InspectArgsStruct,
    header_open: bool,
) -> (r: Vec<DrawItem>)
    requires
        fits(*d, instances(data@)),
    ensures
        exists|body: Seq<DrawItem>|
            {
                &&& field_widgets(body, *d, instances(data@), d.fields@.len() as int)
                &&& r@ == framed(*d, *label, *args, header_open, body)
            },
{
    let ghost s = instances(data@);
    let mut body: Vec<DrawItem> = Vec::new();
    let mut f: usize = 0;
    while f < d.fields.len()
        invariant
            0 <= f <= d.fields@.len(),
            s == instances(data@),
            fits(*d, s),
            field_widgets(body@, *d, s, f as int),
        decreases d.fields@.len() - f,
    {
        let fd = &d.fields[f];
        if !fd.skip {
            assert forall|i: int| 0 <= i < data@.len() implies f < (
            #[trigger] data@[i]).fields@.len() by {
                assert(s[i] == *data@[i]);
            }
            let col = column_of(data, f);
            let w = widget(col.as_slice(), &fd.ident, &fd.style);
            assert(crate::selection::deref_seq(col@) =~= column(s, f as int));
            let ghost before = body@;
            body.push(DrawItem::Widget { field: f, widget: w });
            assert(body@.drop_last() =~= before);
        }
        f = f + 1;
    }
    let ghost b = body@;
    let r = frame(d, label, args, header_open, body);
    assert(field_widgets(b, *d, s, d.fields@.len() as int));
    r
}

/// Writes the edits committed through the widgets of a selection of instances.
///
/// `edits` holds, for each field in declaration order, the value committed through its
/// widget, if any. A field is written when `field_commits` says so: its value becomes
/// the committed one in every selected instance. The result tells whether any field
/// was written, and lists the on-change calls that are owed, to be made in order.
pub fn render_mut(
    d: &StructDescriptor,
    data: &mut [&mut Instance],
    args: &InspectArgsStruct,
    header_open: bool,
    edits: &Vec<Option<Value>>,
) -> (r: MutOutcome)
    requires
        fits(*d, instances_mut(old(data)@)),
        edits@.len() == d.fields@.len(),
    ensures
        final(data)@.len() == old(data)@.len(),
        forall|i: int|
            0 <= i < final(data)@.len() ==> (*#[trigger] final(data)@[i]).fields@
                == edited_fields(
                *d,
                instances_mut(old(data)@),
                edits@,
                body_visible(*args, header_open),
                i,
            ),
        forall|i: int|
            0 <= i < final(data)@.len() ==> *final(#[trigger] final(data)@[i])
                == *final(old(data)@[i]),
        r.changed == any_commits(
            *d,
            instances_mut(old(data)@),
            edits@,
            body_visible(*args, header_open),
            d.fields@.len() as int,
        ),
        r.callbacks@.map_values(|c: CallbackCall| call_pair(c)) == owed_calls(
            *d,
            instances_mut(old(data)@),
            edits@,
            body_visible(*args, header_open),
            d.fields@.len() as int,
        ),
        forall|j: int|
            0 <= j < r.callbacks@.len() ==> (#[trigger] r.callbacks@[j]).field < d.fields@.len()
                && d.fields@[r.callbacks@[j].field as int].on_set == Some(r.callbacks@[j].method),
{
    let ghost s0 = instances_mut(data@);
    let ghost visible = body_visible(*args, header_open);
    let visible_now = !args.shows_header() || header_open;
    let n = data.len();
    let nf = d.fields.len();
    let mut changed = false;
    let mut calls: Vec<CallbackCall> = Vec::new();
    let mut f: usize = 0;
    while f < nf
        invariant
            0 <= f <= nf,
            nf == d.fields@.len(),
            n == data@.len(),
            data@.len() == old(data)@.len(),
            s0 == instances_mut(old(data)@),
            visible == body_visible(*args, header_open),
            visible_now == visible,
            edits@.len() == nf,
            fits(*d, s0),
            forall|i: int|
                0 <= i < n ==> (*#[trigger] data@[i]).fields@ == edited_upto(
                    *d,
                    s0,
                    edits@,
                    visible,
                    i,
                    f as int,
                ),
            forall|i: int| 0 <= i < n ==> *final(#[trigger] data@[i]) == *final(old(data)@[i]),
            changed == any_commits(*d, s0, edits@, visible, f as int),
            calls@.map_values(|c: CallbackCall| call_pair(c)) == owed_calls(
                *d,
                s0,
                edits@,
                visible,
                f as int,
            ),
            forall|j: int|
                0 <= j < calls@.len() ==> (#[trigger] calls@[j]).field < nf && d.fields@[calls@[j].field as int].on_set
                    == Some(calls@[j].method),
        decreases nf - f,
    {
        let fd = &d.fields[f];
        let mut col: Vec<Value> = Vec::new();
        let mut i: usize = 0;
        while i < n
            invariant
                0 <= i <= n,
                n == data@.len(),
                f < nf,
                nf == d.fields@.len(),
                col@.len() == i,
                fits(*d, s0),
                s0.len() == n,
                forall|i: int|
                    0 <= i < n ==> (*#[trigger] data@[i]).fields@ == edited_upto(
                        *d,
                        s0,
                        edits@,
                        visible,
                        i,
                        f as int,
                    ),
                forall|j: int| 0 <= j < i ==> #[trigger] col@[j] == s0[j].fields@[f as int],
            decreases n - i,
        {
            assert((*data@[i as int]).fields@ == edited_upto(*d, s0, edits@, visible, i as int, f as int));
            assert(s0[i as int].fields@.len() == nf);
            col.push(data[i].fields[f].duplicate());
            i = i + 1;
        }
        proof {
            assert(col@ =~= column(s0, f as int));
        }
        let ghost prev_calls = calls@;
        if visible_now && !fd.skip && will_commit(&col, &edits[f]) {
            let v = match &edits[f] {
                Some(v) => v.duplicate(),
                None => Value::Absent,
            };
            let mut i: usize = 0;
            while i < n
                invariant
                    0 <= i <= n,
                    n == data@.len(),
                    f < nf,
                    nf == d.fields@.len(),
                    fits(*d, s0),
                    s0.len() == n,
                    edits@.len() == nf,
                    field_commits(*d, s0, edits@, visible, f as int),
                    v == edits@[f as int]->0,
                    forall|j: int|
                        0 <= j < i ==> (*#[trigger] data@[j]).fields@ == edited_upto(
                            *d,
                            s0,
                            edits@,
                            visible,
                            j,
                            f + 1,
                        ),
                    forall|j: int|
                        i <= j < n ==> (*#[trigger] data@[j]).fields@ == edited_upto(
                            *d,
                            s0,
                            edits@,
                            visible,
                            j,
                            f as int,
                        ),
                    forall|j: int|
                        0 <= j < n ==> *final(#[trigger] data@[j]) == *final(old(data)@[j]),
                decreases n - i,
            {
                assert(s0[i as int].fields@.len() == nf);
                data[i].fields.set(f, v.duplicate());
                assert((*data@[i as int]).fields@ =~= edited_upto(*d, s0, edits@, visible, i as int, f + 1));
                i = i + 1;
            }
            changed = true;
            match &fd.on_set {
                Some(m) => {
                    let mut i: usize = 0;
                    while i < n
                        invariant
                            0 <= i <= n,
                            calls@.len() == prev_calls.len() + i,
                            calls@.subrange(0, prev_calls.len() as int) == prev_calls,
                            forall|j: int| 0 <= j < i ==> call_pair(#[trigger] calls@[prev_calls.len() + j]) == (f as int, j),
                            forall|j: int|
                                0 <= j < calls@.len() ==> (#[trigger] calls@[j]).field < nf && d.fields@[calls@[j].field as int].on_set
                                    == Some(calls@[j].method),
                            f < nf,
                            nf == d.fields@.len(),
                            fd.on_set == Some(*m),
                            *fd == d.fields@[f as int],
                        decreases n - i,
                    {
                        calls.push(CallbackCall { field: f, instance: i, method: m.clone() });
                        i = i + 1;
                    }
                    proof {
                        let cp = |c: CallbackCall| call_pair(c);
                        assert forall|j: int| 0 <= j < prev_calls.len() implies calls@[j] == prev_calls[j] by {
                            assert(calls@.subrange(0, prev_calls.len() as int)[j] == calls@[j]);
                        }
                        let tail = Seq::new(n as nat, |i: int| (f as int, i));
                        assert forall|k: int| prev_calls.len() <= k < calls@.len() implies #[trigger] calls@.map_values(cp)[k] == tail[k - prev_calls.len()] by {
                            let j = k - prev_calls.len();
                            assert(call_pair(calls@[prev_calls.len() + j]) == (f as int, j));
                        }
                        assert(calls@.map_values(cp) =~= prev_calls.map_values(cp) + Seq::new(
                            n as nat,
                            |i: int| (f as int, i),
                        ));
                    }
                },
                None => {},
            }
        } else {
            proof {
                assert(!field_commits(*d, s0, edits@, visible, f as int));
                assert forall|i: int| 0 <= i < n implies (*#[trigger] data@[i]).fields@ == edited_upto(
                    *d,
                    s0,
                    edits@,
                    visible,
                    i,
                    f + 1,
                ) by {
                    assert(edited_upto(*d, s0, edits@, visible, i, f as int) =~= edited_upto(*d, s0, edits@, visible, i, f + 1));
                }
            }
        }
        proof {
            assert(s0.len() == n);
            assert(calls@.map_values(|c: CallbackCall| call_pair(c)) =~= owed_calls(
                *d,
                s0,
                edits@,
                visible,
                f + 1,
            ));
        }
        f = f + 1;
    }
    MutOutcome { changed, callbacks: calls }
}

} // verus!
