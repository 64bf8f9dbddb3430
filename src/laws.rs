//! Properties that hold of every selection, every field and every declared type.
use vstd::prelude::*;
use crate::derive::{
    ItemDef, DeriveError, derived, default_path, fields_parse, has_path,
    parse_field_spec, slider_path, variants_plain,
};
use crate::descriptor::{ItemDescriptor, StructDescriptor};
use crate::field::{Control, FieldStyle, Shown, commits, control_for, control_matches, shown_of};
use crate::inspect::{
    DrawItem, Instance, any_commits, column, edited_fields, field_commits, field_lines,
    field_widgets, fits, owed_calls,
};
use crate::selection::all_agree;
use crate::value::{Value, value_eq};

verus! {

/// A single selected value that equals itself is shown as it is by the read-only line,
/// the editable widget starts from it, and nothing is written without an edit.
pub proof fn law_single_value_shown_alike(v: Value, style: FieldStyle, c: Control)
    requires
        value_eq(v, v),
        control_matches(c, style, seq![v]),
    ensures
        shown_of(seq![v]) == Shown::Value(v),
        !(v is Absent) ==> control_for(c, style, v),
        v is Absent ==> c == Control::ReadOnly(Shown::Value(v)),
        !commits(seq![v], None),
{
    assert(all_agree(seq![v]));
}

/// Without any edit, an editing pass writes nothing and reports no change.
pub proof fn law_no_edit_no_change(
    d: StructDescriptor,
    s: Seq<Instance>,
    edits: Seq<Option<Value>>,
    visible: bool,
)
    requires
        edits.len() == d.fields@.len(),
        forall|f: int| 0 <= f < edits.len() ==> #[trigger] edits[f] is None,
    ensures
        !any_commits(d, s, edits, visible, d.fields@.len() as int),
        forall|i: int, f: int|
            0 <= i < s.len() && 0 <= f < d.fields@.len() ==> #[trigger] edited_fields(
                d,
                s,
                edits,
                visible,
                i,
            )[f] == s[i].fields@[f],
{
    assert forall|f: int| 0 <= f < d.fields@.len() implies !field_commits(d, s, edits, visible, f) by {
        assert(edits[f] is None);
    }
}

/// The agreement of two values is symmetric and transitive.
proof fn lemma_value_eq_symmetric_transitive(a: Value, b: Value, c: Value)
    ensures
        value_eq(a, b) ==> value_eq(b, a),
        value_eq(a, c) && value_eq(b, c) ==> value_eq(a, b),
{
}

/// Where two selected values diverge, both the read-only line and the editable widget
/// say so rather than show one of them.
pub proof fn law_divergence_signalled(s: Seq<Value>, i: int, j: int)
    requires
        s.len() >= 2,
        0 <= i < s.len(),
        0 <= j < s.len(),
        !value_eq(s[i], s[j]),
    ensures
        shown_of(s) == Shown::Inconsistent,
        !all_agree(s),
{
    if all_agree(s) {
        lemma_value_eq_symmetric_transitive(s[i], s[j], s[0]);
    }
}

/// A written field takes the committed value in every selected instance alike.
pub proof fn law_bulk_apply(
    d: StructDescriptor,
    s: Seq<Instance>,
    edits: Seq<Option<Value>>,
    visible: bool,
    f: int,
    i: int,
)
    requires
        0 <= f < d.fields@.len(),
        0 <= i < s.len(),
        field_commits(d, s, edits, visible, f),
    ensures
        edited_fields(d, s, edits, visible, i)[f] == edits[f]->0,
{
}

/// The (field, instance) pairs owed for the first `k` fields name fields below `k` and
/// selected instances.
proof fn lemma_owed_calls_bounds(
    d: StructDescriptor,
    s: Seq<Instance>,
    edits: Seq<Option<Value>>,
    visible: bool,
    k: int,
)
    ensures
        forall|j: int|
            0 <= j < owed_calls(d, s, edits, visible, k).len() ==> {
                let c = #[trigger] owed_calls(d, s, edits, visible, k)[j];
                0 <= c.0 < k && 0 <= c.1 < s.len()
            },
    decreases k,
{
    if k > 0 {
        lemma_owed_calls_bounds(d, s, edits, visible, k - 1);
        let prev = owed_calls(d, s, edits, visible, k - 1);
        let all = owed_calls(d, s, edits, visible, k);
        assert forall|j: int| 0 <= j < all.len() implies {
            let c = #[trigger] all[j];
            0 <= c.0 < k && 0 <= c.1 < s.len()
        } by {
            if j < prev.len() {
                assert(all[j] == prev[j]);
            }
        }
    }
}

/// After an edit of a field with an on-change method, the method is owed exactly once
/// for each selected instance; a field that is not written owes no call.
pub proof fn law_on_change_once_per_instance(
    d: StructDescriptor,
    s: Seq<Instance>,
    edits: Seq<Option<Value>>,
    visible: bool,
    k: int,
    f: int,
    i: int,
)
    requires
        0 <= f < k <= d.fields@.len(),
        0 <= i < s.len(),
    ensures
        field_commits(d, s, edits, visible, f) && d.fields@[f].on_set is Some ==> exists|j: int|
            0 <= j < owed_calls(d, s, edits, visible, k).len() && #[trigger] owed_calls(
                d,
                s,
                edits,
                visible,
                k,
            )[j] == (f, i),
        forall|j1: int, j2: int|
            0 <= j1 < owed_calls(d, s, edits, visible, k).len() && 0 <= j2 < owed_calls(
                d,
                s,
                edits,
                visible,
                k,
            ).len() && #[trigger] owed_calls(d, s, edits, visible, k)[j1] == (f, i)
                && #[trigger] owed_calls(d, s, edits, visible, k)[j2] == (f, i) ==> j1 == j2,
        !(field_commits(d, s, edits, visible, f) && d.fields@[f].on_set is Some) ==> forall|
            j: int,
        |
            0 <= j < owed_calls(d, s, edits, visible, k).len() ==> (#[trigger] owed_calls(
                d,
                s,
                edits,
                visible,
                k,
            )[j]).0 != f,
    decreases k,
{
    let prev = owed_calls(d, s, edits, visible, k - 1);
    let all = owed_calls(d, s, edits, visible, k);
    let owes = field_commits(d, s, edits, visible, k - 1) && d.fields@[k - 1].on_set is Some;
    lemma_owed_calls_bounds(d, s, edits, visible, k - 1);
    if f < k - 1 {
        law_on_change_once_per_instance(d, s, edits, visible, k - 1, f, i);
        if field_commits(d, s, edits, visible, f) && d.fields@[f].on_set is Some {
            let j = choose|j: int| 0 <= j < prev.len() && #[trigger] prev[j] == (f, i);
            assert(all[j] == prev[j]);
        }
        assert forall|j1: int, j2: int|
            0 <= j1 < all.len() && 0 <= j2 < all.len() && #[trigger] all[j1] == (f, i)
                && #[trigger] all[j2] == (f, i) implies j1 == j2 by {
            if j1 >= prev.len() {
                assert(all[j1].0 == k - 1);
            }
            if j2 >= prev.len() {
                assert(all[j2].0 == k - 1);
            }
            assert(all[j1] == prev[j1]);
            assert(all[j2] == prev[j2]);
        }
        assert forall|j: int| 0 <= j < all.len() && !(field_commits(d, s, edits, visible, f)
            && d.fields@[f].on_set is Some) implies (#[trigger] all[j]).0 != f by {
            if j < prev.len() {
                assert(all[j] == prev[j]);
            }
        }
    } else {
        if owes {
            assert(all[prev.len() + i] == (f, i));
        }
        assert forall|j1: int, j2: int|
            0 <= j1 < all.len() && 0 <= j2 < all.len() && #[trigger] all[j1] == (f, i)
                && #[trigger] all[j2] == (f, i) implies j1 == j2 by {
            if j1 < prev.len() {
                assert(all[j1] == prev[j1]);
            }
            if j2 < prev.len() {
                assert(all[j2] == prev[j2]);
            }
        }
        assert forall|j: int| 0 <= j < all.len() && !owes implies (#[trigger] all[j]).0 != f by {
            assert(all =~= prev);
        }
    }
}

/// Whether two selections have the same length and agree on every field but `f`.
pub open spec fn agree_except(s1: Seq<Instance>, s2: Seq<Instance>, f: int) -> bool {
    &&& s1.len() == s2.len()
    &&& forall|i: int| 0 <= i < s1.len() ==> (#[trigger] s1[i]).fields@.len() == s2[i].fields@.len()
    &&& forall|i: int, g: int|
        0 <= i < s1.len() && 0 <= g < s1[i].fields@.len() && g != f ==> #[trigger] s1[i].fields@[g]
            == #[trigger] s2[i].fields@[g]
}

/// A skipped field is never written.
pub proof fn law_skipped_field_not_written(
    d: StructDescriptor,
    s: Seq<Instance>,
    edits: Seq<Option<Value>>,
    visible: bool,
    f: int,
    i: int,
)
    requires
        0 <= f < d.fields@.len(),
        0 <= i < s.len(),
        d.fields@[f].skip,
    ensures
        edited_fields(d, s, edits, visible, i)[f] == s[i].fields@[f],
        !field_commits(d, s, edits, visible, f),
{
}

/// A skipped field is never read: selections that differ only in it give the same
/// read-only lines, the same editable widgets, the same writes to the other fields,
/// and the same on-change calls.
pub proof fn law_skipped_field_not_read(
    d: StructDescriptor,
    s1: Seq<Instance>,
    s2: Seq<Instance>,
    edits: Seq<Option<Value>>,
    visible: bool,
    f: int,
    k: int,
)
    requires
        0 <= f < d.fields@.len(),
        0 <= k <= d.fields@.len(),
        d.fields@[f].skip,
        fits(d, s1),
        agree_except(s1, s2, f),
    ensures
        field_lines(d, s1, k) == field_lines(d, s2, k),
        forall|items: Seq<DrawItem>|
            #[trigger] field_widgets(items, d, s1, k) == field_widgets(items, d, s2, k),
        any_commits(d, s1, edits, visible, k) == any_commits(d, s2, edits, visible, k),
        owed_calls(d, s1, edits, visible, k) == owed_calls(d, s2, edits, visible, k),
        forall|i: int, g: int|
            0 <= i < s1.len() && 0 <= g < d.fields@.len() && g != f ==> #[trigger] edited_fields(
                d,
                s1,
                edits,
                visible,
                i,
            )[g] == edited_fields(d, s2, edits, visible, i)[g],
    decreases k,
{
    assert forall|g: int| 0 <= g < d.fields@.len() && g != f implies #[trigger] column(s1, g)
        == column(s2, g) by {
        assert(column(s1, g) =~= column(s2, g));
    }
    assert forall|g: int| 0 <= g < d.fields@.len() implies #[trigger] field_commits(
        d,
        s1,
        edits,
        visible,
        g,
    ) == field_commits(d, s2, edits, visible, g) by {
        if g != f {
            assert(column(s1, g) == column(s2, g));
        }
    }
    if k > 0 {
        law_skipped_field_not_read(d, s1, s2, edits, visible, f, k - 1);
        if k - 1 != f {
            assert(column(s1, k - 1) == column(s2, k - 1));
        }
        assert forall|items: Seq<DrawItem>|
            #[trigger] field_widgets(items, d, s1, k) == field_widgets(items, d, s2, k) by {
            assert(field_widgets(items, d, s1, k - 1) == field_widgets(items, d, s2, k - 1));
            if d.fields@[k - 1].skip {
                assert(field_widgets(items, d, s1, k) == field_widgets(items, d, s1, k - 1));
                assert(field_widgets(items, d, s2, k) == field_widgets(items, d, s2, k - 1));
            }
            if !d.fields@[k - 1].skip && items.len() > 0 {
                assert(k - 1 != f);
                assert(column(s1, k - 1) == column(s2, k - 1));
                assert(field_widgets(items.drop_last(), d, s1, k - 1) == field_widgets(
                    items.drop_last(),
                    d,
                    s2,
                    k - 1,
                ));
            }
        }
        if any_commits(d, s1, edits, visible, k) {
            let g = choose|g: int| 0 <= g < k && field_commits(d, s1, edits, visible, g);
            assert(field_commits(d, s2, edits, visible, g));
        }
        if any_commits(d, s2, edits, visible, k) {
            let g = choose|g: int| 0 <= g < k && field_commits(d, s2, edits, visible, g);
            assert(field_commits(d, s1, edits, visible, g));
        }
    }
}

/// Where field `k` bears both styles and every field before it parses, the derive
/// stops the build with the diagnostic naming field `k`.
pub proof fn law_conflicting_styles_refused(
    item: ItemDef,
    k: int,
    r: Result<ItemDescriptor, DeriveError>,
)
    requires
        item.body is NamedStruct,
        0 <= k < (item.body->NamedStruct_0)@.len(),
        has_path((item.body->NamedStruct_0)@[k].attrs@, slider_path()),
        has_path((item.body->NamedStruct_0)@[k].attrs@, default_path()),
        fields_parse((item.body->NamedStruct_0)@, k),
        derived(item, r),
    ensures
        r == Err::<ItemDescriptor, DeriveError>(
            DeriveError::TooManyStyles { field: (item.body->NamedStruct_0)@[k].ident },
        ),
{
    let fields = (item.body->NamedStruct_0)@;
    assert(parse_field_spec(fields[k]) is Err);
    match r {
        Ok(_) => {},
        Err(e) => {
            let k2 = choose|k2: int|
                {
                    &&& 0 <= k2 < fields.len()
                    &&& fields_parse(fields, k2)
                    &&& #[trigger] parse_field_spec(fields[k2]) == Err::<
                        crate::descriptor::FieldDescriptor,
                        DeriveError,
                    >(e)
                };
            if k2 < k {
                assert(parse_field_spec(fields[k2]) is Ok);
            } else if k2 > k {
                assert(parse_field_spec(fields[k]) is Ok);
            }
        },
    }
}

/// Where variant `k` carries data and no variant before it does, the derive stops the
/// build with the diagnostic naming variant `k`.
pub proof fn law_variant_with_data_refused(
    item: ItemDef,
    k: int,
    r: Result<ItemDescriptor, DeriveError>,
)
    requires
        item.body is Enum,
        0 <= k < (item.body->Enum_0)@.len(),
        (item.body->Enum_0)@[k].has_data,
        variants_plain((item.body->Enum_0)@, k),
        derived(item, r),
    ensures
        r == Err::<ItemDescriptor, DeriveError>(
            DeriveError::VariantWithData { variant: (item.body->Enum_0)@[k].ident },
        ),
{
    let variants = (item.body->Enum_0)@;
    match r {
        Ok(_) => {
            assert(!variants[k].has_data);
        },
        Err(e) => {
            let k2 = choose|k2: int|
                {
                    &&& 0 <= k2 < variants.len()
                    &&& variants_plain(variants, k2)
                    &&& (#[trigger] variants[k2]).has_data
                    &&& e == DeriveError::VariantWithData { variant: variants[k2].ident }
                };
            if k2 < k {
                assert(!variants[k2].has_data);
            } else if k2 > k {
                assert(!variants[k].has_data);
            }
        },
    }
}

/// With nothing selected, no line is shown for any field, nothing is written, no
/// change is reported and no on-change call is owed.
pub proof fn law_empty_selection(
    d: StructDescriptor,
    s: Seq<Instance>,
    edits: Seq<Option<Value>>,
    visible: bool,
    k: int,
)
    requires
        s.len() == 0,
        0 <= k <= d.fields@.len(),
    ensures
        field_lines(d, s, k).len() == 0,
        !any_commits(d, s, edits, visible, k),
        owed_calls(d, s, edits, visible, k).len() == 0,
        shown_of(column(s, 0)) == Shown::Nothing,
    decreases k,
{
    if k > 0 {
        law_empty_selection(d, s, edits, visible, k - 1);
        assert(!field_commits(d, s, edits, visible, k - 1));
    }
}

} // verus!
