//! The derive: reads the annotations of an inspected type and turns them into
//! descriptors, or into the diagnostic that stops the build.
use vstd::prelude::*;
use crate::args::{InspectArgsDefault, InspectArgsSlider, setting_or};
use crate::descriptor::{EnumDescriptor, FieldDescriptor, ItemDescriptor, StructDescriptor};
use crate::field::FieldStyle;

verus! {

/// The value given to an annotation argument: a bare word (`skip`), a boolean, a
/// float given by its bit pattern, a string (`render_trait = "..."`), or anything
/// else (another literal, a nested list), which no argument takes.
#[derive(Debug, Clone, PartialEq)]
pub enum ArgValue {
    Word,
    Bool(bool),
    Float(u32),
    Str(String),
    Other,
}

/// One `key` or `key = value` inside an annotation.
#[derive(Debug, Clone, PartialEq)]
pub struct AttrArg {
    pub key: String,
    pub value: ArgValue,
}

/// One annotation of a field: its path (`inspect`, `inspect_slider`, or any other) and
/// its arguments.
#[derive(Debug, Clone, PartialEq)]
pub struct Attribute {
    pub path: String,
    pub args: Vec<AttrArg>,
}

/// A named field as declared.
#[derive(Debug, Clone, PartialEq)]
pub struct FieldDef {
    pub ident: String,
    pub ty: String,
    pub attrs: Vec<Attribute>,
}

/// An enum variant as declared: its name and whether it carries data.
#[derive(Debug, Clone, PartialEq)]
pub struct VariantDef {
    pub ident: String,
    pub has_data: bool,
}

/// The body of a declared type.
#[derive(Debug, Clone, PartialEq)]
pub enum ItemBody {
    NamedStruct(Vec<FieldDef>),
    TupleStruct,
    UnitStruct,
    Enum(Vec<VariantDef>),
    Union,
}

/// A type that the derive is applied to.
#[derive(Debug, Clone, PartialEq)]
pub struct ItemDef {
    pub ident: String,
    pub body: ItemBody,
}

/// Why the derive stops the build.
#[derive(Debug, Clone, PartialEq)]
pub enum DeriveError {
    /// The field bears both the slider and the default annotation.
    TooManyStyles { field: String },
    /// The field's annotation names an argument that its style does not take.
    UnknownArgument { field: String, key: String },
    /// The field's annotations give one argument twice.
    DuplicateArgument { field: String, key: String },
    /// The field's annotation gives an argument a value of the wrong type.
    WrongArgumentType { field: String, key: String },
    /// The struct's fields have no names.
    UnnamedFields { item: String },
    /// The enum variant carries data.
    VariantWithData { variant: String },
    /// The type is a union.
    UnionNotSupported { item: String },
}

/// The arguments gathered from a field's annotations; unset where not given.
#[derive(Debug, Clone, PartialEq)]
pub struct FieldSettings {
    pub render_trait: Option<String>,
    pub proxy_type: Option<String>,
    pub skip: Option<bool>,
    pub on_set: Option<String>,
    pub min_value: Option<u32>,
    pub max_value: Option<u32>,
    pub step: Option<u32>,
    pub header: Option<bool>,
    pub indent_children: Option<bool>,
}

/// What is wrong with one argument.
#[derive(Debug, Clone, Copy, PartialEq, Eq)]
pub enum ArgProblem {
    Unknown,
    Duplicate,
    WrongType,
}

/// Path of the default-style annotation.
pub open spec fn default_path() -> Seq<char> {
    "inspect"@
}

/// Path of the slider-style annotation.
pub open spec fn slider_path() -> Seq<char> {
    "inspect_slider"@
}

/// Settings with nothing set.
pub open spec fn no_settings() -> FieldSettings {
    FieldSettings {
        render_trait: None,
        proxy_type: None,
        skip: None,
        on_set: None,
        min_value: None,
        max_value: None,
        step: None,
        header: None,
        indent_children: None,
    }
}

/// A string setting, unless it is set already or the value is no string.
pub open spec fn str_setting(cur: Option<String>, v: ArgValue) -> Result<String, ArgProblem> {
    if cur is Some {
        Err(ArgProblem::Duplicate)
    } else {
        match v {
            ArgValue::Str(s) => Ok(s),
            _ => Err(ArgProblem::WrongType),
        }
    }
}

/// A float setting, unless it is set already or the value is no float.
pub open spec fn float_setting(cur: Option<u32>, v: ArgValue) -> Result<u32, ArgProblem> {
    if cur is Some {
        Err(ArgProblem::Duplicate)
    } else {
        match v {
            ArgValue::Float(x) => Ok(x),
            _ => Err(ArgProblem::WrongType),
        }
    }
}

/// A boolean setting, unless it is set already or the value is no boolean; a bare word
/// means true.
pub open spec fn bool_setting(cur: Option<bool>, v: ArgValue) -> Result<bool, ArgProblem> {
    if cur is Some {
        Err(ArgProblem::Duplicate)
    } else {
        match v {
            ArgValue::Word => Ok(true),
            ArgValue::Bool(b) => Ok(b),
            _ => Err(ArgProblem::WrongType),
        }
    }
}

/// The settings after one more argument. Both styles take `render_trait`,
/// `proxy_type`, `skip`, `on_set`, `min_value` and `max_value`; the default style also
/// takes `step`, `header` and `indent_children`.
pub open spec fn apply_arg(acc: FieldSettings, a: AttrArg, slider: bool) -> Result<
    FieldSettings,
    ArgProblem,
> {
    let k = a.key@;
    if k == "render_trait"@ {
        match str_setting(acc.render_trait, a.value) {
            Ok(s) => Ok(FieldSettings { render_trait: Some(s), ..acc }),
            Err(p) => Err(p),
        }
    } else if k == "proxy_type"@ {
        match str_setting(acc.proxy_type, a.value) {
            Ok(s) => Ok(FieldSettings { proxy_type: Some(s), ..acc }),
            Err(p) => Err(p),
        }
    } else if k == "skip"@ {
        match bool_setting(acc.skip, a.value) {
            Ok(b) => Ok(FieldSettings { skip: Some(b), ..acc }),
            Err(p) => Err(p),
        }
    } else if k == "on_set"@ {
        match str_setting(acc.on_set, a.value) {
            Ok(s) => Ok(FieldSettings { on_set: Some(s), ..acc }),
            Err(p) => Err(p),
        }
    } else if k == "min_value"@ {
        match float_setting(acc.min_value, a.value) {
            Ok(x) => Ok(FieldSettings { min_value: Some(x), ..acc }),
            Err(p) => Err(p),
        }
    } else if k == "max_value"@ {
        match float_setting(acc.max_value, a.value) {
            Ok(x) => Ok(FieldSettings { max_value: Some(x), ..acc }),
            Err(p) => Err(p),
        }
    } else if !slider && k == "step"@ {
        match float_setting(acc.step, a.value) {
            Ok(x) => Ok(FieldSettings { step: Some(x), ..acc }),
            Err(p) => Err(p),
        }
    } else if !slider && k == "header"@ {
        match bool_setting(acc.header, a.value) {
            Ok(b) => Ok(FieldSettings { header: Some(b), ..acc }),
            Err(p) => Err(p),
        }
    } else if !slider && k == "indent_children"@ {
        match bool_setting(acc.indent_children, a.value) {
            Ok(b) => Ok(FieldSettings { indent_children: Some(b), ..acc }),
            Err(p) => Err(p),
        }
    } else {
        Err(ArgProblem::Unknown)
    }
}

/// The settings after the arguments `args` in order, or the first argument that is
/// wrong, with what is wrong with it.
pub open spec fn apply_args(acc: FieldSettings, args: Seq<AttrArg>, slider: bool) -> Result<
    FieldSettings,
    (ArgProblem, String),
>
    decreases args.len(),
{
    if args.len() == 0 {
        Ok(acc)
    } else {
        match apply_arg(acc, args[0], slider) {
            Ok(next) => apply_args(next, args.drop_first(), slider),
            Err(p) => Err((p, args[0].key)),
        }
    }
}

/// The arguments of the first `k` annotations whose path is `p`, in order.
pub open spec fn style_args(attrs: Seq<Attribute>, p: Seq<char>, k: int) -> Seq<AttrArg>
    decreases k,
{
    if k <= 0 {
        Seq::empty()
    } else {
        style_args(attrs, p, k - 1) + if attrs[k - 1].path@ == p {
            attrs[k - 1].args@
        } else {
            Seq::empty()
        }
    }
}

/// Whether some annotation has the path `p`.
pub open spec fn has_path(attrs: Seq<Attribute>, p: Seq<char>) -> bool {
    exists|i: int| 0 <= i < attrs.len() && (#[trigger] attrs[i]).path@ == p
}

/// The diagnostic for a wrong argument of a field.
pub open spec fn arg_error(field: String, p: ArgProblem, key: String) -> DeriveError {
    match p {
        ArgProblem::Unknown => DeriveError::UnknownArgument { field, key },
        ArgProblem::Duplicate => DeriveError::DuplicateArgument { field, key },
        ArgProblem::WrongType => DeriveError::WrongArgumentType { field, key },
    }
}

/// The descriptor of a field from its settings.
pub open spec fn descriptor_of(f: FieldDef, st: FieldSettings, slider: bool) -> FieldDescriptor {
    FieldDescriptor {
        ident: f.ident,
        ty: f.ty,
        style: if slider {
            FieldStyle::Slider(
                InspectArgsSlider { min_value: st.min_value, max_value: st.max_value },
            )
        } else {
            FieldStyle::Default(
                InspectArgsDefault {
                    header: st.header,
                    indent_children: st.indent_children,
                    min_value: st.min_value,
                    max_value: st.max_value,
                    step: st.step,
                },
            )
        },
        render_trait: st.render_trait,
        proxy_type: st.proxy_type,
        skip: setting_or(st.skip, false),
        on_set: st.on_set,
    }
}

/// The descriptor of a field, or the diagnostic that stops the build. A field bearing
/// both styles is refused; a field with the slider annotation takes its arguments;
/// any other takes those of its default annotations, if any.
pub open spec fn parse_field_spec(f: FieldDef) -> Result<FieldDescriptor, DeriveError> {
    let attrs = f.attrs@;
    let slider = has_path(attrs, slider_path());
    if slider && has_path(attrs, default_path()) {
        Err(DeriveError::TooManyStyles { field: f.ident })
    } else {
        let p = if slider {
            slider_path()
        } else {
            default_path()
        };
        match apply_args(no_settings(), style_args(attrs, p, attrs.len() as int), slider) {
            Ok(st) => Ok(descriptor_of(f, st, slider)),
            Err((prob, key)) => Err(arg_error(f.ident, prob, key)),
        }
    }
}

/// Whether the string's characters are those of the literal.
fn str_is(s: &String, lit: &str) -> (r: bool)
    ensures
        r == (s@ == lit@),
{
    let a = s.as_str();
    let n = a.unicode_len();
    if n != lit.unicode_len() {
        return false;
    }
    let mut i: usize = 0;
    while i < n
        invariant
            0 <= i <= n,
            n == a@.len(),
            n == lit@.len(),
            a@ == s@,
            forall|j: int| 0 <= j < i ==> a@[j] == lit@[j],
        decreases n - i,
    {
        if a.get_char(i) != lit.get_char(i) {
            return false;
        }
        i = i + 1;
    }
    assert(a@ =~= lit@);
    true
}

fn str_value(cur: &Option<String>, v: &ArgValue) -> (r: Result<String, ArgProblem>)
    ensures
        r == str_setting(*cur, *v),
{
    if cur.is_some() {
        return Err(ArgProblem::Duplicate);
    }
    match v {
        ArgValue::Str(s) => Ok(s.clone()),
        _ => Err(ArgProblem::WrongType),
    }
}

fn float_value(cur: &Option<u32>, v: &ArgValue) -> (r: Result<u32, ArgProblem>)
    ensures
        r == float_setting(*cur, *v),
{
    if cur.is_some() {
        return Err(ArgProblem::Duplicate);
    }
    match v {
        ArgValue::Float(x) => Ok(*x),
        _ => Err(ArgProblem::WrongType),
    }
}

fn bool_value(cur: &Option<bool>, v: &ArgValue) -> (r: Result<bool, ArgProblem>)
    ensures
        r == bool_setting(*cur, *v),
{
    if cur.is_some() {
        return Err(ArgProblem::Duplicate);
    }
    match v {
        ArgValue::Word => Ok(true),
        ArgValue::Bool(b) => Ok(*b),
        _ => Err(ArgProblem::WrongType),
    }
}

/// Takes one more argument into the settings.
pub fn apply_setting(acc: &mut FieldSettings, a: &AttrArg, slider: bool) -> (r: Result<(), ArgProblem>)
    ensures
        match apply_arg(*old(acc), *a, slider) {
            Ok(next) => r is Ok && *final(acc) == next,
            Err(p) => r == Err::<(), ArgProblem>(p),
        },
{
    let k = &a.key;
    if str_is(k, "render_trait") {
        let v = str_value(&acc.render_trait, &a.value)?;
        acc.render_trait = Some(v);
    } else if str_is(k, "proxy_type") {
        let v = str_value(&acc.proxy_type, &a.value)?;
        acc.proxy_type = Some(v);
    } else if str_is(k, "skip") {
        let v = bool_value(&acc.skip, &a.value)?;
        acc.skip = Some(v);
    } else if str_is(k, "on_set") {
        let v = str_value(&acc.on_set, &a.value)?;
        acc.on_set = Some(v);
    } else if str_is(k, "min_value") {
        let v = float_value(&acc.min_value, &a.value)?;
        acc.min_value = Some(v);
    } else if str_is(k, "max_value") {
        let v = float_value(&acc.max_value, &a.value)?;
        acc.max_value = Some(v);
    } else if !slider && str_is(k, "step") {
        let v = float_value(&acc.step, &a.value)?;
        acc.step = Some(v);
    } else if !slider && str_is(k, "header") {
        let v = bool_value(&acc.header, &a.value)?;
        acc.header = Some(v);
    } else if !slider && str_is(k, "indent_children") {
        let v = bool_value(&acc.indent_children, &a.value)?;
        acc.indent_children = Some(v);
    } else {
        return Err(ArgProblem::Unknown);
    }
    Ok(())
}

/// The arguments behind a sequence of references.
pub open spec fn arg_values(s: Seq<&AttrArg>) -> Seq<AttrArg> {
    Seq::new(s.len(), |i: int| *s[i])
}

/// Whether some annotation has the path `lit`.
fn has_attr(attrs: &Vec<Attribute>, lit: &str) -> (r: bool)
    ensures
        r == has_path(attrs@, lit@),
{
    let mut i: usize = 0;
    while i < attrs.len()
        invariant
            0 <= i <= attrs@.len(),
            forall|j: int| 0 <= j < i ==> (#[trigger] attrs@[j]).path@ != lit@,
        decreases attrs@.len() - i,
    {
        if str_is(&attrs[i].path, lit) {
            return true;
        }
        i = i + 1;
    }
    false
}

/// The arguments of the annotations whose path is `lit`, in order.
fn gather<'a>(attrs: &'a Vec<Attribute>, lit: &str) -> (r: Vec<&'a AttrArg>)
    ensures
        arg_values(r@) == style_args(attrs@, lit@, attrs@.len() as int),
{
    let mut out: Vec<&'a AttrArg> = Vec::new();
    let mut i: usize = 0;
    while i < attrs.len()
        invariant
            0 <= i <= attrs@.len(),
            arg_values(out@) == style_args(attrs@, lit@, i as int),
        decreases attrs@.len() - i,
    {
        let ghost before = arg_values(out@);
        if str_is(&attrs[i].path, lit) {
            let args = &attrs[i].args;
            let mut j: usize = 0;
            while j < args.len()
                invariant
                    0 <= j <= args@.len(),
                    arg_values(out@).len() == before.len() + j,
                    forall|k: int| 0 <= k < before.len() ==> #[trigger] arg_values(out@)[k] == before[k],
                    forall|m: int| 0 <= m < j ==> #[trigger] arg_values(out@)[before.len() + m] == args@[m],
                decreases args@.len() - j,
            {
                let ghost prev = out@;
                out.push(&args[j]);
                assert forall|k: int| 0 <= k < before.len() implies #[trigger] arg_values(out@)[k] == before[k] by {
                    assert(arg_values(prev)[k] == before[k]);
                    assert(out@[k] == prev[k]);
                }
                assert forall|m: int| 0 <= m < j + 1 implies #[trigger] arg_values(out@)[before.len() + m] == args@[m] by {
                    if m < j {
                        assert(arg_values(prev)[before.len() + m] == args@[m]);
                        assert(out@[before.len() + m] == prev[before.len() + m]);
                    }
                }
                j = j + 1;
            }
            assert(arg_values(out@) =~= before + args@) by {
                assert forall|k: int| 0 <= k < arg_values(out@).len() implies #[trigger] arg_values(out@)[k] == (before + args@)[k] by {
                    if k >= before.len() {
                        assert(arg_values(out@)[before.len() + (k - before.len())] == args@[k - before.len()]);
                    }
                }
            }
        } else {
            assert(style_args(attrs@, lit@, i + 1) =~= style_args(attrs@, lit@, i as int));
        }
        i = i + 1;
    }
    out
}

/// The descriptor of a field, or the diagnostic that stops the build.
pub fn parse_field(f: &FieldDef) -> (r: Result<FieldDescriptor, DeriveError>)
    ensures
        r == parse_field_spec(*f),
{
    let slider = has_attr(&f.attrs, "inspect_slider");
    if slider && has_attr(&f.attrs, "inspect") {
        return Err(DeriveError::TooManyStyles { field: f.ident.clone() });
    }
    let args = if slider {
        gather(&f.attrs, "inspect_slider")
    } else {
        gather(&f.attrs, "inspect")
    };
    let ghost all = arg_values(args@);
    let ghost path = if slider {
        slider_path()
    } else {
        default_path()
    };
    let mut st = FieldSettings {
        render_trait: None,
        proxy_type: None,
        skip: None,
        on_set: None,
        min_value: None,
        max_value: None,
        step: None,
        header: None,
        indent_children: None,
    };
    assert(all.skip(0) =~= all);
    let mut i: usize = 0;
    while i < args.len()
        invariant
            0 <= i <= args@.len(),
            all == arg_values(args@),
            slider == has_path(f.attrs@, slider_path()),
            !(slider && has_path(f.attrs@, default_path())),
            path == if slider {
                slider_path()
            } else {
                default_path()
            },
            all == style_args(f.attrs@, path, f.attrs@.len() as int),
            apply_args(st, all.skip(i as int), slider) == apply_args(no_settings(), all, slider),
        decreases args@.len() - i,
    {
        let ghost rest = all.skip(i as int);
        assert(rest[0] == *args@[i as int]);
        assert(rest.drop_first() =~= all.skip(i + 1));
        let ghost st0 = st;
        match apply_setting(&mut st, args[i], slider) {
            Ok(()) => {},
            Err(p) => {
                assert(apply_arg(st0, rest[0], slider) == Err::<FieldSettings, ArgProblem>(p));
                assert(apply_args(st0, rest, slider) == Err::<FieldSettings, (ArgProblem, String)>((p, rest[0].key)));
                assert(parse_field_spec(*f) == Err::<FieldDescriptor, DeriveError>(arg_error(f.ident, p, rest[0].key)));
                return Err(
                    match p {
                        ArgProblem::Unknown => DeriveError::UnknownArgument {
                            field: f.ident.clone(),
                            key: args[i].key.clone(),
                        },
                        ArgProblem::Duplicate => DeriveError::DuplicateArgument {
                            field: f.ident.clone(),
                            key: args[i].key.clone(),
                        },
                        ArgProblem::WrongType => DeriveError::WrongArgumentType {
                            field: f.ident.clone(),
                            key: args[i].key.clone(),
                        },
                    },
                );
            },
        }
        i = i + 1;
    }
    assert(all.skip(i as int) =~= Seq::<AttrArg>::empty());
    let skip = match st.skip {
        Some(b) => b,
        None => false,
    };
    let style = if slider {
        FieldStyle::Slider(InspectArgsSlider { min_value: st.min_value, max_value: st.max_value })
    } else {
        FieldStyle::Default(
            InspectArgsDefault {
                header: st.header,
                indent_children: st.indent_children,
                min_value: st.min_value,
                max_value: st.max_value,
                step: st.step,
            },
        )
    };
    Ok(
        FieldDescriptor {
            ident: f.ident.clone(),
            ty: f.ty.clone(),
            style,
            render_trait: st.render_trait,
            proxy_type: st.proxy_type,
            skip,
            on_set: st.on_set,
        },
    )
}

/// Whether each of the first `k` fields parses.
pub open spec fn fields_parse(fields: Seq<FieldDef>, k: int) -> bool {
    forall|j: int| 0 <= j < k ==> (#[trigger] parse_field_spec(fields[j])) is Ok
}

/// Whether the result of parsing the fields is right: every descriptor when every
/// field parses, else the diagnostic of the first field that does not.
pub open spec fn fields_result(
    fields: Seq<FieldDef>,
    r: Result<Seq<FieldDescriptor>, DeriveError>,
) -> bool {
    match r {
        Ok(ds) => {
            &&& fields_parse(fields, fields.len() as int)
            &&& ds.len() == fields.len()
            &&& forall|j: int|
                0 <= j < fields.len() ==> Ok::<FieldDescriptor, DeriveError>(#[trigger] ds[j]) == parse_field_spec(fields[j])
        },
        Err(e) => exists|k: int|
            {
                &&& 0 <= k < fields.len()
                &&& fields_parse(fields, k)
                &&& #[trigger] parse_field_spec(fields[k]) == Err::<FieldDescriptor, DeriveError>(e)
            },
    }
}

/// Whether the first `k` variants carry no data.
pub open spec fn variants_plain(variants: Seq<VariantDef>, k: int) -> bool {
    forall|j: int| 0 <= j < k ==> !(#[trigger] variants[j]).has_data
}

/// Whether the result of reading the variants is right: their names when none carries
/// data, else the diagnostic naming the first that does.
pub open spec fn variants_result(variants: Seq<VariantDef>, r: Result<Seq<String>, DeriveError>) -> bool {
    match r {
        Ok(names) => {
            &&& variants_plain(variants, variants.len() as int)
            &&& names.len() == variants.len()
            &&& forall|j: int| 0 <= j < variants.len() ==> #[trigger] names[j] == variants[j].ident
        },
        Err(e) => exists|k: int|
            {
                &&& 0 <= k < variants.len()
                &&& variants_plain(variants, k)
                &&& (#[trigger] variants[k]).has_data
                &&& e == DeriveError::VariantWithData { variant: variants[k].ident }
            },
    }
}

/// Whether `r` is what the derive gives for `item`.
pub open spec fn derived(item: ItemDef, r: Result<ItemDescriptor, DeriveError>) -> bool {
    match item.body {
        ItemBody::NamedStruct(fields) => match r {
            Ok(ItemDescriptor::Struct(sd)) => sd.ident == item.ident && fields_result(
                fields@,
                Ok(sd.fields@),
            ),
            Ok(ItemDescriptor::Enum(_)) => false,
            Err(e) => fields_result(fields@, Err(e)),
        },
        ItemBody::UnitStruct => match r {
            Ok(ItemDescriptor::Struct(sd)) => sd.ident == item.ident && sd.fields@.len() == 0,
            _ => false,
        },
        ItemBody::TupleStruct => r == Err::<ItemDescriptor, DeriveError>(
            DeriveError::UnnamedFields { item: item.ident },
        ),
        ItemBody::Enum(variants) => match r {
            Ok(ItemDescriptor::Enum(ed)) => ed.ident == item.ident && variants_result(
                variants@,
                Ok(ed.variants@),
            ),
            Ok(ItemDescriptor::Struct(_)) => false,
            Err(e) => variants_result(variants@, Err(e)),
        },
        ItemBody::Union => r == Err::<ItemDescriptor, DeriveError>(
            DeriveError::UnionNotSupported { item: item.ident },
        ),
    }
}

/// The descriptors of the fields in order, or the diagnostic of the first field that
/// does not parse.
pub fn parse_field_args(fields: &Vec<FieldDef>) -> (r: Result<Vec<FieldDescriptor>, DeriveError>)
    ensures
        fields_result(
            fields@,
            match r {
                Ok(ds) => Ok(ds@),
                Err(e) => Err(e),
            },
        ),
{
    let mut out: Vec<FieldDescriptor> = Vec::new();
    let mut i: usize = 0;
    while i < fields.len()
        invariant
            0 <= i <= fields@.len(),
            out@.len() == i,
            fields_parse(fields@, i as int),
            forall|j: int| 0 <= j < i ==> Ok::<FieldDescriptor, DeriveError>(#[trigger] out@[j]) == parse_field_spec(fields@[j]),
        decreases fields@.len() - i,
    {
        match parse_field(&fields[i]) {
            Ok(d) => {
                out.push(d);
            },
            Err(e) => {
                assert(parse_field_spec(fields@[i as int]) == Err::<FieldDescriptor, DeriveError>(e));
                return Err(e);
            },
        }
        i = i + 1;
    }
    Ok(out)
}

/// The variant names in order, or the diagnostic naming the first variant that
/// carries data.
pub fn enum_variants(variants: &Vec<VariantDef>) -> (r: Result<Vec<String>, DeriveError>)
    ensures
        variants_result(
            variants@,
            match r {
                Ok(names) => Ok(names@),
                Err(e) => Err(e),
            },
        ),
{
    let mut out: Vec<String> = Vec::new();
    let mut i: usize = 0;
    while i < variants.len()
        invariant
            0 <= i <= variants@.len(),
            out@.len() == i,
            variants_plain(variants@, i as int),
            forall|j: int| 0 <= j < i ==> #[trigger] out@[j] == variants@[j].ident,
        decreases variants@.len() - i,
    {
        let v = &variants[i];
        if v.has_data {
            let e = DeriveError::VariantWithData { variant: v.ident.clone() };
            assert(variants@[i as int].has_data);
            return Err(e);
        }
        out.push(v.ident.clone());
        i = i + 1;
    }
    Ok(out)
}

/// Applies the derive to a declared type: the descriptor of a struct with named
/// fields, of a unit struct, or of an enum without data; else the diagnostic that
/// stops the build.
pub fn impl_inspect_macro(item: &ItemDef) -> (r: Result<ItemDescriptor, DeriveError>)
    ensures
        derived(*item, r),
{
    match &item.body {
        ItemBody::NamedStruct(fields) => match parse_field_args(fields) {
            Ok(ds) => Ok(
                ItemDescriptor::Struct(StructDescriptor { ident: item.ident.clone(), fields: ds }),
            ),
            Err(e) => Err(e),
        },
        ItemBody::UnitStruct => Ok(
            ItemDescriptor::Struct(
                StructDescriptor { ident: item.ident.clone(), fields: Vec::new() },
            ),
        ),
        ItemBody::TupleStruct => Err(DeriveError::UnnamedFields { item: item.ident.clone() }),
        ItemBody::Enum(variants) => match enum_variants(variants) {
            Ok(names) => Ok(
                ItemDescriptor::Enum(EnumDescriptor { ident: item.ident.clone(), variants: names }),
            ),
            Err(e) => Err(e),
        },
        ItemBody::Union => Err(DeriveError::UnionNotSupported { item: item.ident.clone() }),
    }
}

} // verus!
