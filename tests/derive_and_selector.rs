use imgui_inspect::args::{InspectArgsDefault, InspectArgsSlider};
use imgui_inspect::derive::{
    impl_inspect_macro, parse_field, parse_field_args, enum_variants, ArgValue, AttrArg, Attribute, DeriveError,
    FieldDef, ItemBody, ItemDef, VariantDef,
};
use imgui_inspect::descriptor::{EnumDescriptor, ItemDescriptor};
use imgui_inspect::field::FieldStyle;
use imgui_inspect::selector::{render_enum, render_enum_mut};
use imgui_inspect::example::TestEnum;
use imgui_inspect::value::Value;

fn arg(key: &str, value: ArgValue) -> AttrArg {
    AttrArg { key: key.to_string(), value }
}

fn attr(path: &str, args: Vec<AttrArg>) -> Attribute {
    Attribute { path: path.to_string(), args }
}

fn fdef(ident: &str, ty: &str, attrs: Vec<Attribute>) -> FieldDef {
    FieldDef { ident: ident.to_string(), ty: ty.to_string(), attrs }
}

fn bits(x: f32) -> u32 {
    x.to_bits()
}

#[test]
fn plain_field_gets_default_style() {
    let d = parse_field(&fdef("text", "String", vec![])).unwrap();
    assert_eq!(d.ident, "text");
    assert_eq!(d.style, FieldStyle::Default(InspectArgsDefault::new()));
    assert!(!d.skip);
    assert_eq!(d.capability(), "imgui_inspect::InspectRenderDefault");
    assert_eq!(d.source_type(), "String");
}

#[test]
fn slider_field_takes_its_bounds() {
    let f = fdef(
        "x_position",
        "f32",
        vec![attr("inspect_slider", vec![arg("min_value", ArgValue::Float(bits(100.0))), arg("max_value", ArgValue::Float(bits(500.0)))])],
    );
    let d = parse_field(&f).unwrap();
    assert_eq!(
        d.style,
        FieldStyle::Slider(InspectArgsSlider { min_value: Some(bits(100.0)), max_value: Some(bits(500.0)) })
    );
    assert_eq!(d.capability(), "imgui_inspect::InspectRenderSlider");
}

#[test]
fn overrides_and_proxy_are_kept() {
    let f = fdef(
        "color",
        "Color4f",
        vec![attr(
            "inspect",
            vec![
                arg("render_trait", ArgValue::Str("my::Picker".to_string())),
                arg("proxy_type", ArgValue::Str("Color".to_string())),
                arg("on_set", ArgValue::Str("refresh".to_string())),
                arg("header", ArgValue::Word),
                arg("step", ArgValue::Float(bits(0.5))),
            ],
        )],
    );
    let d = parse_field(&f).unwrap();
    assert_eq!(d.capability(), "my::Picker");
    assert_eq!(d.source_type(), "Color");
    assert_eq!(d.on_set, Some("refresh".to_string()));
    assert_eq!(
        d.style,
        FieldStyle::Default(InspectArgsDefault { header: Some(true), indent_children: None, min_value: None, max_value: None, step: Some(bits(0.5)) })
    );
}

#[test]
fn skip_field_parses() {
    let d = parse_field(&fdef("cache", "Vec<u8>", vec![attr("inspect", vec![arg("skip", ArgValue::Word)])])).unwrap();
    assert!(d.skip);
    let e = parse_field(&fdef("cache", "Vec<u8>", vec![attr("inspect", vec![arg("skip", ArgValue::Bool(false))])])).unwrap();
    assert!(!e.skip);
}

#[test]
fn other_annotations_are_ignored() {
    let d = parse_field(&fdef("n", "u32", vec![attr("serde", vec![arg("rename", ArgValue::Str("m".to_string()))])])).unwrap();
    assert_eq!(d.style, FieldStyle::Default(InspectArgsDefault::new()));
}

#[test]
fn both_styles_are_refused() {
    let f = fdef("radius", "f32", vec![attr("inspect_slider", vec![]), attr("inspect", vec![])]);
    assert_eq!(parse_field(&f), Err(DeriveError::TooManyStyles { field: "radius".to_string() }));
    let item = ItemDef {
        ident: "Circle".to_string(),
        body: ItemBody::NamedStruct(vec![fdef("x", "f32", vec![]), f]),
    };
    assert_eq!(impl_inspect_macro(&item), Err(DeriveError::TooManyStyles { field: "radius".to_string() }));
}

#[test]
fn unknown_argument_is_refused() {
    let f = fdef("x", "f32", vec![attr("inspect_slider", vec![arg("step", ArgValue::Float(bits(1.0)))])]);
    assert_eq!(
        parse_field(&f),
        Err(DeriveError::UnknownArgument { field: "x".to_string(), key: "step".to_string() })
    );
}

#[test]
fn duplicate_argument_is_refused() {
    let f = fdef(
        "x",
        "f32",
        vec![
            attr("inspect", vec![arg("min_value", ArgValue::Float(bits(1.0)))]),
            attr("inspect", vec![arg("min_value", ArgValue::Float(bits(2.0)))]),
        ],
    );
    assert_eq!(
        parse_field(&f),
        Err(DeriveError::DuplicateArgument { field: "x".to_string(), key: "min_value".to_string() })
    );
}

#[test]
fn wrongly_typed_argument_is_refused() {
    let f = fdef("x", "f32", vec![attr("inspect", vec![arg("min_value", ArgValue::Str("1".to_string()))])]);
    assert_eq!(
        parse_field(&f),
        Err(DeriveError::WrongArgumentType { field: "x".to_string(), key: "min_value".to_string() })
    );
}

#[test]
fn first_bad_field_is_reported() {
    let fields = vec![
        fdef("a", "f32", vec![]),
        fdef("b", "f32", vec![attr("inspect", vec![arg("bogus", ArgValue::Word)])]),
        fdef("c", "f32", vec![attr("inspect_slider", vec![]), attr("inspect", vec![])]),
    ];
    assert_eq!(
        parse_field_args(&fields),
        Err(DeriveError::UnknownArgument { field: "b".to_string(), key: "bogus".to_string() })
    );
}

#[test]
fn struct_derive_keeps_field_order() {
    let item = ItemDef {
        ident: "ExampleInspectTarget".to_string(),
        body: ItemBody::NamedStruct(vec![
            fdef("x_position", "f32", vec![attr("inspect_slider", vec![arg("min_value", ArgValue::Float(bits(100.0)))])]),
            fdef("text", "String", vec![]),
        ]),
    };
    match impl_inspect_macro(&item) {
        Ok(ItemDescriptor::Struct(sd)) => {
            assert_eq!(sd.ident, "ExampleInspectTarget");
            assert_eq!(sd.fields.len(), 2);
            assert_eq!(sd.fields[0].ident, "x_position");
            assert_eq!(sd.fields[1].ident, "text");
        }
        other => panic!("unexpected {:?}", other),
    }
}

#[test]
fn unit_struct_has_no_fields() {
    let item = ItemDef { ident: "Empty".to_string(), body: ItemBody::UnitStruct };
    match impl_inspect_macro(&item) {
        Ok(ItemDescriptor::Struct(sd)) => assert!(sd.fields.is_empty()),
        other => panic!("unexpected {:?}", other),
    }
}

#[test]
fn tuple_struct_and_union_are_refused() {
    let t = ItemDef { ident: "Pair".to_string(), body: ItemBody::TupleStruct };
    assert_eq!(impl_inspect_macro(&t), Err(DeriveError::UnnamedFields { item: "Pair".to_string() }));
    let u = ItemDef { ident: "Bits".to_string(), body: ItemBody::Union };
    assert_eq!(impl_inspect_macro(&u), Err(DeriveError::UnionNotSupported { item: "Bits".to_string() }));
}

#[test]
fn plain_enum_derives_its_variant_names() {
    let item = ItemDef {
        ident: "TestEnum".to_string(),
        body: ItemBody::Enum(vec![
            VariantDef { ident: "A".to_string(), has_data: false },
            VariantDef { ident: "B".to_string(), has_data: false },
            VariantDef { ident: "C".to_string(), has_data: false },
        ]),
    };
    assert_eq!(
        impl_inspect_macro(&item),
        Ok(ItemDescriptor::Enum(EnumDescriptor {
            ident: "TestEnum".to_string(),
            variants: vec!["A".to_string(), "B".to_string(), "C".to_string()],
        }))
    );
}

#[test]
fn variant_with_data_is_refused() {
    let variants = vec![
        VariantDef { ident: "A".to_string(), has_data: false },
        VariantDef { ident: "B".to_string(), has_data: true },
        VariantDef { ident: "C".to_string(), has_data: true },
    ];
    assert_eq!(enum_variants(&variants), Err(DeriveError::VariantWithData { variant: "B".to_string() }));
    let item = ItemDef { ident: "E".to_string(), body: ItemBody::Enum(variants) };
    assert_eq!(impl_inspect_macro(&item), Err(DeriveError::VariantWithData { variant: "B".to_string() }));
}

fn test_enum() -> EnumDescriptor {
    EnumDescriptor { ident: "TestEnum".to_string(), variants: vec!["A".to_string(), "B".to_string(), "C".to_string()] }
}

#[test]
fn selector_shows_common_variant() {
    let d = test_enum();
    let a = Value::Variant(1);
    let b = Value::Variant(1);
    let s = render_enum(&d, &[&a, &b], &"mode".to_string());
    assert_eq!(s.items, vec!["A".to_string(), "B".to_string(), "C".to_string()]);
    assert_eq!(s.selected, Some(1));
    assert!(!s.inconsistent);
    let c = Value::Variant(2);
    let s2 = render_enum(&d, &[&a, &c], &"mode".to_string());
    assert_eq!(s2.selected, None);
    assert!(s2.inconsistent);
}

#[test]
fn selector_choice_written_to_all() {
    let d = test_enum();
    let mut a = Value::Variant(0);
    let mut b = Value::Variant(1);
    {
        let mut refs = vec![&mut a, &mut b];
        assert!(render_enum_mut(&d, &mut refs, Some(2)));
    }
    assert_eq!(a, Value::Variant(2));
    assert_eq!(b, Value::Variant(2));
    let mut refs = vec![&mut a];
    assert!(!render_enum_mut(&d, &mut refs, Some(3)));
    assert!(!render_enum_mut(&d, &mut refs, None));
    let mut empty: Vec<&mut Value> = vec![];
    assert!(!render_enum_mut(&d, &mut empty, Some(0)));
}

#[test]
fn test_enum_round_trips_through_values() {
    assert_eq!(TestEnum::A.to_value(), Value::Variant(0));
    assert_eq!(TestEnum::C.to_value(), Value::Variant(2));
    assert_eq!(TestEnum::from_value(&Value::Variant(1)), Some(TestEnum::B));
    assert_eq!(TestEnum::from_value(&Value::Variant(3)), None);
    assert_eq!(TestEnum::from_value(&Value::U32(0)), None);
}
