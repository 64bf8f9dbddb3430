use imgui_inspect::args::{InspectArgsDefault, InspectArgsSlider, InspectArgsStruct};
use imgui_inspect::descriptor::{FieldDescriptor, StructDescriptor};
use imgui_inspect::field::{Control, FieldStyle, FieldWidget, Shown, TextLine};
use imgui_inspect::inspect::{render_mut, render_mut_widgets, render_struct, CallbackCall, DrawItem, Instance};
use imgui_inspect::value::Value;

fn fv(x: f32) -> Value {
    Value::F32(x.to_bits())
}

fn field(ident: &str, ty: &str, style: FieldStyle, skip: bool, on_set: Option<&str>) -> FieldDescriptor {
    FieldDescriptor {
        ident: ident.to_string(),
        ty: ty.to_string(),
        style,
        render_trait: None,
        proxy_type: None,
        skip,
        on_set: on_set.map(|s| s.to_string()),
    }
}

fn circle() -> StructDescriptor {
    let slider = FieldStyle::Slider(InspectArgsSlider {
        min_value: Some(20.0f32.to_bits()),
        max_value: Some(100.0f32.to_bits()),
    });
    StructDescriptor {
        ident: "Circle".to_string(),
        fields: vec![
            field("radius", "f32", slider, false, Some("on_radius")),
            field("cache", "u32", FieldStyle::Default(InspectArgsDefault::new()), true, None),
            field("visible", "bool", FieldStyle::Default(InspectArgsDefault::new()), false, None),
        ],
    }
}

fn inst(radius: f32, cache: u32, visible: bool) -> Instance {
    Instance { fields: vec![fv(radius), Value::U32(cache), Value::Bool(visible)] }
}

fn line(label: &str, shown: Shown) -> DrawItem {
    DrawItem::Line(TextLine { label: label.to_string(), shown })
}

#[test]
fn read_only_render_without_header() {
    let d = circle();
    let a = inst(50.0, 1, true);
    let out = render_struct(&d, &[&a], &"Circle A".to_string(), &InspectArgsStruct::new(), false);
    assert_eq!(
        out,
        vec![
            DrawItem::PushId("Circle A".to_string()),
            line("radius", Shown::Value(fv(50.0))),
            line("visible", Shown::Value(Value::Bool(true))),
            DrawItem::PopId,
        ]
    );
}

#[test]
fn read_only_render_with_open_header_and_indent() {
    let d = circle();
    let a = inst(50.0, 1, true);
    let b = inst(60.0, 2, true);
    let args = InspectArgsStruct { header: Some(true), indent_children: Some(true) };
    let out = render_struct(&d, &[&a, &b], &"sel".to_string(), &args, true);
    assert_eq!(
        out,
        vec![
            DrawItem::Header("Circle".to_string()),
            DrawItem::PushId("sel".to_string()),
            DrawItem::Indent,
            line("radius", Shown::Inconsistent),
            line("visible", Shown::Value(Value::Bool(true))),
            DrawItem::Unindent,
            DrawItem::PopId,
        ]
    );
}

#[test]
fn closed_header_hides_fields() {
    let d = circle();
    let a = inst(50.0, 1, true);
    let args = InspectArgsStruct { header: Some(true), indent_children: None };
    let out = render_struct(&d, &[&a], &"sel".to_string(), &args, false);
    assert_eq!(out, vec![DrawItem::Header("Circle".to_string())]);
    let mut b = inst(50.0, 1, true);
    let mut refs = vec![&mut b];
    let r = render_mut(&d, &mut refs, &args, false, &vec![Some(fv(70.0)), None, None]);
    assert!(!r.changed);
    assert_eq!(b, inst(50.0, 1, true));
}

#[test]
fn empty_selection_draws_no_lines_and_changes_nothing() {
    let d = circle();
    let data: Vec<&Instance> = vec![];
    let out = render_struct(&d, &data, &"none".to_string(), &InspectArgsStruct::new(), false);
    assert_eq!(out, vec![DrawItem::PushId("none".to_string()), DrawItem::PopId]);
    let mut refs: Vec<&mut Instance> = vec![];
    let r = render_mut(&d, &mut refs, &InspectArgsStruct::new(), false, &vec![Some(fv(70.0)), None, Some(Value::Bool(false))]);
    assert!(!r.changed);
    assert!(r.callbacks.is_empty());
}

#[test]
fn widgets_skip_the_skipped_field() {
    let d = circle();
    let a = inst(50.0, 1, true);
    let out = render_mut_widgets(&d, &[&a], &"w".to_string(), &InspectArgsStruct::new(), false);
    assert_eq!(
        out,
        vec![
            DrawItem::PushId("w".to_string()),
            DrawItem::Widget {
                field: 0,
                widget: FieldWidget {
                    label: "radius".to_string(),
                    control: Control::Slider {
                        value: 50.0f32.to_bits(),
                        min: 20.0f32.to_bits(),
                        max: 100.0f32.to_bits(),
                    },
                    inconsistent: false,
                },
            },
            DrawItem::Widget {
                field: 2,
                widget: FieldWidget {
                    label: "visible".to_string(),
                    control: Control::Checkbox(true),
                    inconsistent: false,
                },
            },
            DrawItem::PopId,
        ]
    );
}

#[test]
fn no_edit_reports_no_change() {
    let d = circle();
    let mut a = inst(50.0, 1, true);
    let mut refs = vec![&mut a];
    let r = render_mut(&d, &mut refs, &InspectArgsStruct::new(), false, &vec![None, None, None]);
    assert!(!r.changed);
    assert!(r.callbacks.is_empty());
    assert_eq!(a, inst(50.0, 1, true));
}

#[test]
fn edit_is_applied_to_the_whole_selection() {
    let d = circle();
    let mut a = inst(1.0, 1, true);
    let mut b = inst(2.0, 2, false);
    let mut c = inst(2.0, 3, true);
    let r = {
        let mut refs = vec![&mut a, &mut b, &mut c];
        render_mut(&d, &mut refs, &InspectArgsStruct::new(), false, &vec![Some(fv(5.0)), None, None])
    };
    assert!(r.changed);
    assert_eq!(a, inst(5.0, 1, true));
    assert_eq!(b, inst(5.0, 2, false));
    assert_eq!(c, inst(5.0, 3, true));
}

#[test]
fn on_change_owed_once_per_instance_in_order() {
    let d = circle();
    let mut a = inst(1.0, 1, true);
    let mut b = inst(2.0, 2, false);
    let r = {
        let mut refs = vec![&mut a, &mut b];
        render_mut(&d, &mut refs, &InspectArgsStruct::new(), false, &vec![Some(fv(30.0)), None, Some(Value::Bool(true))])
    };
    assert!(r.changed);
    assert_eq!(
        r.callbacks,
        vec![
            CallbackCall { field: 0, instance: 0, method: "on_radius".to_string() },
            CallbackCall { field: 0, instance: 1, method: "on_radius".to_string() },
        ]
    );
    assert_eq!(a, inst(30.0, 1, true));
    assert_eq!(b, inst(30.0, 2, true));
}

#[test]
fn field_without_on_change_owes_no_call() {
    let d = circle();
    let mut a = inst(1.0, 1, true);
    let mut refs = vec![&mut a];
    let r = render_mut(&d, &mut refs, &InspectArgsStruct::new(), false, &vec![None, None, Some(Value::Bool(false))]);
    assert!(r.changed);
    assert!(r.callbacks.is_empty());
}

#[test]
fn skipped_field_is_never_written() {
    let d = circle();
    let mut a = inst(1.0, 1, true);
    let mut refs = vec![&mut a];
    let r = render_mut(&d, &mut refs, &InspectArgsStruct::new(), false, &vec![None, Some(Value::U32(42)), None]);
    assert!(!r.changed);
    assert_eq!(a, inst(1.0, 1, true));
}

#[test]
fn skipped_field_is_never_read() {
    let d = circle();
    let a = inst(1.0, 1, true);
    let b = inst(1.0, 999, true);
    let args = InspectArgsStruct::new();
    assert_eq!(
        render_struct(&d, &[&a], &"s".to_string(), &args, false),
        render_struct(&d, &[&b], &"s".to_string(), &args, false)
    );
    assert_eq!(
        render_mut_widgets(&d, &[&a], &"s".to_string(), &args, false),
        render_mut_widgets(&d, &[&b], &"s".to_string(), &args, false)
    );
}

#[test]
fn struct_args_defaults() {
    let args = InspectArgsStruct::new();
    assert!(!args.shows_header());
    assert!(!args.indents());
    let full = InspectArgsDefault { header: Some(true), indent_children: Some(false), min_value: None, max_value: None, step: None };
    let s = full.struct_args();
    assert!(s.shows_header());
    assert!(!s.indents());
}
