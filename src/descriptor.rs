//! What the derive knows of an inspected type: one descriptor per field, in declaration
//! order.
use vstd::prelude::*;
use crate::field::FieldStyle;

verus! {

/// One field of an inspected struct.
#[derive(Debug, Clone, PartialEq)]
pub struct FieldDescriptor {
    /// The field's identifier; also its label.
    pub ident: String,
    /// The field's declared type, as written.
    pub ty: String,
    /// The widget style and its options.
    pub style: FieldStyle,
    /// A rendering capability that replaces the style's own.
    pub render_trait: Option<String>,
    /// A stand-in type that renders the field on behalf of its declared type.
    pub proxy_type: Option<String>,
    /// A skipped field is neither shown nor edited.
    pub skip: bool,
    /// A method called on every selected instance after an edit of this field.
    pub on_set: Option<String>,
}

/// An inspected struct: its identifier and its fields in declaration order.
#[derive(Debug, Clone, PartialEq)]
pub struct StructDescriptor {
    pub ident: String,
    pub fields: Vec<FieldDescriptor>,
}

/// An inspected enum without data: its identifier and its variant names in order.
#[derive(Debug, Clone, PartialEq)]
pub struct EnumDescriptor {
    pub ident: String,
    pub variants: Vec<String>,
}

/// An inspected type.
#[derive(Debug, Clone, PartialEq)]
pub enum ItemDescriptor {
    Struct(StructDescriptor),
    Enum(EnumDescriptor),
}

/// Path of the capability that renders a value with its default widget.
pub open spec fn default_capability() -> Seq<char> {
    "imgui_inspect::InspectRenderDefault"@
}

/// Path of the capability that renders a value as a slider.
pub open spec fn slider_capability() -> Seq<char> {
    "imgui_inspect::InspectRenderSlider"@
}

impl FieldDescriptor {
    /// The capability that renders the field: the one named in its annotation, else
    /// the one of its style.
    pub fn capability(&self) -> (r: String)
        ensures
            r@ == match self.render_trait {
                Some(t) => t@,
                None => match self.style {
                    FieldStyle::Default(_) => default_capability(),
                    FieldStyle::Slider(_) => slider_capability(),
                },
            },
    {
        match &self.render_trait {
            Some(t) => t.clone(),
            None => match self.style {
                FieldStyle::Default(_) => "imgui_inspect::InspectRenderDefault".to_owned(),
                FieldStyle::Slider(_) => "imgui_inspect::InspectRenderSlider".to_owned(),
            },
        }
    }

    /// The type that renders the field: its proxy type, else its declared type.
    pub fn source_type(&self) -> (r: String)
        ensures
            r@ == match self.proxy_type {
                Some(p) => p@,
                None => self.ty@,
            },
    {
        match &self.proxy_type {
            Some(p) => p.clone(),
            None => self.ty.clone(),
        }
    }
}

} // verus!
