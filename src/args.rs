//! Widget configuration handed to every render call.
//!
//! Numeric bounds are `f32` values held as their IEEE-754 bit patterns.
use vstd::prelude::*;

verus! {

/// Options for the default widget of a value; a superset of the other options, since
/// the default widget may be any widget.
#[derive(Debug, Clone, Copy, PartialEq, Eq)]
pub struct InspectArgsDefault {
    pub header: Option<bool>,
    pub indent_children: Option<bool>,
    pub min_value: Option<u32>,
    pub max_value: Option<u32>,
    pub step: Option<u32>,
}

/// Options for rendering a value as a slider.
#[derive(Debug, Clone, Copy, PartialEq, Eq)]
pub struct InspectArgsSlider {
    pub min_value: Option<u32>,
    pub max_value: Option<u32>,
}

/// Options for rendering a struct: whether it sits under a collapsible header, and
/// whether its fields are indented.
#[derive(Debug, Clone, Copy, PartialEq, Eq)]
pub struct InspectArgsStruct {
    pub header: Option<bool>,
    pub indent_children: Option<bool>,
}

/// Bit pattern of `-100.0f32`, the lower slider bound when none is given.
pub const SLIDER_DEFAULT_MIN: u32 = 0xc2c8_0000;

/// Bit pattern of `100.0f32`, the upper slider bound when none is given.
pub const SLIDER_DEFAULT_MAX: u32 = 0x42c8_0000;

/// The value of an optional setting, or a fallback when it is unset.
pub open spec fn setting_or<T>(o: Option<T>, fallback: T) -> T {
    match o {
        Some(v) => v,
        None => fallback,
    }
}

impl InspectArgsDefault {
    /// No option set.
    pub fn new() -> (r: InspectArgsDefault)
        ensures
            r.header is None,
            r.indent_children is None,
            r.min_value is None,
            r.max_value is None,
            r.step is None,
    {
        InspectArgsDefault {
            header: None,
            indent_children: None,
            min_value: None,
            max_value: None,
            step: None,
        }
    }

    /// The struct options that these options carry.
    pub fn struct_args(&self) -> (r: InspectArgsStruct)
        ensures
            r.header == self.header,
            r.indent_children == self.indent_children,
    {
        InspectArgsStruct { header: self.header, indent_children: self.indent_children }
    }
}

impl InspectArgsSlider {
    /// No bound set.
    pub fn new() -> (r: InspectArgsSlider)
        ensures
            r.min_value is None,
            r.max_value is None,
    {
        InspectArgsSlider { min_value: None, max_value: None }
    }

    /// The slider's bounds, `-100.0` and `100.0` where unset.
    pub fn bounds(&self) -> (r: (u32, u32))
        ensures
            r.0 == setting_or(self.min_value, SLIDER_DEFAULT_MIN),
            r.1 == setting_or(self.max_value, SLIDER_DEFAULT_MAX),
    {
        let min = match self.min_value {
            Some(v) => v,
            None => SLIDER_DEFAULT_MIN,
        };
        let max = match self.max_value {
            Some(v) => v,
            None => SLIDER_DEFAULT_MAX,
        };
        (min, max)
    }
}

impl InspectArgsStruct {
    /// No option set: no header, no indentation.
    pub fn new() -> (r: InspectArgsStruct)
        ensures
            r.header is None,
            r.indent_children is None,
    {
        InspectArgsStruct { header: None, indent_children: None }
    }

    /// Whether the fields sit under a collapsible header; unset means no header.
    pub fn shows_header(&self) -> (r: bool)
        ensures
            r == setting_or(self.header, false),
    {
        match self.header {
            Some(b) => b,
            None => false,
        }
    }

    /// Whether the fields are indented; unset means not indented.
    pub fn indents(&self) -> (r: bool)
        ensures
            r == setting_or(self.indent_children, false),
    {
        match self.indent_children {
            Some(b) => b,
            None => false,
        }
    }
}

} // verus!
