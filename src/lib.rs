//! Inspection of structured data through an immediate-mode widget layer.
//!
//! Field annotations are parsed into descriptors, and each selection of instances is
//! rendered field by field into widget descriptions; edits committed through the widgets
//! are written back to every selected instance.
pub mod value;
pub mod selection;
pub mod args;
pub mod field;
pub mod descriptor;
pub mod inspect;
pub mod derive;
pub mod selector;
pub mod example;
pub mod laws;
