//! Accessor ("getter") generation for structures with named fields.
//!
//! The library works on a plain model of a structure definition: its shape,
//! its fields, and the token trees of each field's attributes. From that model
//! it decides, for every field, whether an accessor is generated, under which
//! name, and whether it borrows the field or copies a reference held in it.
//! Turning the resulting plan into source tokens is left to the caller.

mod outside;

pub mod attribute;
pub mod fields;
pub mod tokens;
