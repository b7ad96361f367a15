//! Attribute definitions: the names of city-object attributes and the JSON
//! kind of their values.

use vstd::prelude::*;
use crate::text::IntoText;

verus! {

/// The kind of an attribute's values.
#[derive(Debug, Clone, Copy, PartialEq, Eq, Structural)]
pub enum AttributeType {
    String,
    Number,
    Boolean,
    Array,
    Object,
}

/// An attribute: its name and the kind of its values.
#[derive(Debug, Clone, PartialEq, Eq)]
pub struct AttributeDefinition {
    pub name: String,
    pub attr_type: AttributeType,
}

impl AttributeDefinition {
    /// The attribute `name` with values of kind `attr_type`.
    pub fn new<N: IntoText>(name: N, attr_type: AttributeType) -> (r: Self)
        ensures
            r.name@ == name.text(),
            r.attr_type == attr_type,
    {
        AttributeDefinition { name: name.into_text(), attr_type }
    }
}

} // verus!
