//! Plain descriptions of how an entity is stored and shown.

use vstd::prelude::*;

verus! {

/// One choice of a select field.
#[derive(Clone, Debug)]
pub struct FieldOption {
    pub label: String,
    pub value: String,
    pub color: Option<String>,
}

/// How a field is shown in a form.
#[derive(Clone, Debug)]
pub struct FieldUI {
    pub label: String,
    pub component: String,
    pub order: u32,
    pub col_span: u32,
    pub hidden: bool,
    pub readonly: bool,
    pub options: Option<Vec<FieldOption>>,
}

/// An index over fields of an entity.
#[derive(Clone, Debug)]
pub struct IndexSchema {
    pub name: String,
    pub fields: Vec<String>,
    pub unique: bool,
}

/// A relationship of an entity to another.
#[derive(Clone, Debug)]
pub struct RelationshipSchema {
    pub name: String,
    pub target_entity: String,
    pub relationship_type: String,
    pub foreign_key: String,
}

} // verus!
