use vstd::prelude::*;

verus! {

/// The error kinds of the data layer, each one matchable by callers.
#[derive(Debug, PartialEq, Eq)]
pub enum ModelError {
    /// No row of table `entity` has the id `id`.
    EntityNotFound { entity: &'static str, id: i64 },
    /// A filter names a field that the entity does not declare filterable.
    InvalidFilterField,
    /// A filter applies an operator that the field does not permit.
    InvalidFilterOperator,
    /// A uniqueness or other declared constraint on `field` would be broken.
    ConstraintViolation { field: &'static str },
    /// An update breaks an entity-specific transition rule.
    InvalidTransition,
    /// The table has handed out every id it can represent.
    IdsExhausted,
}

} // verus!
