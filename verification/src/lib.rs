//! A runtime data-validation engine: schemas are built programmatically from
//! constructors and copy-on-write modifiers, and an arbitrary dynamically
//! typed value is checked against a schema, yielding either a normalized
//! value or an ordered list of located issues.

pub mod value;
pub mod numeric;
pub mod formats;
pub mod schema;
pub mod engine;
pub mod mirror;
pub mod laws;

pub use engine::Issue;
pub use schema::HSchema;
pub use value::Value;
