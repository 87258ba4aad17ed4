//! A generation engine for record types.
//!
//! From the description of a record (its name, its generic parameters, and
//! its fields with their declared types and annotations) the engine derives
//! two things: a validating builder, and a routine that shows an instance
//! field by field.
//!
//! - [`schema`] holds the data model: type expressions, annotations, record
//!   definitions, and the validated schema.
//! - [`shape`] tells optional and sequence fields from plain ones by the
//!   name of the outermost wrapper.
//! - [`resolver`] turns the annotations of a field into the directive of one
//!   generator.
//! - [`builder`] generates the builder: its fields, its setters, its
//!   starting state and the checks of its build operation.
//! - [`protocol`] carries out the builder's construction protocol in memory.
//! - [`debug`] generates the representation routine and infers which generic
//!   parameters it needs to be showable.
//! - [`laws`] states and proves what holds of every record.
//! - [`command`] is a record to try the engine on.
pub mod builder;
pub mod command;
pub mod debug;
pub mod error;
pub mod laws;
pub mod protocol;
pub mod resolver;
pub mod schema;
pub mod shape;
pub mod text;
