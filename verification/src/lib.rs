//! Builders for records, generated from their declarations.
//!
//! A builder takes the fields of a record one by one and makes the record at
//! the end. Its type says which required fields it has been given, so that a
//! record with a required field missing cannot even be asked for, and no
//! required field can be given twice. A field is optional where its type is
//! an `Option`; an optional field can be given at any time, or not at all.
//!
//! The way from a declaration to its builder:
//!
//! - [`decl`] and [`directive`] hold a declaration as plain values: its name,
//!   its parameters, its fields and the directives on it. The directives are
//!   `builder_names(builder = "..", new = "..", build = "..")`,
//!   `builder_prefix = ".."` (on the record or on a field),
//!   `builder_derive(Clone, Debug)` and
//!   `builder_validate(validator = "..", error = "..")`. A directive that
//!   stands twice, a naming directive that sets one name twice and a
//!   validator or error type that is no path are refused.
//! - [`schema`] settles what the builder of a declaration is: its names, the
//!   kind and the slot of every field, its capabilities and its validator.
//!   Whatever is wrong with a declaration is found here, before anything is
//!   written.
//! - [`typestate`] gives each required field its marker and says, for every
//!   method, which builders have it and what it returns.
//! - [`generate`] writes the text of the builder, with [`render`] and
//!   [`text`] underneath.
//!
//! What a builder does once it exists is laid down twice, for the two ways
//! in which it can keep its fields until the record is made: [`nullable`]
//! keeps every field in a slot that may be empty, [`raw`] keeps required
//! fields in slots that are written once and never looked at before. Both
//! are described by the same mathematical content, in [`slots`].
//!
//! [`outside`] holds the two calls that are taken on trust: the parser of
//! paths and the lower-case form of a text.

pub mod decl;
pub mod directive;
pub mod error;
pub mod generate;
pub mod nullable;
pub mod outside;
pub mod raw;
pub mod render;
pub mod schema;
pub mod slots;
pub mod text;
pub mod typestate;

pub use crate::error::GenError;
pub use crate::generate::create_builder;
pub use crate::schema::Schema;
