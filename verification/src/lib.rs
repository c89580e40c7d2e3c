//! A declarative JSON-tree construction library, verified with Verus.
//!
//! A [`Value`] is an in-memory JSON tree. Callers describe a tree with
//! nested builder scopes instead of assembling it by hand: an
//! [`ObjectBuilder`] accumulates key/value entries with last-write-wins
//! keys, an [`ArrayBuilder`] accumulates elements in push order, and the
//! entry points [`object`] and [`array`] open a fresh scope, run a caller's
//! configuration closure in it once, and finalize the result. A domain type
//! can join in by implementing [`Serializer`], which names an optional root
//! key and populates an object scope from the type's fields.
//!
//! Conversions into [`Value`] go through [`ToValue`] (total) and
//! [`TryToValue`] (fallible); a failed conversion is remembered by the
//! builder and surfaces as the error of the enclosing entry point, which
//! then yields no value at all.
//!
//! The `decode` module derives values, and bounded trees of them, from an
//! arbitrary byte stream; `sample` holds a small fixture of records with a
//! serializer for them.

pub mod builder;
pub mod decode;
pub mod entries;
pub mod laws;
pub mod sample;
pub mod serializer;
pub mod value;

pub use builder::array;
pub use builder::object;
pub use builder::ArrayBuilder;
pub use builder::ObjectBuilder;
pub use decode::extract_value;
pub use decode::generate_random_number;
pub use laws::build_nested;
pub use sample::generate_fuzz_objects;
pub use sample::Category;
pub use sample::Fuzz;
pub use sample::FuzzSerializer;
pub use serializer::Serializer;
pub use value::BuildError;
pub use value::ToValue;
pub use value::TryToValue;
pub use value::Value;
