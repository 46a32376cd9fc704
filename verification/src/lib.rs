//! Conversion between streams of typed value events and columnar buffers.
//!
//! A schema of [`schema::GenericField`]s is either given or inferred from
//! events by a [`tracer::Tracer`]. The [`compiler`] lowers a schema into a
//! linear bytecode program with its structure tables, the [`linker`] gives
//! every instruction its successor, and [`validation`] checks the result.
//! The [`interpreter`] drives the program from an event stream to fill
//! typed buffers. In the other direction, [`source`]s yield the events of
//! buffers, and a [`deserializer::Deserializer`] reads values from them.
pub mod error;
pub mod text;
pub mod event;
pub mod source;
pub mod generic_sources;
pub mod deserializer;
pub mod schema;
pub mod arrow;
pub mod tracer;
pub mod tracer_laws;
pub mod bytecode;
pub mod structure;
pub mod compiler;
pub mod linker;
pub mod validation;
pub mod interpreter;
