//! Lowers a schema into a bytecode program.
pub mod layout;
pub mod fields;
pub mod lists;
pub mod structs;
pub mod unions;
pub mod outer;
pub mod laws;
