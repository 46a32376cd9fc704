//! Runs a compiled program against a stream of events and fills the
//! buffers of the columns.
pub mod bit_set;
pub mod buffers;
pub mod dates;
pub mod machine;
pub mod writes;
pub mod run;
pub mod laws;
pub mod bitmap;
