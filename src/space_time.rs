//! The Space-Time language: its types and the lowering of values onto them.
pub mod ast;
pub mod types;
pub mod serialize;
pub mod lowering;
pub mod value_to_string;
