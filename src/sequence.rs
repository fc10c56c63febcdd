//! The Sequence language: the values that a dataflow program computes, and
//! their types.
pub mod serialize;
pub mod serialize_values;
pub mod types;
pub mod values;
