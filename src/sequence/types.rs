//! The deep embedding of Sequence types.
use vstd::prelude::*;

verus! {

/// A type of a Sequence expression's input or output.
#[derive(Debug, PartialEq, Eq)]
pub enum Type {
    Unit,
    Bit,
    Int8,
    UInt8,
    Int16,
    UInt16,
    Int32,
    UInt32,
    ATuple { left: Box<Type>, right: Box<Type> },
    Sequence { n: u32, elem_type: Box<Type> },
}

} // verus!
