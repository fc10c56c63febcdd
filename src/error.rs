//! Why a value could not be lowered onto a type.
use vstd::prelude::*;

verus! {

/// A structural mismatch between a value and the type it is lowered onto.
#[derive(Debug, Clone, PartialEq, Eq)]
pub enum ConvertError {
    /// A container of the type repeats its element zero times, or the
    /// type's grid has more cells than a `u32` can count.
    InvalidType,
    /// A tuple of the value holds a sequence; tuples hold atoms only.
    TupleOfSequence,
    /// The value flattens to `found` atoms where the type needs `expected`.
    AtomCount { expected: usize, found: usize },
}

/// A wire tree that is not a valid tagged tree.
#[derive(Debug, Clone, PartialEq, Eq)]
pub enum DecodeError {
    /// A type node carries a version that names no type.
    UnknownVersion { v: i32 },
    /// A type node has a number of children other than its version needs.
    ChildCount { v: i32, found: usize },
    /// A value node, or a side of a pair, is empty.
    MissingElement,
}

} // verus!
