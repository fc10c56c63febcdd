//! The wire form of Space-Time types: a tree of tagged nodes, as an external
//! front end writes it. Encoding the tree to bytes and decoding it from bytes
//! is left to the caller.
use vstd::prelude::*;
use crate::error::DecodeError;
use crate::space_time::types::Type;

verus! {

pub const VERSION_UNIT: i32 = 0;

pub const VERSION_BIT: i32 = 1;

pub const VERSION_INT8: i32 = 2;

pub const VERSION_UINT8: i32 = 3;

pub const VERSION_INT16: i32 = 4;

pub const VERSION_UINT16: i32 = 5;

pub const VERSION_INT32: i32 = 6;

pub const VERSION_UINT32: i32 = 7;

pub const VERSION_ATUPLE: i32 = 8;

pub const VERSION_STUPLE: i32 = 9;

pub const VERSION_SSEQ: i32 = 10;

pub const VERSION_TSEQ: i32 = 11;

/// A node of the wire tree of a type: its version, the counts `n` and `i` of
/// a container, and its children (two for a pair, one for a container).
#[derive(Debug, PartialEq, Eq)]
pub struct TypeSerialized {
    pub v: i32,
    pub n: u32,
    pub i: u32,
    pub children: Vec<TypeSerialized>,
}

/// The version that tags a type's node.
pub open spec fn version_of(t: Type) -> i32 {
    match t {
        Type::Unit => VERSION_UNIT,
        Type::Bit => VERSION_BIT,
        Type::Int8 => VERSION_INT8,
        Type::UInt8 => VERSION_UINT8,
        Type::Int16 => VERSION_INT16,
        Type::UInt16 => VERSION_UINT16,
        Type::Int32 => VERSION_INT32,
        Type::UInt32 => VERSION_UINT32,
        Type::ATuple { .. } => VERSION_ATUPLE,
        Type::STuple { .. } => VERSION_STUPLE,
        Type::SSeq { .. } => VERSION_SSEQ,
        Type::TSeq { .. } => VERSION_TSEQ,
    }
}

/// The number of children a node of version `v` has.
pub open spec fn arity(v: i32) -> nat {
    if v == VERSION_ATUPLE {
        2
    } else if v == VERSION_STUPLE || v == VERSION_SSEQ || v == VERSION_TSEQ {
        1
    } else {
        0
    }
}

/// `s` is the wire tree of `t`: the version of `t`, the counts of a
/// container (zero elsewhere), and the trees of its children in order.
pub open spec fn encodes(s: TypeSerialized, t: Type) -> bool
    decreases t,
{
    &&& s.v == version_of(t)
    &&& s.children@.len() == arity(s.v)
    &&& match t {
        Type::ATuple { left, right } => s.n == 0 && s.i == 0 && encodes(s.children@[0], *left)
            && encodes(s.children@[1], *right),
        Type::STuple { n, elem_type } => s.n == n && s.i == 0 && encodes(s.children@[0], *elem_type),
        Type::SSeq { n, elem_type } => s.n == n && s.i == 0 && encodes(s.children@[0], *elem_type),
        Type::TSeq { n, i, elem_type } => s.n == n && s.i == i && encodes(s.children@[0], *elem_type),
        _ => s.n == 0 && s.i == 0,
    }
}

/// The type a wire tree describes, or why it describes none. The counts of
/// a node that is not a container are not read.
pub open spec fn decoded_type(s: TypeSerialized) -> Result<Type, DecodeError>
    decreases s,
{
    if !(VERSION_UNIT <= s.v <= VERSION_TSEQ) {
        Err(DecodeError::UnknownVersion { v: s.v })
    } else if s.children@.len() != arity(s.v) {
        Err(DecodeError::ChildCount { v: s.v, found: s.children@.len() as usize })
    } else if s.v == VERSION_UNIT {
        Ok(Type::Unit)
    } else if s.v == VERSION_BIT {
        Ok(Type::Bit)
    } else if s.v == VERSION_INT8 {
        Ok(Type::Int8)
    } else if s.v == VERSION_UINT8 {
        Ok(Type::UInt8)
    } else if s.v == VERSION_INT16 {
        Ok(Type::Int16)
    } else if s.v == VERSION_UINT16 {
        Ok(Type::UInt16)
    } else if s.v == VERSION_INT32 {
        Ok(Type::Int32)
    } else if s.v == VERSION_UINT32 {
        Ok(Type::UInt32)
    } else if s.v == VERSION_ATUPLE {
        match (decoded_type(s.children@[0]), decoded_type(s.children@[1])) {
            (Ok(l), Ok(r)) => Ok(Type::ATuple { left: Box::new(l), right: Box::new(r) }),
            (Err(e), _) => Err(e),
            (_, Err(e)) => Err(e),
        }
    } else {
        match decoded_type(s.children@[0]) {
            Ok(e) => if s.v == VERSION_STUPLE {
                Ok(Type::STuple { n: s.n, elem_type: Box::new(e) })
            } else if s.v == VERSION_SSEQ {
                Ok(Type::SSeq { n: s.n, elem_type: Box::new(e) })
            } else {
                Ok(Type::TSeq { n: s.n, i: s.i, elem_type: Box::new(e) })
            },
            Err(e) => Err(e),
        }
    }
}

/// Decoding the wire tree of a type gives that type back.
pub proof fn lemma_decode_encoded(s: TypeSerialized, t: Type)
    requires
        encodes(s, t),
    ensures
        decoded_type(s) == Ok::<Type, DecodeError>(t),
    decreases t,
{
    match t {
        Type::ATuple { left, right } => {
            lemma_decode_encoded(s.children@[0], *left);
            lemma_decode_encoded(s.children@[1], *right);
        },
        Type::STuple { n, elem_type } => lemma_decode_encoded(s.children@[0], *elem_type),
        Type::SSeq { n, elem_type } => lemma_decode_encoded(s.children@[0], *elem_type),
        Type::TSeq { n, i, elem_type } => lemma_decode_encoded(s.children@[0], *elem_type),
        _ => {},
    }
}

/// Converts a wire tree to the type it describes.
pub fn deserialize_type(s: &TypeSerialized) -> (r: Result<Type, DecodeError>)
    ensures
        r == decoded_type(*s),
    decreases s,
{
    let v = s.v;
    if !(VERSION_UNIT <= v && v <= VERSION_TSEQ) {
        return Err(DecodeError::UnknownVersion { v });
    }
    let needed: usize = if v == VERSION_ATUPLE {
        2
    } else if v == VERSION_STUPLE || v == VERSION_SSEQ || v == VERSION_TSEQ {
        1
    } else {
        0
    };
    if s.children.len() != needed {
        return Err(DecodeError::ChildCount { v, found: s.children.len() });
    }
    if v == VERSION_UNIT {
        Ok(Type::Unit)
    } else if v == VERSION_BIT {
        Ok(Type::Bit)
    } else if v == VERSION_INT8 {
        Ok(Type::Int8)
    } else if v == VERSION_UINT8 {
        Ok(Type::UInt8)
    } else if v == VERSION_INT16 {
        Ok(Type::Int16)
    } else if v == VERSION_UINT16 {
        Ok(Type::UInt16)
    } else if v == VERSION_INT32 {
        Ok(Type::Int32)
    } else if v == VERSION_UINT32 {
        Ok(Type::UInt32)
    } else if v == VERSION_ATUPLE {
        let left = deserialize_type(&s.children[0])?;
        let right = deserialize_type(&s.children[1])?;
        Ok(Type::ATuple { left: Box::new(left), right: Box::new(right) })
    } else {
        let elem_type = deserialize_type(&s.children[0])?;
        if v == VERSION_STUPLE {
            Ok(Type::STuple { n: s.n, elem_type: Box::new(elem_type) })
        } else if v == VERSION_SSEQ {
            Ok(Type::SSeq { n: s.n, elem_type: Box::new(elem_type) })
        } else {
            Ok(Type::TSeq { n: s.n, i: s.i, elem_type: Box::new(elem_type) })
        }
    }
}

/// A leaf node of version `v`.
fn leaf(v: i32) -> (r: TypeSerialized)
    ensures
        r.v == v,
        r.n == 0,
        r.i == 0,
        r.children@.len() == 0,
{
    TypeSerialized { v, n: 0, i: 0, children: Vec::new() }
}

/// Converts a type to its wire tree.
pub fn serialize_type(t: &Type) -> (r: TypeSerialized)
    ensures
        encodes(r, *t),
    decreases t,
{
    match t {
        Type::Unit => leaf(VERSION_UNIT),
        Type::Bit => leaf(VERSION_BIT),
        Type::Int8 => leaf(VERSION_INT8),
        Type::UInt8 => leaf(VERSION_UINT8),
        Type::Int16 => leaf(VERSION_INT16),
        Type::UInt16 => leaf(VERSION_UINT16),
        Type::Int32 => leaf(VERSION_INT32),
        Type::UInt32 => leaf(VERSION_UINT32),
        Type::ATuple { left, right } => {
            let mut children = Vec::new();
            children.push(serialize_type(left));
            children.push(serialize_type(right));
            TypeSerialized { v: VERSION_ATUPLE, n: 0, i: 0, children }
        },
        Type::STuple { n, elem_type } => {
            let mut children = Vec::new();
            children.push(serialize_type(elem_type));
            TypeSerialized { v: VERSION_STUPLE, n: *n, i: 0, children }
        },
        Type::SSeq { n, elem_type } => {
            let mut children = Vec::new();
            children.push(serialize_type(elem_type));
            TypeSerialized { v: VERSION_SSEQ, n: *n, i: 0, children }
        },
        Type::TSeq { n, i, elem_type } => {
            let mut children = Vec::new();
            children.push(serialize_type(elem_type));
            TypeSerialized { v: VERSION_TSEQ, n: *n, i: *i, children }
        },
    }
}

} // verus!
