//! The wire form of Sequence values: a tree of tagged nodes, as an external
//! front end writes it. Encoding the tree to bytes and decoding it from bytes
//! is left to the caller.
use vstd::prelude::*;
use crate::error::DecodeError;
use crate::sequence::values::{ToAtomStrings, Value};

verus! {

/// A node of the wire tree of a value; `elems` is empty only in a malformed
/// tree.
#[derive(Debug, PartialEq, Eq)]
pub struct ValueSerialized {
    pub elems: Option<Elems>,
}

/// What a wire node holds.
#[derive(Debug, PartialEq, Eq)]
pub enum Elems {
    Int(i32),
    Bit(bool),
    Tuple(Box<TupleValue>),
    Sequence(SeqValue),
}

/// The two sides of a pair.
#[derive(Debug, PartialEq, Eq)]
pub struct TupleValue {
    pub left: Option<Box<ValueSerialized>>,
    pub right: Option<Box<ValueSerialized>>,
}

/// The elements of a sequence, in order.
#[derive(Debug, PartialEq, Eq)]
pub struct SeqValue {
    pub values: Vec<ValueSerialized>,
}

/// `s` is the wire tree of `v`.
pub open spec fn encodes_value(s: ValueSerialized, v: Value) -> bool
    decreases v,
{
    match v {
        Value::Int(x) => s.elems == Some(Elems::Int(x)),
        Value::Bit(b) => s.elems == Some(Elems::Bit(b)),
        Value::Tuple(a, b) => match s.elems {
            Some(Elems::Tuple(tv)) => match (tv.left, tv.right) {
                (Some(l), Some(r)) => encodes_value(*l, *a) && encodes_value(*r, *b),
                _ => false,
            },
            _ => false,
        },
        Value::Sequence(es) => match s.elems {
            Some(Elems::Sequence(sv)) => sv.values@.len() == es@.len() && forall|k: int|
                0 <= k < es@.len() ==> encodes_value(#[trigger] sv.values@[k], es@[k]),
            _ => false,
        },
    }
}

/// Every node of the wire tree, and each side of each pair, is filled.
pub open spec fn decodable(s: ValueSerialized) -> bool
    decreases s,
{
    match s.elems {
        None => false,
        Some(Elems::Tuple(tv)) => match (tv.left, tv.right) {
            (Some(l), Some(r)) => decodable(*l) && decodable(*r),
            _ => false,
        },
        Some(Elems::Sequence(sv)) => forall|k: int|
            0 <= k < sv.values@.len() ==> decodable(#[trigger] sv.values@[k]),
        _ => true,
    }
}

/// The wire tree of a value can be decoded.
pub proof fn lemma_encoded_is_decodable(s: ValueSerialized, v: Value)
    requires
        encodes_value(s, v),
    ensures
        decodable(s),
    decreases v,
{
    match v {
        Value::Tuple(a, b) => {
            if let Some(Elems::Tuple(tv)) = s.elems {
                if let (Some(l), Some(r)) = (tv.left, tv.right) {
                    lemma_encoded_is_decodable(*l, *a);
                    lemma_encoded_is_decodable(*r, *b);
                }
            }
        },
        Value::Sequence(es) => {
            if let Some(Elems::Sequence(sv)) = s.elems {
                assert forall|k: int| 0 <= k < sv.values@.len() implies decodable(
                    #[trigger] sv.values@[k],
                ) by {
                    lemma_encoded_is_decodable(sv.values@[k], es@[k]);
                }
            }
        },
        _ => {},
    }
}

/// Converts a wire tree to the value it describes.
pub fn deserialize_value(serialized_value: &ValueSerialized) -> (r: Result<Value, DecodeError>)
    ensures
        match r {
            Ok(v) => encodes_value(*serialized_value, v),
            Err(e) => !decodable(*serialized_value) && e == DecodeError::MissingElement,
        },
    decreases serialized_value,
{
    match &serialized_value.elems {
        Some(elem) => match elem {
            Elems::Int(e) => Ok(Value::Int(*e)),
            Elems::Bit(e) => Ok(Value::Bit(*e)),
            Elems::Tuple(e_box) => {
                let e_left = match &e_box.left {
                    Some(e_left_elem) => deserialize_value(e_left_elem)?,
                    None => {
                        return Err(DecodeError::MissingElement);
                    },
                };
                let e_right = match &e_box.right {
                    Some(e_right_elem) => deserialize_value(e_right_elem)?,
                    None => {
                        return Err(DecodeError::MissingElement);
                    },
                };
                Ok(Value::Tuple(Box::new(e_left), Box::new(e_right)))
            },
            Elems::Sequence(e_vec) => {
                let mut values: Vec<Value> = Vec::new();
                let mut k: usize = 0;
                while k < e_vec.values.len()
                    invariant
                        0 <= k <= e_vec.values@.len(),
                        serialized_value.elems == Some(Elems::Sequence(*e_vec)),
                        values@.len() == k,
                        forall|j: int| 0 <= j < k ==> encodes_value(e_vec.values@[j], #[trigger] values@[j]),
                    decreases e_vec.values@.len() - k,
                {
                    proof {
                        let elems = serialized_value.elems->0;
                        assert(decreases_to!(*serialized_value => serialized_value.elems));
                        assert(decreases_to!(serialized_value.elems => elems));
                        assert(decreases_to!(elems => elems->Sequence_0));
                        assert(decreases_to!(elems->Sequence_0 => e_vec.values));
                        assert(decreases_to!(e_vec.values => e_vec.values@));
                        assert(decreases_to!(e_vec.values@ => e_vec.values@[k as int]));
                    }
                    let v = match deserialize_value(&e_vec.values[k]) {
                        Ok(v) => v,
                        Err(e) => {
                            assert(!decodable(e_vec.values@[k as int]));
                            assert(!decodable(*serialized_value));
                            return Err(e);
                        },
                    };
                    values.push(v);
                    k = k + 1;
                }
                let r = Value::Sequence(values);
                assert(encodes_value(*serialized_value, r));
                Ok(r)
            },
        },
        None => Err(DecodeError::MissingElement),
    }
}

impl Value {
    /// The wire tree of this value.
    fn to_wire(&self) -> (r: ValueSerialized)
        ensures
            encodes_value(r, *self),
        decreases self,
    {
        match self {
            Value::Int(x) => ValueSerialized { elems: Some(Elems::Int(*x)) },
            Value::Bit(b) => ValueSerialized { elems: Some(Elems::Bit(*b)) },
            Value::Tuple(a, b) => {
                let tuple_value = TupleValue {
                    left: Some(Box::new(a.to_wire())),
                    right: Some(Box::new(b.to_wire())),
                };
                ValueSerialized { elems: Some(Elems::Tuple(Box::new(tuple_value))) }
            },
            Value::Sequence(es) => {
                let mut values: Vec<ValueSerialized> = Vec::new();
                let mut k: usize = 0;
                while k < es.len()
                    invariant
                        0 <= k <= es@.len(),
                        *self == Value::Sequence(*es),
                        values@.len() == k,
                        forall|j: int| 0 <= j < k ==> encodes_value(#[trigger] values@[j], es@[j]),
                    decreases es@.len() - k,
                {
                    assert(decreases_to!(*self => self->Sequence_0));
                    assert(decreases_to!(self->Sequence_0 => self->Sequence_0@));
                    assert(decreases_to!(self->Sequence_0@ => es@[k as int]));
                    values.push(es[k].to_wire());
                    k = k + 1;
                }
                let r = ValueSerialized { elems: Some(Elems::Sequence(SeqValue { values })) };
                assert(encodes_value(r, *self));
                r
            },
        }
    }
}

/// Values that convert to a wire tree.
pub trait SerializableSeqValue: ToAtomStrings {
    /// `s` is the wire tree of the value.
    spec fn wire_form(&self, s: ValueSerialized) -> bool;

    /// Converts the value to its wire tree.
    fn convert_to_rust_proto(&self) -> (r: ValueSerialized)
        ensures
            self.wire_form(r),
    ;
}

impl SerializableSeqValue for Value {
    open spec fn wire_form(&self, s: ValueSerialized) -> bool {
        encodes_value(s, *self)
    }

    fn convert_to_rust_proto(&self) -> (r: ValueSerialized) {
        self.to_wire()
    }
}

} // verus!
