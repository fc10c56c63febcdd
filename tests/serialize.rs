use aetherling::error::DecodeError;
use aetherling::sequence::serialize as seq_ser;
use aetherling::sequence::serialize_values::{deserialize_value, Elems, SerializableSeqValue, SeqValue, TupleValue, ValueSerialized};
use aetherling::sequence::types::Type as SeqType;
use aetherling::sequence::values::{ToAtomStrings, Value};
use aetherling::space_time::serialize as st_ser;
use aetherling::space_time::types::Type;

fn flat_list(v: &Value) -> Vec<Vec<u8>> {
    let mut builder = Vec::new();
    v.convert_to_flat_atom_list(&mut builder).unwrap();
    builder
}

#[test]
fn space_time_type_round_trip() {
    let t = Type::TSeq { n: 4, i: 0, elem_type: Box::new(Type::Int32) };
    let wire = st_ser::serialize_type(&t);
    assert_eq!(st_ser::deserialize_type(&wire), Ok(t));
    let t = Type::SSeq { n: 2, elem_type: Box::new(Type::ATuple {
        left: Box::new(Type::UInt8), right: Box::new(Type::STuple { n: 3, elem_type: Box::new(Type::Unit) }) }) };
    let wire = st_ser::serialize_type(&t);
    assert_eq!(st_ser::deserialize_type(&wire), Ok(t));
}

#[test]
fn space_time_wire_shape() {
    let wire = st_ser::serialize_type(&Type::TSeq { n: 3, i: 1, elem_type: Box::new(Type::Bit) });
    assert_eq!(wire.v, st_ser::VERSION_TSEQ);
    assert_eq!(wire.n, 3);
    assert_eq!(wire.i, 1);
    assert_eq!(wire.children.len(), 1);
    assert_eq!(wire.children[0], st_ser::TypeSerialized { v: st_ser::VERSION_BIT, n: 0, i: 0, children: vec![] });
    let wire = st_ser::serialize_type(&Type::ATuple { left: Box::new(Type::Int16), right: Box::new(Type::UInt32) });
    assert_eq!(wire.v, st_ser::VERSION_ATUPLE);
    assert_eq!(wire.children.len(), 2);
    assert_eq!(wire.children[1].v, st_ser::VERSION_UINT32);
}

#[test]
fn space_time_decode_errors() {
    let bad = st_ser::TypeSerialized { v: 12, n: 0, i: 0, children: vec![] };
    assert_eq!(st_ser::deserialize_type(&bad), Err(DecodeError::UnknownVersion { v: 12 }));
    let bad = st_ser::TypeSerialized { v: st_ser::VERSION_SSEQ, n: 2, i: 0, children: vec![] };
    assert_eq!(st_ser::deserialize_type(&bad), Err(DecodeError::ChildCount { v: st_ser::VERSION_SSEQ, found: 0 }));
    let leaf = st_ser::TypeSerialized { v: st_ser::VERSION_INT8, n: 0, i: 0, children: vec![] };
    let bad = st_ser::TypeSerialized { v: st_ser::VERSION_ATUPLE, n: 0, i: 0, children: vec![leaf] };
    assert_eq!(st_ser::deserialize_type(&bad), Err(DecodeError::ChildCount { v: st_ser::VERSION_ATUPLE, found: 1 }));
}

#[test]
fn sequence_type_round_trip() {
    let t = SeqType::Sequence { n: 5, elem_type: Box::new(SeqType::ATuple {
        left: Box::new(SeqType::Bit), right: Box::new(SeqType::Int32) }) };
    let wire = seq_ser::serialize_type(&t);
    assert_eq!(wire.v, seq_ser::VERSION_SEQUENCE);
    assert_eq!(wire.n, 5);
    assert_eq!(seq_ser::deserialize_type(&wire), Ok(t));
    let bad = seq_ser::TypeSerialized { v: -1, n: 0, children: vec![] };
    assert_eq!(seq_ser::deserialize_type(&bad), Err(DecodeError::UnknownVersion { v: -1 }));
}

#[test]
fn value_round_trip() {
    let v = Value::Sequence(vec![Value::Bit(true), Value::Bit(false)]);
    let loaded = deserialize_value(&v.convert_to_rust_proto()).unwrap();
    assert_eq!(flat_list(&loaded), flat_list(&v));
    assert_eq!(loaded, v);
    let v = Value::Sequence(vec![
        Value::Tuple(Box::new(Value::Int(0)), Box::new(Value::Int(-1))),
        Value::Sequence(vec![Value::Int(2), Value::Int(3)]),
    ]);
    assert_eq!(deserialize_value(&v.convert_to_rust_proto()), Ok(v));
}

#[test]
fn value_wire_shape() {
    let v = Value::Tuple(Box::new(Value::Int(7)), Box::new(Value::Bit(true)));
    let expected = ValueSerialized { elems: Some(Elems::Tuple(Box::new(TupleValue {
        left: Some(Box::new(ValueSerialized { elems: Some(Elems::Int(7)) })),
        right: Some(Box::new(ValueSerialized { elems: Some(Elems::Bit(true)) })),
    }))) };
    assert_eq!(v.convert_to_rust_proto(), expected);
}

#[test]
fn value_decode_errors() {
    assert_eq!(deserialize_value(&ValueSerialized { elems: None }), Err(DecodeError::MissingElement));
    let half = ValueSerialized { elems: Some(Elems::Tuple(Box::new(TupleValue {
        left: Some(Box::new(ValueSerialized { elems: Some(Elems::Int(1)) })),
        right: None,
    }))) };
    assert_eq!(deserialize_value(&half), Err(DecodeError::MissingElement));
    let nested = ValueSerialized { elems: Some(Elems::Sequence(SeqValue { values: vec![
        ValueSerialized { elems: Some(Elems::Int(1)) },
        ValueSerialized { elems: None },
    ] })) };
    assert_eq!(deserialize_value(&nested), Err(DecodeError::MissingElement));
}
