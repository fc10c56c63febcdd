use aetherling::error::ConvertError;
use aetherling::sequence::values::Value;
use aetherling::space_time::types::Type;
use aetherling::space_time::value_to_string::convert_seq_val_to_st_val_string;

fn int_seq(xs: &[i32]) -> Value {
    Value::Sequence(xs.iter().map(|x| Value::Int(*x)).collect())
}

fn lower(v: Value, t: Type) -> (Result<(), ConvertError>, String, String) {
    let mut vals_builder = Vec::new();
    let mut valids_builder = Vec::new();
    let r = convert_seq_val_to_st_val_string(v, t, &mut vals_builder, &mut valids_builder);
    (
        r,
        String::from_utf8(vals_builder).unwrap(),
        String::from_utf8(valids_builder).unwrap(),
    )
}

#[test]
fn test_convert_seq_val_to_st_val_string_sseq_4_int() {
    let mut vals_builder = Vec::new();
    let mut valids_builder = Vec::new();
    convert_seq_val_to_st_val_string(int_seq(&[1, 3, 2, 4]),
                                     Type::SSeq { n: 4, elem_type: Box::from(Type::Int32) },
                                     &mut vals_builder, &mut valids_builder).unwrap();
    let vals_data = String::from_utf8(vals_builder).unwrap();
    assert_eq!(vals_data, String::from("[[1,3,2,4]]"));
    let valids_data = String::from_utf8(valids_builder).unwrap();
    assert_eq!(valids_data, String::from("[true]"));
}

#[test]
fn test_convert_seq_val_to_st_val_string_tseq_4_int() {
    let mut vals_builder = Vec::new();
    let mut valids_builder = Vec::new();
    convert_seq_val_to_st_val_string(int_seq(&[1, 3, 2, 4]),
                                     Type::TSeq { n: 4, i: 0, elem_type: Box::from(Type::Int32) },
                                     &mut vals_builder, &mut valids_builder).unwrap();
    let vals_data = String::from_utf8(vals_builder).unwrap();
    assert_eq!(vals_data, String::from("[1,3,2,4]"));
    let valids_data = String::from_utf8(valids_builder).unwrap();
    assert_eq!(valids_data, String::from("[true,true,true,true]"));
}

#[test]
fn test_convert_seq_val_to_st_val_string_tseq_2_1_int() {
    let mut vals_builder = Vec::new();
    let mut valids_builder = Vec::new();
    convert_seq_val_to_st_val_string(int_seq(&[1, 3]),
                                     Type::TSeq { n: 2, i: 1, elem_type: Box::from(Type::Int32) },
                                     &mut vals_builder, &mut valids_builder).unwrap();
    let vals_data = String::from_utf8(vals_builder).unwrap();
    assert_eq!(vals_data, String::from("[1,3,0]"));
    let valids_data = String::from_utf8(valids_builder).unwrap();
    assert_eq!(valids_data, String::from("[true,true,false]"));
}

#[test]
fn test_convert_seq_val_to_st_val_string_tseq_3_0_sseq_2_int() {
    let mut vals_builder = Vec::new();
    let mut valids_builder = Vec::new();
    convert_seq_val_to_st_val_string(int_seq(&[1, 3, 2, 4, 6, 5]),
                                     Type::TSeq { n: 3, i: 0, elem_type: Box::from(
                                         Type::SSeq { n: 2, elem_type: Box::from(Type::Int32) }) },
                                     &mut vals_builder, &mut valids_builder).unwrap();
    let vals_data = String::from_utf8(vals_builder).unwrap();
    assert_eq!(vals_data, String::from("[[1,3],[2,4],[6,5]]"));
    let valids_data = String::from_utf8(valids_builder).unwrap();
    assert_eq!(valids_data, String::from("[true,true,true]"));
}

#[test]
fn short_atom_list_is_a_structural_mismatch() {
    let (r, vals, valids) = lower(int_seq(&[1, 3, 2]), Type::SSeq { n: 4, elem_type: Box::from(Type::Int32) });
    assert_eq!(r, Err(ConvertError::AtomCount { expected: 4, found: 3 }));
    assert_eq!(vals, "");
    assert_eq!(valids, "");
}

#[test]
fn long_atom_list_is_a_structural_mismatch() {
    let (r, vals, _) = lower(int_seq(&[1, 3, 2, 4, 5]), Type::TSeq { n: 4, i: 1, elem_type: Box::from(Type::Int32) });
    assert_eq!(r, Err(ConvertError::AtomCount { expected: 4, found: 5 }));
    assert_eq!(vals, "");
}

#[test]
fn zero_repetitions_is_a_structural_mismatch() {
    let (r, vals, valids) = lower(int_seq(&[]), Type::SSeq { n: 0, elem_type: Box::from(Type::Int32) });
    assert_eq!(r, Err(ConvertError::InvalidType));
    assert_eq!(vals, "");
    assert_eq!(valids, "");
    let (r, _, _) = lower(int_seq(&[1]), Type::TSeq { n: 0, i: 1, elem_type: Box::from(Type::Int32) });
    assert_eq!(r, Err(ConvertError::InvalidType));
}

#[test]
fn oversized_type_is_rejected() {
    let t = Type::TSeq { n: 65536, i: 0, elem_type: Box::from(
        Type::SSeq { n: 65536, elem_type: Box::from(Type::Int32) }) };
    let (r, _, _) = lower(int_seq(&[1]), t);
    assert_eq!(r, Err(ConvertError::InvalidType));
}

#[test]
fn tuple_holding_a_sequence_is_a_structural_mismatch() {
    let v = Value::Sequence(vec![Value::Tuple(Box::new(Value::Int(1)), Box::new(int_seq(&[2])))]);
    let (r, _, _) = lower(v, Type::SSeq { n: 1, elem_type: Box::from(Type::Int32) });
    assert_eq!(r, Err(ConvertError::TupleOfSequence));
}

#[test]
fn idle_cycles_under_a_spatial_container() {
    let t = Type::SSeq { n: 2, elem_type: Box::from(
        Type::TSeq { n: 2, i: 1, elem_type: Box::from(Type::Int32) }) };
    let (r, vals, valids) = lower(int_seq(&[1, 2, 3, 4]), t);
    assert_eq!(r, Ok(()));
    assert_eq!(vals, "[[1,3],[2,4],[0,0]]");
    assert_eq!(valids, "[true,true,false]");
}

#[test]
fn idle_bits_use_the_bit_default() {
    let v = Value::Sequence(vec![Value::Bit(true), Value::Bit(false)]);
    let (r, vals, valids) = lower(v, Type::TSeq { n: 2, i: 2, elem_type: Box::from(Type::Bit) });
    assert_eq!(r, Ok(()));
    assert_eq!(vals, "[true,false,False,False]");
    assert_eq!(valids, "[true,true,false,false]");
}

#[test]
fn nested_idle_cycles() {
    let t = Type::TSeq { n: 2, i: 1, elem_type: Box::from(
        Type::TSeq { n: 1, i: 1, elem_type: Box::from(Type::Int8) }) };
    let (r, vals, valids) = lower(int_seq(&[-7, 9]), t);
    assert_eq!(r, Ok(()));
    assert_eq!(vals, "[-7,0,9,0,0,0]");
    assert_eq!(valids, "[true,false,true,false,false,false]");
}

#[test]
fn pairs_occupy_one_lane_and_default_to_brackets() {
    let pair = |a: i32, b: bool| Value::Tuple(Box::new(Value::Int(a)), Box::new(Value::Bit(b)));
    let v = Value::Sequence(vec![pair(3, false), pair(-1, true)]);
    let t = Type::TSeq { n: 1, i: 1, elem_type: Box::from(Type::SSeq { n: 2, elem_type: Box::from(
        Type::ATuple { left: Box::from(Type::Int32), right: Box::from(Type::Bit) }) }) };
    let (r, vals, valids) = lower(v, t);
    assert_eq!(r, Ok(()));
    assert_eq!(vals, "[[(3,false),(-1,true)],[[0,False],[0,False]]]");
    assert_eq!(valids, "[true,false]");
}

#[test]
fn single_atom_type() {
    let (r, vals, valids) = lower(Value::Int(i32::MIN), Type::Int32);
    assert_eq!(r, Ok(()));
    assert_eq!(vals, "[-2147483648]");
    assert_eq!(valids, "[true]");
}

#[test]
fn output_is_appended_to_the_sinks() {
    let mut vals = b"x".to_vec();
    let mut valids = b"y".to_vec();
    convert_seq_val_to_st_val_string(int_seq(&[5]), Type::UInt16, &mut vals, &mut valids).unwrap();
    assert_eq!(String::from_utf8(vals).unwrap(), "x[5]");
    assert_eq!(String::from_utf8(valids).unwrap(), "y[true]");
}

#[test]
fn value_shaped_like_its_type_lowers() {
    let t = Type::TSeq { n: 2, i: 1, elem_type: Box::from(
        Type::SSeq { n: 3, elem_type: Box::from(Type::Int32) }) };
    assert_eq!(t.valid_clocks() * t.atoms_per_valid(), 6);
    let v = Value::Sequence(vec![int_seq(&[1, 2, 3]), int_seq(&[4, 5, 6])]);
    let mut builder: Vec<Vec<u8>> = Vec::new();
    aetherling::sequence::values::ToAtomStrings::convert_to_flat_atom_list(&v, &mut builder).unwrap();
    assert_eq!(builder.len(), 6);
    let (r, vals, valids) = lower(v, t);
    assert_eq!(r, Ok(()));
    assert_eq!(vals, "[[1,2,3],[4,5,6],[0,0,0]]");
    assert_eq!(valids, "[true,true,false]");
}
