use aetherling::sequence::values::{ToAtomStrings, Value};

fn flat(v: &Value) -> Vec<String> {
    let mut builder: Vec<Vec<u8>> = Vec::new();
    v.convert_to_flat_atom_list(&mut builder).unwrap();
    builder.into_iter().map(|b| String::from_utf8(b).unwrap()).collect()
}

fn int_list(xs: &[i32]) -> Value {
    Value::Sequence(xs.iter().map(|x| Value::Int(*x)).collect())
}

#[test]
fn to_atom_strings_test_convert_to_flat_atom_list_int() {
    assert_eq!(flat(&Value::Int(1)), vec!(String::from("1")))
}

#[test]
fn to_atom_strings_test_convert_to_flat_atom_list_bool() {
    assert_eq!(flat(&Value::Bit(true)), vec!(String::from("true")))
}

#[test]
fn to_atom_strings_test_convert_to_flat_atom_list_tuple() {
    let v = Value::Tuple(Box::new(Value::Int(3)), Box::new(Value::Bit(false)));
    assert_eq!(flat(&v), vec!(String::from("(3,false)")))
}

#[test]
fn to_atom_strings_test_convert_to_flat_atom_list_array() {
    assert_eq!(flat(&int_list(&[4, 2, 1, 5])), vec!(String::from("4"), String::from("2"),
                                               String::from("1"), String::from("5")))
}

#[test]
fn to_atom_strings_test_convert_to_flat_atom_list_nested_array() {
    let v = Value::Sequence(vec![int_list(&[4, 2]), int_list(&[1, 5])]);
    assert_eq!(flat(&v), vec!(String::from("4"), String::from("2"),
                              String::from("1"), String::from("5")))
}

#[test]
fn flattening_appends_to_the_builder() {
    let mut builder: Vec<Vec<u8>> = vec![b"x".to_vec()];
    int_list(&[10, -20]).convert_to_flat_atom_list(&mut builder).unwrap();
    assert_eq!(builder, vec![b"x".to_vec(), b"10".to_vec(), b"-20".to_vec()]);
}

#[test]
fn nested_pairs_render_inside_one_token() {
    let inner = Value::Tuple(Box::new(Value::Bit(true)), Box::new(Value::Int(0)));
    let v = Value::Tuple(Box::new(Value::Int(i32::MAX)), Box::new(inner));
    assert_eq!(flat(&v), vec!(String::from("(2147483647,(true,0))")))
}

#[test]
fn empty_sequence_flattens_to_nothing() {
    assert_eq!(flat(&int_list(&[])), Vec::<String>::new());
}

#[test]
fn pair_of_sequence_does_not_flatten() {
    let v = Value::Tuple(Box::new(int_list(&[1])), Box::new(Value::Int(2)));
    let mut builder: Vec<Vec<u8>> = vec![b"7".to_vec()];
    assert_eq!(v.convert_to_flat_atom_list(&mut builder), Err(aetherling::error::ConvertError::TupleOfSequence));
    assert_eq!(builder, vec![b"7".to_vec()]);
    let late = Value::Sequence(vec![Value::Int(1), Value::Tuple(Box::new(Value::Int(2)), Box::new(int_list(&[3])))]);
    assert!(late.convert_to_flat_atom_list(&mut builder).is_err());
    assert_eq!(builder, vec![b"7".to_vec()]);
}
