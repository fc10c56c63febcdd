use aetherling::sequence::values::{ToAtomStrings, Value};

fn flat_tokens(v: &Value) -> Vec<String> {
    let mut builder: Vec<Vec<u8>> = Vec::new();
    v.convert_to_flat_atom_list(&mut builder).unwrap();
    builder.into_iter().map(|b| String::from_utf8(b).unwrap()).collect()
}

fn int_values(xs: &[i32]) -> Value {
    Value::Sequence(xs.iter().map(|x| Value::Int(*x)).collect())
}

#[test]
fn serialize_values_test_convert_to_flat_atom_list_int() {
    assert_eq!(flat_tokens(&Value::Int(1)), vec!(String::from("1")))
}

#[test]
fn serialize_values_test_convert_to_flat_atom_list_bool() {
    assert_eq!(flat_tokens(&Value::Bit(true)), vec!(String::from("true")))
}

#[test]
fn serialize_values_test_convert_to_flat_atom_list_tuple() {
    let v = Value::Tuple(Box::new(Value::Int(3)), Box::new(Value::Bit(false)));
    assert_eq!(flat_tokens(&v), vec!(String::from("(3,false)")))
}

#[test]
fn serialize_values_test_convert_to_flat_atom_list_array() {
    assert_eq!(flat_tokens(&int_values(&[4, 2, 1, 5])), vec!(String::from("4"), String::from("2"),
                                               String::from("1"), String::from("5")))
}

#[test]
fn serialize_values_test_convert_to_flat_atom_list_nested_array() {
    let v = Value::Sequence(vec![int_values(&[4, 2]), int_values(&[1, 5])]);
    assert_eq!(flat_tokens(&v), vec!(String::from("4"), String::from("2"),
                              String::from("1"), String::from("5")))
}
