use butte::ast::{Ident, Scalar, Single, Value};

#[test]
fn test_value_macro_simple() {
    let result = Value::from(Single::from("a"));
    let expected = Value::Single(Single::String("a"));
    assert_eq!(result, expected);

    let result = Value::from(Single::from(1));
    let expected = Value::Single(Single::Scalar(Scalar::Integer(1)));
    assert_eq!(result, expected);
}

#[test]
fn test_value_macro_list() {
    let result = Value::from(vec![
        Value::from(Single::from("a")),
        Value::from(Single::from("b")),
        Value::from(Single::from(1)),
    ]);
    let expected = Value::List(vec![
        Value::from(Single::from("a")),
        Value::from(Single::from("b")),
        Value::from(Single::from(Scalar::from(1))),
    ]);
    assert_eq!(result, expected);
}

#[test]
fn test_value_macro_obj() {
    let result = Value::from(vec![
        (Ident::from("a"), Value::from(Single::from(1))),
        (Ident::from("b"), Value::from(Single::from("c"))),
    ]);
    let expected = Value::from(vec![
        (
            Ident::from("a"),
            Value::Single(Single::Scalar(Scalar::Integer(1))),
        ),
        (Ident::from("b"), Value::Single(Single::String("c"))),
    ]);
    assert_eq!(result, expected);
}
