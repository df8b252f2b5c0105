use urlenc::Value;
use urlenc::to_string;

fn field(name: &str, v: Value) -> (String, Value) {
    (name.to_string(), v)
}

#[test]
fn serialize_newtype_i32() {
    let params = Value::Record(vec![field(
        "field",
        Value::Optional(Some(Box::new(Value::Newtype(Box::new(Value::I32(11)))))),
    )]);
    assert_eq!(to_string(&params), Ok("field=11".to_owned()));
}

#[test]
fn serialize_newtype_u128() {
    let params = Value::Record(vec![field(
        "field",
        Value::Optional(Some(Box::new(Value::Newtype(Box::new(Value::U128(
            u128::MAX,
        )))))),
    )]);
    assert_eq!(to_string(&params), Ok(format!("field={}", u128::MAX)));
}

#[test]
fn serialize_newtype_i128() {
    let params = Value::Record(vec![field(
        "field",
        Value::Optional(Some(Box::new(Value::Newtype(Box::new(Value::I128(
            i128::MIN,
        )))))),
    )]);
    assert_eq!(to_string(&params), Ok(format!("field={}", i128::MIN)));
}

#[test]
fn serialize_option_map_int() {
    let params = Value::Record(vec![
        field("first", Value::Optional(Some(Box::new(Value::U32(23))))),
        field("middle", Value::Optional(None)),
        field("last", Value::Optional(Some(Box::new(Value::U32(42))))),
    ]);
    assert_eq!(to_string(&params), Ok("first=23&last=42".to_owned()));
}

#[test]
fn serialize_option_map_string() {
    let params = Value::Record(vec![
        field(
            "first",
            Value::Optional(Some(Box::new(Value::Text("hello".to_string())))),
        ),
        field("middle", Value::Optional(None)),
        field(
            "last",
            Value::Optional(Some(Box::new(Value::Text("world".to_string())))),
        ),
    ]);
    assert_eq!(to_string(&params), Ok("first=hello&last=world".to_owned()));
}

#[test]
fn serialize_option_map_bool() {
    let params = Value::Record(vec![
        field("one", Value::Optional(Some(Box::new(Value::Boolean(true))))),
        field("two", Value::Optional(Some(Box::new(Value::Boolean(false))))),
    ]);
    assert_eq!(to_string(&params), Ok("one=true&two=false".to_owned()));
}

#[test]
fn serialize_map_bool() {
    let params = Value::Record(vec![
        field("one", Value::Boolean(true)),
        field("two", Value::Boolean(false)),
    ]);
    assert_eq!(to_string(&params), Ok("one=true&two=false".to_owned()));
}

#[test]
fn serialize_unit_enum() {
    let params = Value::Record(vec![
        field("one", Value::NamedVariant("A".to_string())),
        field("two", Value::NamedVariant("B".to_string())),
        field("three", Value::NamedVariant("C".to_string())),
    ]);
    assert_eq!(to_string(&params), Ok("one=A&two=B&three=C".to_owned()));
}

#[test]
fn serialize_unit_struct() {
    let params = Value::NamedUnit("Unit".to_string());
    assert_eq!(to_string(&params), Ok("".to_owned()));
}

#[test]
fn serialize_unit_type() {
    assert_eq!(to_string(&Value::Unit), Ok("".to_owned()));
}

#[test]
fn serialize_struct_vec() {
    let list_struct = Value::Record(vec![
        field(
            "x",
            Value::Sequence(vec![Value::I32(1), Value::I32(2), Value::I32(3)]),
        ),
        field(
            "y",
            Value::Sequence(vec![Value::I32(4), Value::I32(5), Value::I32(6)]),
        ),
    ]);
    assert_eq!(to_string(&list_struct), Ok("x=1&x=2&x=3&y=4&y=5&y=6".into()));
}
