use urlenc::Error;
use urlenc::Utf8Detail;
use urlenc::Value;
use urlenc::to_string;

fn field(name: &str, v: Value) -> (String, Value) {
    (name.to_string(), v)
}

fn top_level_error() -> Error {
    Error::Custom("top-level serializer supports only structs".to_string())
}

fn unsupported(kind: &str) -> Error {
    Error::Custom(format!("unsupported value type: {}", kind))
}

#[test]
fn meal_record_escapes_utf8() {
    let params = Value::Record(vec![
        field("bread", Value::Text("baguette".to_string())),
        field("cheese", Value::Text("comt\u{e9}".to_string())),
        field("meat", Value::Text("ham".to_string())),
        field("fat", Value::Text("butter".to_string())),
    ]);
    assert_eq!(
        to_string(&params),
        Ok("bread=baguette&cheese=comt%C3%A9&meat=ham&fat=butter".to_owned())
    );
}

#[test]
fn escaping_space_and_delimiters() {
    let params = Value::Record(vec![field("a b", Value::Text("c&d=e f".to_string()))]);
    assert_eq!(to_string(&params), Ok("a+b=c%26d%3De+f".to_owned()));
}

#[test]
fn empty_record_is_empty_string() {
    assert_eq!(to_string(&Value::Record(vec![])), Ok("".to_owned()));
}

#[test]
fn unit_field_emits_nothing() {
    let params = Value::Record(vec![
        field("u", Value::Unit),
        field("b", Value::Boolean(true)),
    ]);
    assert_eq!(to_string(&params), Ok("b=true".to_owned()));
}

#[test]
fn named_unit_field_emits_bare_name() {
    let params = Value::Record(vec![field("one", Value::NamedUnit("A".to_string()))]);
    assert_eq!(to_string(&params), Ok("one=A".to_owned()));
}

#[test]
fn char_field() {
    let params = Value::Record(vec![
        field("c", Value::Char('z')),
        field("e", Value::Char('\u{e9}')),
    ]);
    assert_eq!(to_string(&params), Ok("c=z&e=%C3%A9".to_owned()));
}

#[test]
fn float_field_text_is_emitted_verbatim() {
    let params = Value::Record(vec![field("f", Value::Float("1.25".to_string()))]);
    assert_eq!(to_string(&params), Ok("f=1.25".to_owned()));
}

#[test]
fn integer_extremes() {
    let params = Value::Record(vec![
        field("max", Value::U128(u128::MAX)),
        field("min", Value::I128(i128::MIN)),
    ]);
    assert_eq!(
        to_string(&params),
        Ok("max=340282366920938463463374607431768211455\
            &min=-170141183460469231731687303715884105728"
            .to_owned())
    );
}

#[test]
fn integer_widths_and_signs() {
    let params = Value::Record(vec![
        field("a", Value::I8(-128)),
        field("b", Value::I16(-1)),
        field("c", Value::I64(0)),
        field("d", Value::U8(255)),
        field("e", Value::U16(7)),
        field("f", Value::U64(18446744073709551615)),
    ]);
    assert_eq!(
        to_string(&params),
        Ok("a=-128&b=-1&c=0&d=255&e=7&f=18446744073709551615".to_owned())
    );
}

#[test]
fn bytes_valid_utf8_encode_as_string() {
    let params = Value::Record(vec![field("first", Value::Bytes(b"hello".to_vec()))]);
    assert_eq!(to_string(&params), Ok("first=hello".to_owned()));
}

#[test]
fn bytes_invalid_utf8_rejected() {
    let params = Value::Record(vec![field("first", Value::Bytes(vec![0xff]))]);
    assert_eq!(
        to_string(&params),
        Err(Error::Utf8(Utf8Detail { valid_up_to: 0 }))
    );
    let partial = Value::Record(vec![field("first", Value::Bytes(vec![b'a', b'b', 0xff]))]);
    assert_eq!(
        to_string(&partial),
        Err(Error::Utf8(Utf8Detail { valid_up_to: 2 }))
    );
}

#[test]
fn nested_sequence_rejected() {
    let params = Value::Record(vec![field(
        "x",
        Value::Sequence(vec![Value::Sequence(vec![Value::I32(1)])]),
    )]);
    assert_eq!(to_string(&params), Err(unsupported("sequence")));
}

#[test]
fn sequence_with_absent_elements() {
    let params = Value::Record(vec![field(
        "x",
        Value::Sequence(vec![
            Value::Optional(None),
            Value::I32(1),
            Value::Optional(Some(Box::new(Value::I32(2)))),
        ]),
    )]);
    assert_eq!(to_string(&params), Ok("x=1&x=2".to_owned()));
}

#[test]
fn optional_sequence_field_fans_out() {
    let params = Value::Record(vec![field(
        "x",
        Value::Optional(Some(Box::new(Value::Sequence(vec![
            Value::I32(1),
            Value::I32(2),
        ])))),
    )]);
    assert_eq!(to_string(&params), Ok("x=1&x=2".to_owned()));
}

#[test]
fn unsupported_field_kinds() {
    let cases: Vec<(Value, &str)> = vec![
        (Value::Record(vec![]), "struct"),
        (Value::Mapping(vec![]), "map"),
        (Value::Tuple(vec![]), "tuple"),
        (
            Value::NewtypeVariant("V".to_string(), Box::new(Value::I32(1))),
            "newtype variant",
        ),
        (Value::TupleVariant("V".to_string(), vec![]), "tuple variant"),
        (
            Value::StructVariant("V".to_string(), vec![]),
            "struct variant",
        ),
    ];
    for (value, kind) in cases {
        let params = Value::Record(vec![field("k", value)]);
        assert_eq!(to_string(&params), Err(unsupported(kind)));
    }
}

#[test]
fn first_error_stops_the_walk() {
    let params = Value::Record(vec![
        field("a", Value::Boolean(true)),
        field("bad", Value::Tuple(vec![])),
        field("late", Value::Bytes(vec![0xff])),
    ]);
    assert_eq!(to_string(&params), Err(unsupported("tuple")));
}

#[test]
fn top_level_rejections() {
    let roots = vec![
        Value::Boolean(true),
        Value::I32(5),
        Value::U64(7),
        Value::Float("1.5".to_string()),
        Value::Char('c'),
        Value::Text("s".to_string()),
        Value::Bytes(b"ab".to_vec()),
        Value::NamedVariant("A".to_string()),
        Value::Sequence(vec![]),
        Value::Mapping(vec![]),
        Value::Tuple(vec![]),
        Value::NewtypeVariant("V".to_string(), Box::new(Value::I32(1))),
        Value::TupleVariant("V".to_string(), vec![]),
        Value::StructVariant("V".to_string(), vec![]),
        Value::Optional(None),
        Value::Optional(Some(Box::new(Value::Record(vec![])))),
        Value::Newtype(Box::new(Value::Boolean(true))),
    ];
    for root in roots {
        assert_eq!(to_string(&root), Err(top_level_error()));
    }
}

#[test]
fn top_level_newtype_unwraps() {
    let inner = Value::Record(vec![field("a", Value::U8(1))]);
    let root = Value::Newtype(Box::new(Value::Newtype(Box::new(inner))));
    assert_eq!(to_string(&root), Ok("a=1".to_owned()));
}

#[test]
fn top_level_error_constructor() {
    assert_eq!(Error::top_level(), top_level_error());
}
