use chromium_bridge::codec::{decode, encode, CodecError};
use chromium_bridge::value::{Kind, Value};

fn s(t: &str) -> String {
    t.to_string()
}

fn same(a: &Value, b: &Value) -> bool {
    match (a, b) {
        (Value::Null, Value::Null) => true,
        (Value::Bool(x), Value::Bool(y)) => x == y,
        (Value::Double(x), Value::Double(y)) => x == y,
        (Value::Str(x), Value::Str(y)) => x == y,
        (Value::Error(x), Value::Error(y)) => x == y,
        (Value::Array(x), Value::Array(y)) => {
            x.len() == y.len() && x.iter().zip(y.iter()).all(|(p, q)| same(p, q))
        }
        _ => false,
    }
}

fn round_trip(v: &Value) -> Value {
    let (kind, text) = encode(v);
    decode(kind.tag(), &text).expect("decodes")
}

#[test]
fn tags_are_stable() {
    assert_eq!(Kind::Null.tag(), 0);
    assert_eq!(Kind::Bool.tag(), 1);
    assert_eq!(Kind::Double.tag(), 2);
    assert_eq!(Kind::Str.tag(), 3);
    assert_eq!(Kind::Array.tag(), 4);
    assert_eq!(Kind::Error.tag(), 5);
    assert_eq!(Kind::from_tag(4), Some(Kind::Array));
    assert_eq!(Kind::from_tag(6), None);
    assert_eq!(Kind::from_tag(-1), None);
}

#[test]
fn scalars_encode_exactly() {
    assert_eq!(encode(&Value::Null), (Kind::Null, s("")));
    assert_eq!(encode(&Value::Bool(true)), (Kind::Bool, s("1")));
    assert_eq!(encode(&Value::Bool(false)), (Kind::Bool, s("0")));
    assert_eq!(encode(&Value::Double(s("2.5"))), (Kind::Double, s("2.5")));
    assert_eq!(encode(&Value::Str(s("a;b\"c"))), (Kind::Str, s("a;b\"c")));
    assert_eq!(encode(&Value::Error(s("boom"))), (Kind::Error, s("boom")));
}

#[test]
fn array_encodes_exactly() {
    let v = Value::Array(vec![Value::Bool(true), Value::Str(s("x")), Value::Null]);
    assert_eq!(encode(&v), (Kind::Array, s("\"'1,1';'3,x';'0,'\"")));
    let nested = Value::Array(vec![Value::Array(vec![Value::Double(s("1"))])]);
    assert_eq!(encode(&nested), (Kind::Array, s("\"'4,\"'2,1'\"'\"")));
}

#[test]
fn scalars_round_trip() {
    for v in [
        Value::Null,
        Value::Bool(true),
        Value::Bool(false),
        Value::Double(s("-0.125")),
        Value::Str(s("it's \"quoted\"; a,b")),
        Value::Str(s("")),
        Value::Error(s("TypeError: x is undefined")),
    ] {
        assert!(same(&round_trip(&v), &v));
    }
}

#[test]
fn nested_arrays_round_trip() {
    let deep = Value::Array(vec![
        Value::Str(s("top")),
        Value::Array(vec![
            Value::Bool(false),
            Value::Array(vec![
                Value::Array(vec![Value::Double(s("3.75")), Value::Str(s("a;b,c\"d"))]),
                Value::Null,
                Value::Array(vec![]),
            ]),
        ]),
        Value::Error(s("e")),
    ]);
    let back = round_trip(&deep);
    assert!(same(&back, &deep));
}

#[test]
fn empty_array_round_trips() {
    let (kind, text) = encode(&Value::Array(vec![]));
    assert_eq!(kind, Kind::Array);
    assert_eq!(text, "\"\"");
    match decode(kind.tag(), &text) {
        Ok(Value::Array(items)) => assert_eq!(items.len(), 0),
        other => panic!("unexpected {:?}", other),
    }
}

#[test]
fn unbalanced_inner_quote_is_malformed() {
    let r = decode(Kind::Array.tag(), "\"'1,true;'0,'");
    assert_eq!(r.err(), Some(CodecError::MalformedEncoding));
}

#[test]
fn embedded_separator_survives() {
    let v = Value::Array(vec![Value::Str(s("a;b")), Value::Str(s("c"))]);
    let (kind, text) = encode(&v);
    match decode(kind.tag(), &text) {
        Ok(Value::Array(items)) => {
            assert_eq!(items.len(), 2);
            match &items[0] {
                Value::Str(t) => assert_eq!(t, "a;b"),
                other => panic!("unexpected {:?}", other),
            }
            match &items[1] {
                Value::Str(t) => assert_eq!(t, "c"),
                other => panic!("unexpected {:?}", other),
            }
        }
        other => panic!("unexpected {:?}", other),
    }
}

#[test]
fn malformed_inputs_are_rejected() {
    let array = Kind::Array.tag();
    for bad in [
        "",
        "\"",
        "\"'1,1'",
        "\"'x,1'\"",
        "\"',1'\"",
        "\"'9,1'\"",
        "\"'99999999999999999999,1'\"",
        "\"'1,2'\"",
        "\"'1,1'\"tail",
        "\"'1,1';\"",
        "'1,1'",
    ] {
        assert_eq!(decode(array, bad).err(), Some(CodecError::MalformedEncoding), "{}", bad);
    }
    assert_eq!(decode(6, "x").err(), Some(CodecError::MalformedEncoding));
    assert_eq!(decode(-1, "").err(), Some(CodecError::MalformedEncoding));
    assert_eq!(decode(Kind::Bool.tag(), "yes").err(), Some(CodecError::MalformedEncoding));
}

#[test]
fn lenient_tags_and_booleans() {
    match decode(Kind::Array.tag(), "\"'01,true';'1,false'\"") {
        Ok(Value::Array(items)) => {
            assert!(same(&items[0], &Value::Bool(true)));
            assert!(same(&items[1], &Value::Bool(false)));
        }
        other => panic!("unexpected {:?}", other),
    }
    assert!(same(&decode(Kind::Null.tag(), "anything").unwrap(), &Value::Null));
}
