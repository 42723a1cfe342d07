use canon::keyed::find_key;
use canon::value::{push_debug_list, push_entry_debug, push_string_debug, Number, Value};

fn text(s: &str) -> Value {
    Value::String(s.to_string())
}

fn shown(v: &Value) -> String {
    let mut out = String::new();
    v.push_debug(&mut out);
    out
}

#[test]
fn values_show_their_kind() {
    assert_eq!(shown(&Value::Null), "Null");
    assert_eq!(shown(&Value::Bool(true)), "Bool(true)");
    assert_eq!(shown(&Value::Bool(false)), "Bool(false)");
    assert_eq!(shown(&Value::Number(Number::PosInt(0))), "Number(0)");
    assert_eq!(
        shown(&Value::Number(Number::PosInt(u64::MAX))),
        "Number(18446744073709551615)"
    );
    assert_eq!(shown(&Value::Number(Number::NegInt(-1))), "Number(-1)");
    assert_eq!(
        shown(&Value::Number(Number::NegInt(i64::MIN))),
        "Number(-9223372036854775808)"
    );
    assert_eq!(shown(&Value::Number(Number::NegInt(5))), "Number(5)");
    assert_eq!(
        shown(&Value::Number(Number::Decimal("3.25".to_string()))),
        "Number(3.25)"
    );
    assert_eq!(shown(&text("a")), "String(\"a\")");
    assert_eq!(shown(&text("")), "String(\"\")");
    assert_eq!(
        shown(&text("line\nbreak \"quoted\" back\\slash tab\t")),
        "String(\"line\\nbreak \\\"quoted\\\" back\\\\slash tab\\t\")"
    );
    assert_eq!(shown(&Value::Sequence(vec![])), "Sequence []");
    assert_eq!(
        shown(&Value::Sequence(vec![Value::Null, text("a"), Value::Sequence(vec![Value::Null])])),
        "Sequence [Null, String(\"a\"), Sequence [Null]]"
    );
    assert_eq!(shown(&Value::Mapping(vec![])), "Mapping {}");
    assert_eq!(
        shown(&Value::Mapping(vec![
            ("k".to_string(), text("v")),
            ("n".to_string(), Value::Mapping(vec![("x".to_string(), Value::Bool(true))])),
        ])),
        "Mapping {\"k\": String(\"v\"), \"n\": Mapping {\"x\": Bool(true)}}"
    );
}

#[test]
fn showing_adds_to_what_is_there() {
    let mut out = "seen: ".to_string();
    Value::Null.push_debug(&mut out);
    push_debug_list(&mut out, &vec![Value::Bool(true), Value::Null]);
    push_string_debug(&mut out, "\"q\"");
    push_entry_debug(&mut out, "\"k\"", "Null");
    assert_eq!(out, "seen: Null[Bool(true), Null]String(\"q\")\"k\": Null");
}

#[test]
fn equal_values_are_equal_in_every_part() {
    let a = Value::Mapping(vec![
        ("x".to_string(), Value::Sequence(vec![text("1"), Value::Number(Number::PosInt(1))])),
        ("y".to_string(), Value::Null),
    ]);
    let b = Value::Mapping(vec![
        ("y".to_string(), Value::Null),
        ("x".to_string(), Value::Sequence(vec![text("1"), Value::Number(Number::PosInt(1))])),
    ]);
    let c = Value::Mapping(vec![
        ("x".to_string(), Value::Sequence(vec![Value::Number(Number::PosInt(1)), text("1")])),
        ("y".to_string(), Value::Null),
    ]);
    assert!(a.same(&a));
    assert!(a.same(&b) && b.same(&a));
    assert!(!a.same(&c));
    assert!(!Value::Null.same(&Value::Bool(false)));
    assert!(!text("1").same(&Value::Number(Number::PosInt(1))));
    assert!(!Value::Number(Number::PosInt(1)).same(&Value::Number(Number::NegInt(1))));
    assert!(Value::Number(Number::Decimal("1.0".to_string()))
        .same(&Value::Number(Number::Decimal("1.0".to_string()))));
    assert!(!Value::Number(Number::Decimal("1.0".to_string()))
        .same(&Value::Number(Number::Decimal("1.00".to_string()))));
    assert!(!Value::Sequence(vec![]).same(&Value::Mapping(vec![])));
    assert!(!Value::Sequence(vec![Value::Null]).same(&Value::Sequence(vec![])));
}

#[test]
fn values_are_looked_for_among_values() {
    let values = vec![Value::Null, text("a"), Value::Sequence(vec![text("b")])];
    assert!(Value::Null.is_among(&values));
    assert!(text("a").is_among(&values));
    assert!(Value::Sequence(vec![text("b")]).is_among(&values));
    assert!(!text("b").is_among(&values));
    assert!(!Value::Null.is_among(&Vec::new()));
}

#[test]
fn first_entry_of_a_name_counts() {
    let entries = vec![
        ("a".to_string(), 1),
        ("b".to_string(), 2),
        ("a".to_string(), 3),
    ];
    assert_eq!(find_key(&entries, &"a".to_string()), 0);
    assert_eq!(find_key(&entries, &"b".to_string()), 1);
    assert_eq!(find_key(&entries, &"c".to_string()), 3);
    let none: Vec<(String, u8)> = Vec::new();
    assert_eq!(find_key(&none, &"a".to_string()), 0);
}

#[test]
fn copies_are_equal_to_what_they_copy() {
    let value = Value::Mapping(vec![
        (
            "list".to_string(),
            Value::Sequence(vec![
                Value::Null,
                Value::Bool(true),
                Value::Number(Number::NegInt(-4)),
                Value::Number(Number::Decimal("0.5".to_string())),
                text("x"),
            ]),
        ),
        ("inner".to_string(), Value::Mapping(vec![("k".to_string(), text("v"))])),
    ]);
    let copy = value.clone();
    assert!(copy.same(&value));
    assert_eq!(shown(&copy), shown(&value));
    assert_eq!(
        shown(&copy),
        "Mapping {\"list\": Sequence [Null, Bool(true), Number(-4), Number(0.5), String(\"x\")], \
         \"inner\": Mapping {\"k\": String(\"v\")}}"
    );
}
