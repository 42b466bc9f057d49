use cddl::{
    Bound, CDDL, Error, Expected, Group, GroupChoice, GroupEntry, MemberKey, Member, Number, Occur,
    Rule, SchemaError, Subject, Type, Type1, Type2, Value, is_type_json_prelude,
};

fn ty(alternatives: Vec<Type2>) -> Type {
    Type { choices: alternatives.into_iter().map(|t| Type1 { type2: t }).collect() }
}

fn name(n: &str) -> Type2 {
    Type2::Typename(n.to_string())
}

fn text(t: &str) -> Type2 {
    Type2::TextValue(t.to_string())
}

fn type_rule(n: &str, t: Type) -> Rule {
    Rule::Type { name: n.to_string(), value: t }
}

fn group(entries: Vec<GroupEntry>) -> Group {
    Group { choices: vec![GroupChoice { entries }] }
}

fn keyed(key: &str, occur: Option<Occur>, t: Type) -> GroupEntry {
    GroupEntry::ValueMemberKey {
        occur,
        member_key: Some(MemberKey::Bareword(key.to_string())),
        entry_type: t,
    }
}

fn string(s: &str) -> Value {
    Value::String(s.to_string())
}

fn object(members: Vec<(&str, Value)>) -> Value {
    Value::Object(members.into_iter().map(|(k, v)| Member { key: k.to_string(), value: v }).collect())
}

fn float(f: f64) -> Value {
    Value::Number(Number::Float(f.to_bits()))
}

fn uint(u: u64) -> Value {
    Value::Number(Number::PosInt(u))
}

fn numeric_schema() -> CDDL {
    CDDL {
        rules: vec![type_rule(
            "mynumericrule",
            ty(vec![Type2::UintValue(3), Type2::FloatValue(1.5f64.to_bits()), Type2::UintValue(10)]),
        )],
    }
}

fn object_schema() -> CDDL {
    let array_entry = GroupEntry::TypeGroupname {
        occur: Some(Occur::Exact(Some(1), None)),
        name: "arraytype".to_string(),
    };
    CDDL {
        rules: vec![
            type_rule(
                "myobject",
                ty(vec![Type2::InlineMap(group(vec![
                    keyed("mykey", None, ty(vec![name("tstr")])),
                    keyed("myarray", None, ty(vec![Type2::InlineArray(group(vec![array_entry]))])),
                ]))]),
            ),
            type_rule(
                "arraytype",
                ty(vec![Type2::InlineMap(group(vec![keyed("myotherkey", None, ty(vec![name("tstr")]))]))]),
            ),
        ],
    }
}

fn contains_occurrence(e: &Error) -> bool {
    match e {
        Error::Occurrence(_) => true,
        Error::Multi(es) => es.iter().any(contains_occurrence),
        _ => false,
    }
}

#[test]
fn validate_json_null() {
    let schema = CDDL { rules: vec![type_rule("mynullrule", ty(vec![name("null")]))] };
    let value = Value::Null;
    assert!(schema.validate(&value).is_ok());
}

#[test]
fn validate_json_bool() {
    let schema = CDDL { rules: vec![type_rule("myboolrule", ty(vec![name("true")]))] };
    let value = Value::Bool(true);
    assert!(schema.validate(&value).is_ok());
}

#[test]
fn validate_json_number() {
    let schema = numeric_schema();
    for value in [uint(3), float(1.5), uint(10)] {
        assert!(schema.validate(&value).is_ok());
    }
}

#[test]
fn validate_json_string() {
    let schema = CDDL { rules: vec![type_rule("mystringrule", ty(vec![text("mystring")]))] };
    let value = string("mystring");
    assert!(schema.validate(&value).is_ok());
}

#[test]
fn validate_json_object() {
    let schema = object_schema();
    let value = object(vec![
        ("mykey", string("myvalue")),
        ("myarray", Value::Array(vec![object(vec![("myotherkey", string("myothervalue"))])])),
    ]);
    assert!(schema.validate(&value).is_ok());
}

#[test]
fn validate_json_array() {
    let schema = CDDL {
        rules: vec![
            type_rule(
                "Geography",
                ty(vec![Type2::InlineArray(group(vec![
                    keyed("city", None, ty(vec![name("tstr")])),
                    keyed("gpsCoordinates", None, ty(vec![name("GpsCoordinates")])),
                ]))]),
            ),
            type_rule(
                "GpsCoordinates",
                ty(vec![Type2::InlineMap(group(vec![
                    keyed("longitude", None, ty(vec![name("uint")])),
                    keyed("latitude", None, ty(vec![name("uint")])),
                ]))]),
            ),
        ],
    };
    let value = Value::Array(vec![
        string("washington"),
        object(vec![("longitude", uint(1234)), ("latitude", uint(3947))]),
    ]);
    assert!(schema.validate(&value).is_ok());
}

#[test]
fn bool_literal_rejects_other_value() {
    let schema = CDDL { rules: vec![type_rule("myboolrule", ty(vec![name("true")]))] };
    let value = Value::Bool(false);
    match schema.validate(&value) {
        Err(Error::Multi(es)) => {
            assert_eq!(es.len(), 1);
            assert!(matches!(es[0], Error::Mismatch(_)));
        }
        _ => panic!("expected a mismatch"),
    }
}

#[test]
fn number_outside_choices_gives_three_mismatches() {
    let schema = numeric_schema();
    let value = uint(4);
    match schema.validate(&value) {
        Err(Error::Multi(es)) => {
            assert_eq!(es.len(), 3);
            assert!(es.iter().all(|e| matches!(e, Error::Mismatch(_))));
        }
        _ => panic!("expected an aggregate"),
    }
}

#[test]
fn float_literal_matches_zero_of_either_sign() {
    let schema = CDDL { rules: vec![type_rule("z", ty(vec![Type2::FloatValue(0.0f64.to_bits())]))] };
    assert!(schema.validate(&float(-0.0)).is_ok());
    assert!(schema.validate(&float(0.5)).is_err());
    assert!(schema.validate(&uint(0)).is_ok());
}

#[test]
fn float_literal_matches_integer_of_same_value() {
    let check = |lit: f64, v: Value| {
        CDDL { rules: vec![type_rule("f", ty(vec![Type2::FloatValue(lit.to_bits())]))] }.validate(&v).is_ok()
    };
    assert!(check(3.0, uint(3)));
    assert!(check(-2.0, Value::Number(Number::NegInt(-2))));
    assert!(check(1152921504606846976.0, uint(1u64 << 60)));
    assert!(check(-9223372036854775808.0, Value::Number(Number::NegInt(i64::MIN))));
    assert!(!check(1.5, uint(1)));
    assert!(!check(3.0, uint(4)));
    assert!(!check(1e30, uint(u64::MAX)));
    assert!(!check(f64::INFINITY, uint(u64::MAX)));
    assert!(!check(f64::NAN, float(f64::NAN)));
    assert!(check(2.5, float(2.5)));
}

#[test]
fn text_literal_rejects_other_string() {
    let schema = CDDL { rules: vec![type_rule("s", ty(vec![text("mystring")]))] };
    assert!(schema.validate(&string("other")).is_err());
    assert!(schema.validate(&uint(1)).is_err());
}

#[test]
fn empty_array_fails_one_or_more_check() {
    let schema = object_schema();
    let value = object(vec![("mykey", string("myvalue")), ("myarray", Value::Array(vec![]))]);
    let r = schema.validate(&value);
    assert!(r.is_err());
    assert!(contains_occurrence(&r.unwrap_err()));
}

#[test]
fn missing_required_bareword_key() {
    let schema = CDDL {
        rules: vec![type_rule(
            "o",
            ty(vec![Type2::InlineMap(group(vec![keyed("name", None, ty(vec![name("tstr")]))]))]),
        )],
    };
    let value = object(vec![("other", string("x"))]);
    let r = schema.validate(&value);
    // type choice -> group choice -> entries of the object
    let Err(Error::Multi(types)) = r else { panic!("expected an aggregate") };
    let Error::Multi(groups) = &types[0] else { panic!("expected an aggregate") };
    let Error::Multi(entries) = &groups[0] else { panic!("expected an aggregate") };
    assert_eq!(entries.len(), 1);
    match &entries[0] {
        Error::Mismatch(m) => {
            assert!(matches!(m.expected_memberkey, Some(MemberKey::Bareword(k)) if k == "name"));
            assert!(m.actual_memberkey.is_none());
            assert!(matches!(m.expected_value, Expected::Keyed(MemberKey::Bareword(_), _)));
        }
        _ => panic!("expected a mismatch"),
    }
}

#[test]
fn optional_bareword_key_may_be_absent() {
    let schema = CDDL {
        rules: vec![type_rule(
            "o",
            ty(vec![Type2::InlineMap(group(vec![keyed(
                "name",
                Some(Occur::Optional),
                ty(vec![name("tstr")]),
            )]))]),
        )],
    };
    assert!(schema.validate(&object(vec![])).is_ok());
    assert!(schema.validate(&object(vec![("name", uint(1))])).is_err());
}

#[test]
fn wildcard_key_accepts_any_member() {
    let entry = GroupEntry::ValueMemberKey {
        occur: Some(Occur::ZeroOrMore),
        member_key: Some(MemberKey::Type1(Type1 { type2: name("tstr") })),
        entry_type: ty(vec![name("any")]),
    };
    let schema = CDDL { rules: vec![type_rule("o", ty(vec![Type2::InlineMap(group(vec![entry]))]))] };
    assert!(schema.validate(&object(vec![("a", uint(1)), ("b", Value::Bool(true))])).is_ok());
}

#[test]
fn literal_key_looks_up_member() {
    let entry = GroupEntry::ValueMemberKey {
        occur: None,
        member_key: Some(MemberKey::Type1(Type1 { type2: text("my-key") })),
        entry_type: ty(vec![name("tstr")]),
    };
    let schema = CDDL { rules: vec![type_rule("o", ty(vec![Type2::InlineMap(group(vec![entry]))]))] };
    assert!(schema.validate(&object(vec![("my-key", string("v"))])).is_ok());
    assert!(schema.validate(&object(vec![("my-key", uint(1))])).is_err());
    assert!(schema.validate(&object(vec![("other", string("v"))])).is_err());
}

#[test]
fn exact_range_boundary() {
    let mk = |n: usize| {
        let entry = GroupEntry::TypeGroupname { occur: Some(Occur::Exact(Some(2), Some(2))), name: "item".to_string() };
        let schema = CDDL {
            rules: vec![
                type_rule("a", ty(vec![Type2::InlineArray(group(vec![entry]))])),
                type_rule("item", ty(vec![name("uint")])),
            ],
        };
        let value = Value::Array((0..n as u64).map(uint).collect());
        match schema.validate(&value) {
            Ok(()) => None,
            Err(Error::Multi(es)) => match &es[0] {
                Error::Multi(gs) => match &gs[0] {
                    Error::Occurrence(o) => {
                        assert!(matches!(o.group, Subject::Name(s) if s == "item"));
                        Some((matches!(o.bound, Bound::Exactly(2)), o.found))
                    }
                    _ => panic!("expected an occurrence failure"),
                },
                _ => panic!("expected an aggregate"),
            },
            Err(_) => panic!("expected an aggregate"),
        }
    };
    assert!(mk(2).is_none());
    assert_eq!(mk(1).map(|(_, f)| f), Some(1));
    assert_eq!(mk(3).map(|(_, f)| f), Some(3));
    assert_eq!(mk(1), Some((true, 1)));
    assert_eq!(mk(3), Some((true, 3)));
}

#[test]
fn distinct_bounds_report_found_length() {
    let entry = GroupEntry::TypeGroupname { occur: Some(Occur::Exact(Some(2), Some(3))), name: "item".to_string() };
    let schema = CDDL {
        rules: vec![
            type_rule("a", ty(vec![Type2::InlineArray(group(vec![entry]))])),
            type_rule("item", ty(vec![name("uint")])),
        ],
    };
    for (n, ok) in [(1u64, false), (2, true), (3, true), (4, false)] {
        let value = Value::Array((0..n).map(uint).collect());
        assert_eq!(schema.validate(&value).is_ok(), ok);
    }
}

#[test]
fn later_choice_success_hides_earlier_failures() {
    let schema = CDDL { rules: vec![type_rule("r", ty(vec![name("uint"), text("a"), name("tstr")]))] };
    assert!(matches!(schema.validate(&string("zzz")), Ok(())));
}

#[test]
fn validation_is_deterministic() {
    let schema = numeric_schema();
    let value = uint(4);
    let a = format!("{:?}", schema.validate(&value).map_err(|e| describe(&e)));
    let b = format!("{:?}", schema.validate(&value).map_err(|e| describe(&e)));
    assert_eq!(a, b);
}

fn describe(e: &Error) -> String {
    match e {
        Error::Mismatch(m) => format!("mismatch({})", matches!(m.expected_value, Expected::Type2(_))),
        Error::Schema(_) => "schema".to_string(),
        Error::Occurrence(o) => format!("occurrence({})", o.found),
        Error::Multi(es) => format!("[{}]", es.iter().map(describe).collect::<Vec<_>>().join(",")),
    }
}

#[test]
fn numeric_types() {
    let check = |t: &str, v: Value| {
        CDDL { rules: vec![type_rule("n", ty(vec![name(t)]))] }.validate(&v).is_ok()
    };
    assert!(check("uint", uint(5)));
    assert!(!check("uint", Value::Number(Number::NegInt(-5))));
    assert!(check("nint", Value::Number(Number::NegInt(-5))));
    assert!(!check("nint", uint(0)));
    assert!(check("int", Value::Number(Number::from_i64(-7))));
    assert!(!check("int", uint(u64::MAX)));
    assert!(!check("int", float(1.5)));
    assert!(check("number", float(1.5)));
    assert!(check("float32", uint(2)));
    assert!(!check("float64", uint(2)));
    assert!(!check("tstr", uint(2)));
    assert!(check("bool", Value::Bool(false)));
    assert!(check("nil", Value::Null));
    assert!(!check("tstr", Value::Null));
    assert!(!check("uint", string("1")));
}

#[test]
fn unknown_rule_is_schema_error() {
    let schema = CDDL { rules: vec![type_rule("r", ty(vec![name("missing")]))] };
    let value = Value::Array(vec![]);
    assert!(matches!(
        schema.validate(&value),
        Err(Error::Schema(SchemaError::UnknownRule(n))) if n.as_str() == "missing"
    ));
}

#[test]
fn unsupported_construct_is_schema_error() {
    let schema = CDDL { rules: vec![type_rule("r", ty(vec![Type2::Other("1..5".to_string())]))] };
    assert!(matches!(schema.validate(&uint(2)), Err(Error::Schema(SchemaError::Unsupported(_, _)))));
}

#[test]
fn cyclic_rules_exhaust_depth() {
    let schema = CDDL { rules: vec![type_rule("a", ty(vec![name("b")])), type_rule("b", ty(vec![name("a")]))] };
    let value = Value::Array(vec![]);
    let r = schema.validate_with_depth(&value, 8);
    assert!(matches!(r, Err(Error::Schema(SchemaError::DepthExceeded))));
}

#[test]
fn no_type_rule_accepts_everything() {
    let schema = CDDL {
        rules: vec![Rule::Group { name: "g".to_string(), entry: keyed("k", None, ty(vec![name("tstr")])) }],
    };
    assert!(schema.validate(&uint(1)).is_ok());
    assert!(CDDL { rules: vec![] }.validate(&Value::Null).is_ok());
}

#[test]
fn prelude_names() {
    assert!(is_type_json_prelude("tstr"));
    assert!(is_type_json_prelude("float16-32"));
    assert!(!is_type_json_prelude("int"));
    assert!(!is_type_json_prelude("mytype"));
}

#[test]
fn schema_error_ends_choice_search() {
    let schema = CDDL { rules: vec![type_rule("r", ty(vec![name("missing"), name("tstr")]))] };
    assert!(matches!(schema.validate(&string("x")), Err(Error::Schema(SchemaError::UnknownRule(_)))));
    let schema = CDDL { rules: vec![type_rule("r", ty(vec![name("tstr"), name("missing")]))] };
    assert!(schema.validate(&string("x")).is_ok());
}

#[test]
fn cyclic_rules_stop_at_default_depth() {
    let schema = CDDL { rules: vec![type_rule("a", ty(vec![name("b")])), type_rule("b", ty(vec![name("a")]))] };
    let value = object(vec![("k", Value::Null)]);
    assert!(matches!(schema.validate(&value), Err(Error::Schema(SchemaError::DepthExceeded))));
}

#[test]
fn float_literal_matches_within_epsilon() {
    let check = |lit: f64, v: Value| {
        CDDL { rules: vec![type_rule("f", ty(vec![Type2::FloatValue(lit.to_bits())]))] }.validate(&v).is_ok()
    };
    let next = f64::from_bits(0.1f64.to_bits() + 1);
    assert!(check(0.1, float(next)));
    assert!(check(0.0, float(1e-17)));
    assert!(check(1e-17, uint(0)));
    assert!(!check(f64::EPSILON, uint(0)));
    assert!(check(f64::EPSILON, float(f64::EPSILON / 2.0)));
    assert!(!check(1.0, float(1.0 + f64::EPSILON)));
    assert!(!check(9007199254740992.0, uint(9007199254740993)));
    assert!(!check(0.1, float(0.2)));
    assert!(!check(-0.1, float(0.1)));
}

#[test]
fn string_against_int_is_mismatch() {
    let schema = CDDL { rules: vec![type_rule("r", ty(vec![name("int")]))] };
    match schema.validate(&string("x")) {
        Err(Error::Multi(es)) => assert!(matches!(&es[0], Error::Mismatch(_))),
        _ => panic!("expected a mismatch"),
    }
}

#[test]
fn non_negative_negint_is_uint() {
    let schema = CDDL { rules: vec![type_rule("r", ty(vec![name("uint")]))] };
    assert!(schema.validate(&Value::Number(Number::NegInt(5))).is_ok());
    assert!(schema.validate(&Value::Number(Number::NegInt(-5))).is_err());
}
