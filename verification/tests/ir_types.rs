use r_ressources::arrays::{
    check_array, emit_array, emit_auto_number_array, escape_literal, parse_number_for_type,
};
use r_ressources::ast::{ParsedResource, ResourceKind as AstResourceKind, ScalarValue};
use r_ressources::ir::{
    ArrayType, ResourceKey, ResourceKind as ModelResourceKind, ResourceNode, ResourceOrigin,
    StringType,
};
use r_ressources::types::ResourceValue;

fn strings(items: &[&str]) -> Vec<String> {
    items.iter().map(|s| s.to_string()).collect()
}

fn array_node(element_type: &str, spec: Option<&str>, items: &[&str]) -> ResourceNode {
    ResourceNode {
        kind: ModelResourceKind::Array(element_type.to_string()),
        value: ResourceValue::Array {
            element_type: element_type.to_string(),
            spec: spec.map(|s| s.to_string()),
            items: strings(items),
        },
        origin: ResourceOrigin::new("test.xml".to_string(), false),
        doc: None,
    }
}

fn key(name: &str) -> ResourceKey {
    ResourceKey { namespace: vec![], name: name.to_string() }
}

#[test]
fn test_handler_name() {
    let handler = ArrayType;
    assert_eq!(handler.name(), "array");
}

#[test]
fn test_handler_xml_tags() {
    let handler = ArrayType;
    let tags = handler.xml_tags();
    assert!(tags.contains(&"array"));
}

#[test]
fn string_handler_name_and_tags() {
    let handler = StringType;
    assert_eq!(handler.name(), "string");
    assert!(handler.xml_tags().contains(&"string"));
    assert_eq!(handler.resource_kind(), ModelResourceKind::String);
    assert_eq!(ArrayType.resource_kind(), ModelResourceKind::Array(String::new()));
}

#[test]
fn test_build_node_string_array() {
    let handler = ArrayType;
    let parsed = ParsedResource {
        name: "fruits".to_string(),
        kind: AstResourceKind::Array,
        value: ScalarValue::Array {
            element_type: "string".to_string(),
            spec: None,
            items: vec!["Apple".to_string(), "Banana".to_string()],
        },
        doc: None,
    };
    let origin = ResourceOrigin::new("test.xml".to_string(), false);

    let result = handler.build_node(&parsed, origin).unwrap();
    assert_eq!(result.kind, ModelResourceKind::Array("string".to_string()));
    if let ResourceValue::Array { element_type, spec, items } = result.value {
        assert_eq!(element_type, "string");
        assert_eq!(spec, None);
        assert_eq!(items.len(), 2);
        assert_eq!(items[0], "Apple");
        assert_eq!(items[1], "Banana");
    } else {
        panic!("Expected Array value");
    }
}

#[test]
fn test_build_node_number_array_with_spec() {
    let handler = ArrayType;
    let parsed = ParsedResource {
        name: "big_numbers".to_string(),
        kind: AstResourceKind::Array,
        value: ScalarValue::Array {
            element_type: "number".to_string(),
            spec: Some("bigdecimal".to_string()),
            items: vec!["123.456".to_string(), "789.012".to_string()],
        },
        doc: None,
    };
    let origin = ResourceOrigin::new("test.xml".to_string(), false);

    let result = handler.build_node(&parsed, origin).unwrap();
    if let ResourceValue::Array { element_type, spec, items } = result.value {
        assert_eq!(element_type, "number");
        assert_eq!(spec, Some("bigdecimal".to_string()));
        assert_eq!(items.len(), 2);
    } else {
        panic!("Expected Array value");
    }
}

#[test]
fn build_node_is_for_its_own_kind_only() {
    let text = ParsedResource::string("a", "b");
    let origin = ResourceOrigin::new("test.xml".to_string(), true);
    assert!(ArrayType.build_node(&text, origin.clone()).is_none());
    let node = StringType.build_node(&text, origin.clone()).unwrap();
    assert_eq!(node.kind, ModelResourceKind::String);
    assert!(matches!(node.value, ResourceValue::String(s) if s == "b"));
    assert_eq!(node.origin, origin);
    let flag = ParsedResource::bool("f", true);
    assert!(StringType.build_node(&flag, origin).is_none());
}

#[test]
fn test_emit_rust_string_array() {
    let handler = ArrayType;
    let node = array_node("string", None, &["Apple", "Banana"]);

    let result = handler.emit_rust(&key("fruits"), &node, 4).unwrap().unwrap();
    assert!(result.contains("pub const FRUITS: &[&str]"));
    assert!(result.contains("\"Apple\""));
    assert!(result.contains("\"Banana\""));
    assert_eq!(result, "    pub const FRUITS: &[&str] = &[\"Apple\", \"Banana\"];\n");
}

#[test]
fn test_emit_rust_number_array_i64() {
    let handler = ArrayType;
    let node = array_node("number", None, &["1", "2", "3"]);

    let result = handler.emit_rust(&key("numbers"), &node, 4).unwrap().unwrap();
    assert!(result.contains("pub const NUMBERS: &[i64]"));
    assert!(result.contains("1"));
    assert!(result.contains("2"));
    assert!(result.contains("3"));
    assert_eq!(result, "    pub const NUMBERS: &[i64] = &[1, 2, 3];\n");
}

#[test]
fn test_emit_rust_number_array_bigdecimal() {
    let handler = ArrayType;
    let node = array_node("number", Some("bigdecimal"), &["123.456"]);

    let result = handler.emit_rust(&key("big_numbers"), &node, 4).unwrap().unwrap();
    assert!(result.contains("pub static BIG_NUMBERS"));
    assert!(result.contains("LazyLock"));
    assert!(result.contains("BigDecimal"));
    assert!(result.contains("123.456"));
    assert_eq!(
        result,
        "    static BIG_NUMBERS_ITEM_0: std::sync::LazyLock<r_resources::BigDecimal> = std::sync::LazyLock::new(|| {\n        r_resources::BigDecimal::from_str(\"123.456\").expect(\"valid decimal literal\")\n    });\n    pub static BIG_NUMBERS: &[&std::sync::LazyLock<r_resources::BigDecimal>] = &[&BIG_NUMBERS_ITEM_0];\n"
    );
}

#[test]
fn test_emit_rust_bool_array() {
    let handler = ArrayType;
    let node = array_node("bool", None, &["true", "false"]);

    let result = handler.emit_rust(&key("flags"), &node, 4).unwrap().unwrap();
    assert!(result.contains("pub const FLAGS: &[bool]"));
    assert!(result.contains("true"));
    assert!(result.contains("false"));
}

#[test]
fn test_emit_rust_color_array() {
    let handler = ArrayType;
    let node = array_node("color", None, &["#FF0000"]);

    let result = handler.emit_rust(&key("colors"), &node, 4).unwrap().unwrap();
    assert!(result.contains("pub const COLORS: &[&str]"));
    assert!(result.contains("#FF0000"));
}

#[test]
fn invalid_bool_item_is_false_behind_a_comment() {
    let node = array_node("bool", None, &[" true ", "maybe"]);
    let result = ArrayType.emit_rust(&key("flags"), &node, 0).unwrap().unwrap();
    assert_eq!(result, "pub const FLAGS: &[bool] = &[true, /* invalid: maybe */false];\n");
}

#[test]
fn unknown_element_type_emits_nothing() {
    let node = array_node("widget", None, &["x"]);
    assert_eq!(ArrayType.emit_rust(&key("w"), &node, 0), Ok(None));
    let string_node = ResourceNode {
        kind: ModelResourceKind::String,
        value: ResourceValue::String("x".to_string()),
        origin: ResourceOrigin::new("t.xml".to_string(), false),
        doc: None,
    };
    assert_eq!(ArrayType.emit_rust(&key("w"), &string_node, 0), Ok(None));
}

#[test]
fn typed_number_array_uses_canonical_items() {
    let node = array_node("number", Some("u8"), &[" 1 ", "+2", "255"]);
    let result = ArrayType.emit_rust(&key("small"), &node, 0).unwrap().unwrap();
    assert_eq!(result, "pub const SMALL: &[u8] = &[1, 2, 255];\n");
    let floats = array_node("number", Some("f32"), &["1", "2.50"]);
    assert_eq!(
        ArrayType.emit_rust(&key("f"), &floats, 0),
        Ok(Some("pub const F: &[f32] = &[1.0, 2.5];\n".to_string()))
    );
}

#[test]
fn item_that_overflows_its_subtype_is_rejected() {
    let node = array_node("number", Some("i8"), &["300"]);
    assert_eq!(
        ArrayType.emit_rust(&key("levels"), &node, 4),
        Err("'300' does not fit in i8".to_string())
    );
    let second = array_node("number", Some("u8"), &["1", "x", "300"]);
    assert_eq!(
        ArrayType.emit_rust(&key("levels"), &second, 4),
        Err("'x' does not fit in u8".to_string())
    );
    let floats = array_node("number", Some("f64"), &["1.5", "1.5.5"]);
    assert_eq!(
        ArrayType.emit_rust(&key("f"), &floats, 4),
        Err("'1.5.5' is not a valid f64 literal".to_string())
    );
    let decimals = array_node("number", Some("bigdecimal"), &["1.5", "one"]);
    assert_eq!(
        ArrayType.emit_rust(&key("d"), &decimals, 4),
        Err("Invalid number literal 'one'".to_string())
    );
}

#[test]
fn auto_number_array_picks_float_for_fractions() {
    let result = emit_auto_number_array("  ", "PRICES".to_string(), &strings(&["9.99", " 19 "]), "");
    assert_eq!(result, Ok("  pub const PRICES: &[f64] = &[9.99, 19.0];\n".to_string()));
}

#[test]
fn auto_number_array_writes_integers_canonically() {
    assert_eq!(
        emit_auto_number_array("", "N".to_string(), &strings(&[" +1 ", "007", "-0"]), ""),
        Ok("pub const N: &[i64] = &[1, 7, 0];\n".to_string())
    );
}

#[test]
fn auto_number_array_rejects_what_is_no_number() {
    assert_eq!(
        emit_auto_number_array("", "P".to_string(), &strings(&["9.99", "x"]), ""),
        Err("Invalid number literal 'x'".to_string())
    );
    assert_eq!(
        emit_auto_number_array("", "P".to_string(), &strings(&["1", "two"]), ""),
        Err("Invalid number literal 'two'".to_string())
    );
}

#[test]
fn auto_number_array_falls_back_to_arbitrary_precision() {
    let too_big = emit_auto_number_array("", "N".to_string(), &strings(&["1", "99999999999999999999"]), "").unwrap();
    assert!(too_big.contains("static N_ITEM_0"));
    assert!(too_big.contains("static N_ITEM_1"));
    assert!(too_big.ends_with("pub static N: &[&std::sync::LazyLock<r_resources::BigDecimal>] = &[&N_ITEM_0, &N_ITEM_1];\n"));
    let too_precise = emit_auto_number_array("", "P".to_string(), &strings(&["0.1234567890123456"]), "").unwrap();
    assert!(too_precise.contains("from_str(\"0.1234567890123456\")"));
}

#[test]
fn empty_number_array_is_an_integer_slice() {
    assert_eq!(
        emit_auto_number_array("", "E".to_string(), &vec![], ""),
        Ok("pub const E: &[i64] = &[];\n".to_string())
    );
}

#[test]
fn number_for_type() {
    assert_eq!(parse_number_for_type(" 12 ", Some("i8")), Ok("12".to_string()));
    assert_eq!(parse_number_for_type("1200", Some("i8")), Err("'1200' does not fit in i8".to_string()));
    assert_eq!(parse_number_for_type("1", Some("f64")), Ok("1.0".to_string()));
    assert_eq!(parse_number_for_type(" x ", Some("other")), Ok("x".to_string()));
    assert_eq!(parse_number_for_type(" x ", None), Ok("x".to_string()));
}

#[test]
fn literal_escaping() {
    assert_eq!(escape_literal(r#"a"b\c"#), r#"a\"b\\c"#);
    assert_eq!(escape_literal("plain"), "plain");
}

#[test]
fn array_with_documentation() {
    let mut node = array_node("string", None, &["a"]);
    node.doc = Some("First line.\n  Second line.  ".to_string());
    let result = ArrayType.emit_rust(&key("docd"), &node, 4).unwrap().unwrap();
    assert_eq!(
        result,
        "    /// First line.\n    /// Second line.\n    pub const DOCD: &[&str] = &[\"a\"];\n"
    );
}

#[test]
fn string_node_with_documentation() {
    let node = ResourceNode {
        kind: ModelResourceKind::String,
        value: ResourceValue::String("My \"App\"".to_string()),
        origin: ResourceOrigin::new("t.xml".to_string(), false),
        doc: Some("The name.".to_string()),
    };
    assert_eq!(
        StringType.emit_rust(&key("app-name"), &node, 2),
        Some("  /// The name.\n  pub const APP_NAME: &str = \"My \\\"App\\\"\";\n".to_string())
    );
    let other = array_node("string", None, &[]);
    assert!(StringType.emit_rust(&key("x"), &other, 0).is_none());
}

#[test]
fn emit_array_by_parts() {
    assert_eq!(
        emit_array("string", &None, &strings(&["x"]), "/// d\n", "", "A"),
        Ok(Some("/// d\npub const A: &[&str] = &[\"x\"];\n".to_string()))
    );
    assert_eq!(emit_array("other", &None, &strings(&["x"]), "", "", "A"), Ok(None));
    assert_eq!(check_array("number", &Some("i8".to_string()), &strings(&["1", "200"])), Some("'200' does not fit in i8".to_string()));
    assert_eq!(check_array("number", &None, &strings(&["1", "200"])), None);
}
