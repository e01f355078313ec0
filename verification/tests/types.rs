use r_ressources::table::{find_item, ResourceTable};
use r_ressources::types::{
    canonicalize_resource_type, is_pure_reference, parse_interpolated_parts, InterpolationPart,
    NumberType, ResourceValue,
};

fn text(s: &str) -> InterpolationPart {
    InterpolationPart::Text(s.to_string())
}

fn reference(kind: &str, key: &str) -> InterpolationPart {
    InterpolationPart::Reference { resource_type: kind.to_string(), key: key.to_string() }
}

#[test]
fn number_type_names() {
    assert_eq!(NumberType::I8.as_str(), "i8");
    assert_eq!(NumberType::U64.as_str(), "u64");
    assert_eq!(NumberType::F32.as_str(), "f32");
    assert_eq!(NumberType::F64.as_str(), "f64");
}

#[test]
fn int_and_float_are_numbers() {
    assert_eq!(canonicalize_resource_type("int"), "number");
    assert_eq!(canonicalize_resource_type("float"), "number");
    assert_eq!(canonicalize_resource_type("number"), "number");
    assert_eq!(canonicalize_resource_type("string"), "string");
}

#[test]
fn pure_reference_is_recognised() {
    assert_eq!(
        is_pure_reference("@string/app_name"),
        Some(("string".to_string(), "app_name".to_string()))
    );
    assert_eq!(is_pure_reference("@int/max"), Some(("number".to_string(), "max".to_string())));
    assert_eq!(
        is_pure_reference("@color/ui/primary"),
        Some(("color".to_string(), "ui/primary".to_string()))
    );
}

#[test]
fn text_around_or_inside_makes_it_no_pure_reference() {
    assert_eq!(is_pure_reference("see @string/app_name"), None);
    assert_eq!(is_pure_reference("@string/app name"), None);
    assert_eq!(is_pure_reference("@string/a@string/b"), None);
    assert_eq!(is_pure_reference("@string"), None);
    assert_eq!(is_pure_reference("@string/"), None);
    assert_eq!(is_pure_reference("@/key"), None);
    assert_eq!(is_pure_reference(""), None);
    assert_eq!(is_pure_reference("plain"), None);
}

#[test]
fn text_without_at_has_no_parts() {
    assert!(parse_interpolated_parts("Hello world").is_none());
    assert!(parse_interpolated_parts("").is_none());
}

#[test]
fn interpolated_parts_in_order() {
    let parts = parse_interpolated_parts("Welcome to @string/app_name!").unwrap();
    assert_eq!(parts, vec![text("Welcome to "), reference("string", "app_name"), text("!")]);
}

#[test]
fn two_references_and_a_trailing_slash() {
    let parts = parse_interpolated_parts("@string/base_url/@string/api_version").unwrap();
    assert_eq!(
        parts,
        vec![reference("string", "base_url"), text("/"), reference("string", "api_version")]
    );
}

#[test]
fn lone_at_is_text() {
    let parts = parse_interpolated_parts("mail me @ home").unwrap();
    assert_eq!(parts, vec![text("mail me "), text("@"), text(" home")]);
}

#[test]
fn kind_of_embedded_reference_is_canonical() {
    let parts = parse_interpolated_parts("max: @int/max_retries.").unwrap();
    assert_eq!(parts, vec![text("max: "), reference("number", "max_retries"), text(".")]);
}

#[test]
fn parse_string_value_picks_the_form() {
    assert!(matches!(ResourceValue::parse_string_value("plain"), ResourceValue::String(s) if s == "plain"));
    assert!(matches!(
        ResourceValue::parse_string_value("@string/x"),
        ResourceValue::Reference { resource_type, key } if resource_type == "string" && key == "x"
    ));
    assert!(matches!(
        ResourceValue::parse_string_value("a @string/x"),
        ResourceValue::InterpolatedString(parts) if parts.len() == 2
    ));
}

#[test]
fn kind_names_of_values() {
    assert_eq!(ResourceValue::String("x".to_string()).kind_name(), "string");
    assert_eq!(ResourceValue::Bool(true).kind_name(), "bool");
    assert_eq!(ResourceValue::Color("#fff".to_string()).kind_name(), "color");
    assert_eq!(ResourceValue::Url("u".to_string()).kind_name(), "url");
    assert_eq!(ResourceValue::Dimension("1dp".to_string()).kind_name(), "dimension");
    assert_eq!(
        ResourceValue::Reference { resource_type: "color".to_string(), key: "k".to_string() }
            .kind_name(),
        "color"
    );
}

#[test]
fn table_keeps_first_seen_order_and_duplicates() {
    let mut t = ResourceTable::new();
    t.push("string", "a".to_string(), ResourceValue::String("1".to_string()));
    t.push("bool", "f".to_string(), ResourceValue::Bool(true));
    t.push("string", "a".to_string(), ResourceValue::String("2".to_string()));
    assert_eq!(t.groups.len(), 2);
    assert_eq!(t.groups[0].kind, "string");
    assert_eq!(t.groups[1].kind, "bool");
    assert_eq!(t.groups[0].items.len(), 2);
    assert_eq!(t.position("bool"), Some(1));
    assert_eq!(t.position("color"), None);
    assert!(t.get("color").is_none());
    assert_eq!(find_item(t.get("string").unwrap(), "a"), Some(0));
    assert!(matches!(t.find("string", "a"), Some(ResourceValue::String(s)) if s == "1"));
    assert!(t.find("string", "b").is_none());
    assert!(t.find("number", "a").is_none());
}

#[test]
fn at_sign_without_kind_and_key_is_text() {
    let parts = parse_interpolated_parts("mail me @ home/office or a@b.c/d").unwrap();
    assert_eq!(
        parts,
        vec![text("mail me "), text("@"), text(" home/office or a"), text("@"), text("b.c/d")]
    );
    let parts = parse_interpolated_parts("see @string/ and @/x").unwrap();
    assert_eq!(parts, vec![text("see "), text("@"), text("string/ and "), text("@"), text("/x")]);
}
