use r_ressources::references::{resolve_reference_path, validate_references};
use r_ressources::resolve::{
    extract_string_from_value, resolve_interpolation_parts, resolve_string_value,
};
use r_ressources::table::ResourceTable;
use r_ressources::types::{InterpolationPart, ResourceValue};

fn reference(kind: &str, key: &str) -> ResourceValue {
    ResourceValue::Reference { resource_type: kind.to_string(), key: key.to_string() }
}

fn sample() -> ResourceTable {
    let mut t = ResourceTable::new();
    t.push("string", "base_url".to_string(), ResourceValue::String("https://api.example.com".to_string()));
    t.push("string", "api_version".to_string(), ResourceValue::String("v2".to_string()));
    t.push("string", "full_api_url".to_string(), reference("string", "base_url"));
    t.push("string", "app_name".to_string(), ResourceValue::String("My Awesome App".to_string()));
    t.push("string", "app_title".to_string(), reference("string", "app_name"));
    t.push("string", "window_title".to_string(), reference("string", "app_title"));
    t
}

fn resolved(t: &ResourceTable, kind: &str, key: &str) -> Option<String> {
    let mut visited = Vec::new();
    resolve_string_value(kind, key, t, &mut visited)
}

#[test]
fn test_resolve_reference_path() {
    assert_eq!(resolve_reference_path("string", "app_name", false), "string::APP_NAME");
    assert_eq!(resolve_reference_path("color", "primary", true), "crate::color::PRIMARY");
}

#[test]
fn reference_path_goes_through_the_namespaces() {
    assert_eq!(resolve_reference_path("string", "ui/app-name", true), "crate::string::ui::APP_NAME");
    assert_eq!(
        resolve_reference_path("color", "ui/colors/primary", false),
        "color::ui::colors::PRIMARY"
    );
}

#[test]
fn test_string_references() {
    let t = sample();
    assert_eq!(resolved(&t, "string", "base_url"), Some("https://api.example.com".to_string()));
    assert_eq!(resolved(&t, "string", "api_version"), Some("v2".to_string()));

    assert_eq!(resolved(&t, "string", "full_api_url"), resolved(&t, "string", "base_url"));
    assert_eq!(resolved(&t, "string", "app_title"), resolved(&t, "string", "app_name"));
}

#[test]
fn test_reference_chains() {
    let t = sample();
    assert_eq!(resolved(&t, "string", "app_title"), Some("My Awesome App".to_string()));
    assert_eq!(resolved(&t, "string", "full_api_url"), Some("https://api.example.com".to_string()));
}

#[test]
fn two_hop_chain_resolves_to_the_final_string() {
    let t = sample();
    assert_eq!(resolved(&t, "string", "window_title"), Some("My Awesome App".to_string()));
    assert_eq!(resolved(&t, "string", "window_title"), resolved(&t, "string", "app_title"));
}

#[test]
fn resolution_restores_the_visited_list() {
    let t = sample();
    let mut visited = vec!["number:x".to_string()];
    let r = resolve_string_value("string", "window_title", &t, &mut visited);
    assert_eq!(r, Some("My Awesome App".to_string()));
    assert_eq!(visited, vec!["number:x".to_string()]);
}

#[test]
fn visited_resource_is_not_entered_again() {
    let t = sample();
    let mut visited = vec!["string:app_name".to_string()];
    assert_eq!(resolve_string_value("string", "app_title", &t, &mut visited), None);
}

#[test]
fn values_resolve_by_their_shape() {
    let t = sample();
    let mut visited = Vec::new();
    assert_eq!(
        extract_string_from_value(&ResourceValue::String("x".to_string()), &t, &mut visited),
        Some("x".to_string())
    );
    assert_eq!(
        extract_string_from_value(&reference("string", "app_title"), &t, &mut visited),
        Some("My Awesome App".to_string())
    );
    assert_eq!(extract_string_from_value(&ResourceValue::Bool(true), &t, &mut visited), None);
}

#[test]
fn long_chain_resolves_to_its_end() {
    let mut t = ResourceTable::new();
    t.push("string", "s0".to_string(), ResourceValue::String("end".to_string()));
    for i in 1..200 {
        t.push("string", format!("s{i}"), reference("string", &format!("s{}", i - 1)));
    }
    assert_eq!(resolved(&t, "string", "s199"), Some("end".to_string()));
}

#[test]
fn missing_target_and_non_text_target_do_not_resolve() {
    let mut t = sample();
    t.push("bool", "flag".to_string(), ResourceValue::Bool(true));
    assert_eq!(resolved(&t, "string", "nope"), None);
    assert_eq!(resolved(&t, "color", "nope"), None);
    assert_eq!(resolved(&t, "bool", "flag"), None);
}

#[test]
fn interpolation_substitutes_and_keeps_unresolved_markers() {
    let t = sample();
    let parts = vec![
        InterpolationPart::Text("Welcome to ".to_string()),
        InterpolationPart::Reference { resource_type: "string".to_string(), key: "app_title".to_string() },
        InterpolationPart::Text("! ".to_string()),
        InterpolationPart::Reference { resource_type: "string".to_string(), key: "missing".to_string() },
    ];
    let mut visited = Vec::new();
    assert_eq!(
        resolve_interpolation_parts(&parts, &t, &mut visited),
        Some("Welcome to My Awesome App! @missing".to_string())
    );
}

#[test]
fn interpolation_cycle_renders_marker() {
    let mut t = ResourceTable::new();
    t.push("string", "a".to_string(), ResourceValue::parse_string_value("A sees @string/b"));
    t.push("string", "b".to_string(), ResourceValue::parse_string_value("B sees @string/a"));
    assert_eq!(resolved(&t, "string", "a"), Some("A sees B sees @a".to_string()));
    assert_eq!(resolved(&t, "string", "b"), Some("B sees A sees @b".to_string()));
}

#[test]
fn self_reference_renders_marker() {
    let mut t = ResourceTable::new();
    t.push("string", "me".to_string(), ResourceValue::parse_string_value("I am @string/me."));
    assert_eq!(resolved(&t, "string", "me"), Some("I am @me.".to_string()));
}

#[test]
fn valid_references_give_no_messages() {
    assert!(validate_references(&sample()).is_empty());
}

#[test]
fn every_dangling_reference_is_reported() {
    let mut t = sample();
    t.push("string", "broken".to_string(), reference("string", "nowhere"));
    t.push("color", "button".to_string(), reference("colour", "accent"));
    t.push("color", "other".to_string(), reference("string", "gone"));
    assert_eq!(
        validate_references(&t),
        vec![
            "Unresolved reference in string.broken: @string/nowhere does not exist".to_string(),
            "Invalid reference in color.button: @colour/accent: resource type 'colour' does not exist".to_string(),
            "Unresolved reference in color.other: @string/gone does not exist".to_string(),
        ]
    );
}

#[test]
fn embedded_reference_to_missing_key_is_no_error() {
    let mut t = ResourceTable::new();
    t.push("string", "a".to_string(), ResourceValue::parse_string_value("see @string/missing here"));
    assert!(validate_references(&t).is_empty());
}
