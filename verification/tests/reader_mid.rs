use r_ressources::ast::{ResourceKind, ScalarValue};
use r_ressources::reader::mid::{
    handle_array_item, handle_doc_text, handle_mid, handle_normal_resource, handle_template_text,
};
use r_ressources::reader::state::ParseState;

#[test]
fn test_handle_array_item() {
    let mut state = ParseState::default();
    state.in_array = true;
    state.current_tag = "item".to_string();

    let result = handle_array_item(&mut state, "Apple", ResourceKind::Item);

    assert_eq!(result, None);
    assert_eq!(state.array_items.len(), 1);
    assert_eq!(state.array_items[0], "Apple");
}

#[test]
fn test_handle_array_item_not_item_tag() {
    let mut state = ParseState::default();
    state.in_array = true;
    state.current_tag = "string".to_string();

    let result = handle_array_item(&mut state, "test", ResourceKind::String);

    assert_eq!(result, None);
    assert!(state.array_items.is_empty());
}

#[test]
fn test_handle_array_item_empty() {
    let mut state = ParseState::default();
    state.in_array = true;
    state.current_tag = "item".to_string();

    handle_array_item(&mut state, "   ", ResourceKind::Item);

    assert!(state.array_items.is_empty());
}

#[test]
fn test_handle_template_text() {
    let mut state = ParseState::default();
    state.in_template = true;
    state.current_tag = "template".to_string();

    let result = handle_template_text(&mut state, "Hello {name}!", ResourceKind::Template);

    assert_eq!(result, None);
    assert_eq!(state.template_text.trim(), "Hello {name}!");
}

#[test]
fn template_text_is_followed_by_one_space() {
    let mut state = ParseState::default();
    state.in_template = true;
    handle_template_text(&mut state, "  Hello ", ResourceKind::Template);
    handle_template_text(&mut state, "there", ResourceKind::Template);
    assert_eq!(state.template_text, "Hello there ");
}

#[test]
fn test_handle_template_text_not_template_tag() {
    let mut state = ParseState::default();
    state.in_template = true;
    state.current_tag = "string".to_string();

    let result = handle_template_text(&mut state, "test", ResourceKind::String);

    assert_eq!(result, None);
    assert!(state.template_text.is_empty());
}

#[test]
fn test_handle_string() {
    let mut state = ParseState::default();
    state.current_name = Some("app_name".to_string());
    state.current_tag = "string".to_string();

    let result = handle_normal_resource(&mut state, "My App", ResourceKind::String);

    assert!(result.is_some());
    let resource = result.unwrap();
    assert_eq!(resource.name, "app_name");
    assert_eq!(resource.kind, ResourceKind::String);
    if let ScalarValue::Text(value) = resource.value {
        assert_eq!(value, "My App");
    } else {
        panic!("Expected Text value");
    }
}

#[test]
fn test_handle_number() {
    let mut state = ParseState::default();
    state.current_name = Some("max_retries".to_string());
    state.current_tag = "number".to_string();
    state.current_number_type = Some("i32".to_string());

    let result = handle_normal_resource(&mut state, "3", ResourceKind::Number);

    assert!(result.is_some());
    let resource = result.unwrap();
    if let ScalarValue::Number { value, explicit_type } = resource.value {
        assert_eq!(value, "3");
        assert_eq!(explicit_type, Some("i32".to_string()));
    } else {
        panic!("Expected Number value");
    }
}

#[test]
fn test_handle_bool_true() {
    let mut state = ParseState::default();
    state.current_name = Some("enabled".to_string());
    state.current_tag = "bool".to_string();

    let result = handle_normal_resource(&mut state, "true", ResourceKind::Bool);

    assert!(result.is_some());
    let resource = result.unwrap();
    assert!(matches!(resource.value, ScalarValue::Bool(true)));
}

#[test]
fn test_handle_bool_false() {
    let mut state = ParseState::default();
    state.current_name = Some("disabled".to_string());
    state.current_tag = "bool".to_string();

    let result = handle_normal_resource(&mut state, "false", ResourceKind::Bool);

    assert!(result.is_some());
    let resource = result.unwrap();
    assert!(matches!(resource.value, ScalarValue::Bool(false)));
}

#[test]
fn test_handle_bool_invalid() {
    let mut state = ParseState::default();
    state.current_name = Some("invalid".to_string());
    state.current_tag = "bool".to_string();

    let result = handle_normal_resource(&mut state, "not_a_bool", ResourceKind::Bool);

    assert_eq!(result, None);
}

#[test]
fn test_handle_color() {
    let mut state = ParseState::default();
    state.current_name = Some("primary".to_string());
    state.current_tag = "color".to_string();

    let result = handle_normal_resource(&mut state, "#FF0000", ResourceKind::Color);

    assert!(result.is_some());
    let resource = result.unwrap();
    if let ScalarValue::Color(value) = resource.value {
        assert_eq!(value, "#FF0000");
    } else {
        panic!("Expected Color value");
    }
}

#[test]
fn test_handle_normal_resource_no_name() {
    let mut state = ParseState::default();
    state.current_name = None;
    state.current_tag = "string".to_string();

    let result = handle_normal_resource(&mut state, "test", ResourceKind::String);

    assert_eq!(result, None);
}

#[test]
fn test_handle_normal_resource_empty_text() {
    let mut state = ParseState::default();
    state.current_name = Some("test".to_string());
    state.current_tag = "string".to_string();

    let result = handle_normal_resource(&mut state, "   ", ResourceKind::String);

    assert_eq!(result, None);
}

#[test]
fn test_handle_mid_array_item() {
    let mut state = ParseState::default();
    state.in_array = true;
    state.current_tag = "item".to_string();

    let result = handle_mid(&mut state, "Banana");

    assert_eq!(result, None);
    assert_eq!(state.array_items.len(), 1);
    assert_eq!(state.array_items[0], "Banana");
}

#[test]
fn test_handle_mid_template_text() {
    let mut state = ParseState::default();
    state.in_template = true;
    state.current_tag = "template".to_string();

    let result = handle_mid(&mut state, "Welcome!");

    assert_eq!(result, None);
    assert!(state.template_text.contains("Welcome!"));
}

#[test]
fn test_handle_mid_string() {
    let mut state = ParseState::default();
    state.current_name = Some("title".to_string());
    state.current_tag = "string".to_string();

    let result = handle_mid(&mut state, "Hello World");

    assert!(result.is_some());
    let resource = result.unwrap();
    assert_eq!(resource.name, "title");
}

#[test]
fn doc_text_is_joined_with_spaces() {
    let mut state = ParseState::default();
    state.in_doc = true;
    state.current_tag = "doc".to_string();

    handle_doc_text(&mut state, " First line ", ResourceKind::Doc);
    handle_doc_text(&mut state, "second", ResourceKind::Doc);
    handle_doc_text(&mut state, "   ", ResourceKind::Doc);

    assert_eq!(state.doc_text, "First line second");
}

#[test]
fn pending_doc_goes_to_next_declaration() {
    let mut state = ParseState::default();
    state.current_name = Some("title".to_string());
    state.current_tag = "string".to_string();
    state.pending_doc = Some("The title.".to_string());

    let resource = handle_mid(&mut state, "Hello").unwrap();

    assert_eq!(resource.doc, Some("The title.".to_string()));
    assert_eq!(state.pending_doc, None);
}

#[test]
fn value_text_is_trimmed() {
    let mut state = ParseState::default();
    state.current_name = Some("title".to_string());
    state.current_tag = "string".to_string();

    let resource = handle_mid(&mut state, "  Hello World \n").unwrap();

    assert_eq!(resource.value.as_text(), Some("Hello World"));
}

#[test]
fn only_the_first_text_inside_a_tag_counts() {
    let mut state = ParseState::default();
    state.current_name = Some("title".to_string());
    state.current_tag = "string".to_string();

    assert!(handle_mid(&mut state, "Tom").is_some());
    assert_eq!(handle_mid(&mut state, "Jerry"), None);
    assert_eq!(state.current_name, None);
}

#[test]
fn documentation_waits_when_a_declaration_is_dropped() {
    let mut state = ParseState::default();
    state.current_name = Some("invalid".to_string());
    state.current_tag = "bool".to_string();
    state.pending_doc = Some("d".to_string());

    let result = handle_normal_resource(&mut state, "not_a_bool", ResourceKind::Bool);

    assert_eq!(result, None);
    assert_eq!(state.pending_doc, Some("d".to_string()));

    state.current_name = Some("next".to_string());
    let next = handle_normal_resource(&mut state, "true", ResourceKind::Bool).unwrap();
    assert_eq!(next.doc, Some("d".to_string()));
    assert_eq!(state.pending_doc, None);
}
