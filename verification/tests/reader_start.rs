use r_ressources::ast::{ResourceKind, ScalarValue};
use r_ressources::reader::start::{
    attr_value, build_resource_name, handle_array, handle_doc, handle_ns, handle_start,
    handle_template, handle_template_param,
};
use r_ressources::reader::state::ParseState;

fn attrs(pairs: &[(&str, &str)]) -> Vec<(String, String)> {
    pairs.iter().map(|(k, v)| (k.to_string(), v.to_string())).collect()
}

#[test]
fn test_handle_ns() {
    let mut state = ParseState::default();

    handle_ns(&mut state, &attrs(&[("name", "auth")]));

    assert_eq!(state.namespace_stack.len(), 1);
    assert_eq!(state.namespace_stack[0], "auth");
    assert_eq!(state.current_name, None);
}

#[test]
fn test_handle_template() {
    let mut state = ParseState::default();

    handle_template(&mut state);

    assert!(state.in_template);
    assert!(state.template_params.is_empty());
    assert!(state.template_text.is_empty());
}

#[test]
fn test_handle_array() {
    let mut state = ParseState::default();
    let e = attrs(&[("name", "numbers"), ("type", "number"), ("spec", "bigdecimal")]);

    handle_array(&mut state, &e);

    assert!(state.in_array);
    assert_eq!(state.array_type, Some("number".to_string()));
    assert_eq!(state.array_spec, Some("bigdecimal".to_string()));
    assert!(state.array_items.is_empty());
    assert_eq!(state.current_name, Some("numbers".to_string()));
}

#[test]
fn test_handle_array_in_namespace() {
    let mut state = ParseState::default();
    state.namespace_stack.push("ui".to_string());

    handle_array(&mut state, &attrs(&[("name", "colors")]));

    assert_eq!(state.current_name, Some("ui/colors".to_string()));
}

#[test]
fn test_build_resource_name() {
    let state = ParseState::default();

    let name = build_resource_name(&state, &attrs(&[("name", "app_name")]));

    assert_eq!(name, Some("app_name".to_string()));
}

#[test]
fn test_build_resource_name_with_namespace() {
    let mut state = ParseState::default();
    state.namespace_stack.push("auth".to_string());
    state.namespace_stack.push("errors".to_string());

    let name = build_resource_name(&state, &attrs(&[("name", "invalid")]));

    assert_eq!(name, Some("auth/errors/invalid".to_string()));
}

#[test]
fn test_build_resource_name_no_name_attr() {
    let state = ParseState::default();

    let name = build_resource_name(&state, &attrs(&[]));

    assert_eq!(name, None);
}

#[test]
fn test_handle_template_param_string() {
    let mut state = ParseState::default();
    state.in_template = true;

    let result = handle_template_param(
        &mut state,
        ResourceKind::String,
        &Some("user_name".to_string()),
        &None,
    );

    assert!(result);
    assert_eq!(state.template_params.len(), 1);
    assert_eq!(state.template_params[0].name, "user_name");
    assert!(matches!(state.template_params[0].value, ScalarValue::Text(_)));
}

#[test]
fn test_handle_template_param_number() {
    let mut state = ParseState::default();
    state.in_template = true;

    let result = handle_template_param(
        &mut state,
        ResourceKind::Number,
        &Some("count".to_string()),
        &Some("i32".to_string()),
    );

    assert!(result);
    assert_eq!(state.template_params.len(), 1);
    if let ScalarValue::Number { explicit_type, .. } = &state.template_params[0].value {
        assert_eq!(explicit_type, &Some("i32".to_string()));
    } else {
        panic!("Expected Number value");
    }
}

#[test]
fn test_handle_template_param_bool() {
    let mut state = ParseState::default();
    state.in_template = true;

    let result = handle_template_param(
        &mut state,
        ResourceKind::Bool,
        &Some("enabled".to_string()),
        &None,
    );

    assert!(result);
    assert_eq!(state.template_params.len(), 1);
    assert!(matches!(state.template_params[0].value, ScalarValue::Bool(false)));
}

#[test]
fn test_handle_template_param_color() {
    let mut state = ParseState::default();
    state.in_template = true;

    let result = handle_template_param(
        &mut state,
        ResourceKind::Color,
        &Some("primary".to_string()),
        &None,
    );

    assert!(result);
    assert_eq!(state.template_params.len(), 1);
    assert!(matches!(state.template_params[0].value, ScalarValue::Color(_)));
}

#[test]
fn test_handle_template_param_invalid() {
    let mut state = ParseState::default();
    state.in_template = true;

    let result = handle_template_param(
        &mut state,
        ResourceKind::Array,
        &Some("test".to_string()),
        &None,
    );

    assert!(!result);
    assert!(state.template_params.is_empty());
}

#[test]
fn template_param_without_name_is_not_recorded() {
    let mut state = ParseState::default();
    state.in_template = true;

    let result = handle_template_param(&mut state, ResourceKind::String, &None, &None);

    assert!(!result);
    assert!(state.template_params.is_empty());
}

#[test]
fn test_handle_start_string() {
    let mut state = ParseState::default();

    handle_start(&mut state, "string", &attrs(&[("name", "app_name")]));

    assert_eq!(state.current_tag, "string");
    assert_eq!(state.current_name, Some("app_name".to_string()));
    assert_eq!(state.current_number_type, None);
}

#[test]
fn test_handle_start_number_with_type() {
    let mut state = ParseState::default();

    handle_start(&mut state, "number", &attrs(&[("name", "max_retries"), ("type", "i32")]));

    assert_eq!(state.current_number_type, Some("i32".to_string()));
    assert_eq!(state.current_name, Some("max_retries".to_string()));
}

#[test]
fn test_handle_start_array() {
    let mut state = ParseState::default();

    handle_start(&mut state, "array", &attrs(&[("name", "items"), ("type", "string")]));

    assert!(state.in_array);
    assert_eq!(state.array_type, Some("string".to_string()));
    assert_eq!(state.current_name, Some("items".to_string()));
}

#[test]
fn test_handle_start_item() {
    let mut state = ParseState::default();
    state.in_array = true;

    handle_start(&mut state, "item", &attrs(&[]));

    assert_eq!(state.current_tag, "item");
}

#[test]
fn start_of_doc_block_clears_its_text() {
    let mut state = ParseState::default();
    state.doc_text = "old".to_string();

    handle_doc(&mut state);

    assert!(state.in_doc);
    assert!(state.doc_text.is_empty());
}

#[test]
fn doc_tag_starts_a_doc_block() {
    let mut state = ParseState::default();
    handle_start(&mut state, "doc", &attrs(&[]));
    assert!(state.in_doc);
    assert_eq!(state.current_tag, "doc");
}

#[test]
fn param_inside_template_keeps_text_with_the_template() {
    let mut state = ParseState::default();
    handle_start(&mut state, "template", &attrs(&[("name", "welcome")]));
    assert_eq!(state.current_name, Some("welcome".to_string()));

    handle_start(&mut state, "number", &attrs(&[("name", "count"), ("type", "i32")]));

    assert_eq!(state.current_tag, "template");
    assert_eq!(state.current_name, Some("welcome".to_string()));
    assert_eq!(state.template_params.len(), 1);
    assert_eq!(state.template_params[0].name, "count");
}

#[test]
fn first_attribute_of_a_key_wins() {
    let a = attrs(&[("type", "i8"), ("name", "x"), ("type", "u8")]);
    assert_eq!(attr_value(&a, "type"), Some("i8".to_string()));
    assert_eq!(attr_value(&a, "spec"), None);
}

#[test]
fn unknown_tag_is_read_as_string_declaration() {
    assert_eq!(ResourceKind::from_str("widget"), ResourceKind::String);
    assert_eq!(ResourceKind::from_str("url"), ResourceKind::Url);
    assert_eq!(ResourceKind::from_str("dimension"), ResourceKind::Dimension);
    assert_eq!(ResourceKind::from_str("int"), ResourceKind::Number);
    assert_eq!(ResourceKind::from_str("float"), ResourceKind::Number);
    assert_eq!(ResourceKind::from_str("ns"), ResourceKind::Namespace);
    assert_eq!(ResourceKind::from_str("doc"), ResourceKind::Doc);
}
