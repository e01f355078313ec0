use r_ressources::ast::{ResourceKind, ScalarValue, TemplateParam};
use r_ressources::reader::end::{
    handle_array_end, handle_doc_end, handle_end, handle_item_end, handle_normal_resource_end,
    handle_ns_end, handle_template_end, handle_template_param_end,
};
use r_ressources::reader::state::ParseState;

#[test]
fn test_handle_ns_end() {
    let mut state = ParseState::default();
    state.namespace_stack.push("auth".to_string());
    state.namespace_stack.push("errors".to_string());

    handle_ns_end(&mut state);

    assert_eq!(state.namespace_stack.len(), 1);
    assert_eq!(state.namespace_stack[0], "auth");
}

#[test]
fn ns_end_on_empty_stack_changes_nothing() {
    let mut state = ParseState::default();
    handle_ns_end(&mut state);
    assert!(state.namespace_stack.is_empty());
}

#[test]
fn test_handle_array_end() {
    let mut state = ParseState::default();
    state.current_name = Some("fruits".to_string());
    state.array_type = Some("string".to_string());
    state.array_spec = None;
    state.array_items = vec!["Apple".to_string(), "Banana".to_string()];

    let result = handle_array_end(&mut state);

    assert!(result.is_some());
    let resource = result.unwrap();
    assert_eq!(resource.name, "fruits");
    assert_eq!(resource.kind, ResourceKind::Array);
    if let ScalarValue::Array { element_type, spec, items } = resource.value {
        assert_eq!(element_type, "string");
        assert_eq!(spec, None);
        assert_eq!(items.len(), 2);
        assert_eq!(items[0], "Apple");
        assert_eq!(items[1], "Banana");
    } else {
        panic!("Expected Array value");
    }

    assert!(!state.in_array);
    assert_eq!(state.array_type, None);
    assert_eq!(state.array_spec, None);
    assert!(state.array_items.is_empty());
    assert_eq!(state.current_name, None);
}

#[test]
fn test_handle_array_end_no_name() {
    let mut state = ParseState::default();
    state.current_name = None;
    state.array_items = vec!["test".to_string()];

    let result = handle_array_end(&mut state);

    assert_eq!(result, None);
}

#[test]
fn array_without_name_still_resets_the_array_state() {
    let mut state = ParseState::default();
    state.current_name = None;
    state.in_array = true;
    state.array_type = Some("number".to_string());
    state.array_spec = Some("i8".to_string());
    state.array_items = vec!["test".to_string()];
    state.pending_doc = Some("d".to_string());

    assert_eq!(handle_array_end(&mut state), None);

    assert!(!state.in_array);
    assert_eq!(state.array_type, None);
    assert_eq!(state.array_spec, None);
    assert!(state.array_items.is_empty());
    assert_eq!(state.pending_doc, Some("d".to_string()));
}

#[test]
fn template_without_name_still_resets_the_template_state() {
    let mut state = ParseState::default();
    state.current_name = None;
    state.in_template = true;
    state.template_text = "Hi {x} ".to_string();
    state.template_params = vec![TemplateParam {
        name: "x".to_string(),
        value: ScalarValue::Text(String::new()),
    }];

    assert_eq!(handle_template_end(&mut state), None);

    assert!(!state.in_template);
    assert!(state.template_text.is_empty());
    assert!(state.template_params.is_empty());
}

#[test]
fn test_handle_array_end_default_type() {
    let mut state = ParseState::default();
    state.current_name = Some("items".to_string());
    state.array_type = None;
    state.array_items = vec!["item1".to_string()];

    let result = handle_array_end(&mut state);

    assert!(result.is_some());
    if let ScalarValue::Array { element_type, .. } = result.unwrap().value {
        assert_eq!(element_type, "string");
    } else {
        panic!("Expected Array value");
    }
}

#[test]
fn test_handle_template_end() {
    let mut state = ParseState::default();
    state.current_name = Some("welcome".to_string());
    state.template_text = "Hello {name}!".to_string();
    state.template_params = vec![TemplateParam {
        name: "name".to_string(),
        value: ScalarValue::Text(String::new()),
    }];

    let result = handle_template_end(&mut state);

    assert!(result.is_some());
    let resource = result.unwrap();
    assert_eq!(resource.name, "welcome");
    assert_eq!(resource.kind, ResourceKind::Template);
    if let ScalarValue::Template { text, params } = resource.value {
        assert_eq!(text, "Hello {name}!");
        assert_eq!(params.len(), 1);
    } else {
        panic!("Expected Template value");
    }

    assert!(!state.in_template);
    assert!(state.template_params.is_empty());
    assert!(state.template_text.is_empty());
    assert_eq!(state.current_name, None);
}

#[test]
fn test_handle_template_end_no_name() {
    let mut state = ParseState::default();
    state.current_name = None;
    state.template_text = "test".to_string();

    let result = handle_template_end(&mut state);

    assert_eq!(result, None);
}

#[test]
fn test_handle_template_param_end_string() {
    let mut state = ParseState::default();
    state.in_template = true;
    state.current_name = Some("param".to_string());

    let result = handle_template_param_end(&mut state, &ResourceKind::String);

    assert!(result);
    assert_eq!(state.current_name, None);
}

#[test]
fn test_handle_template_param_end_number() {
    let mut state = ParseState::default();
    state.in_template = true;
    state.current_name = Some("count".to_string());

    let result = handle_template_param_end(&mut state, &ResourceKind::Number);

    assert!(result);
    assert_eq!(state.current_name, None);
}

#[test]
fn test_handle_template_param_end_not_in_template() {
    let mut state = ParseState::default();
    state.in_template = false;
    state.current_name = Some("test".to_string());

    let result = handle_template_param_end(&mut state, &ResourceKind::String);

    assert!(!result);
    assert_eq!(state.current_name, Some("test".to_string()));
}

#[test]
fn test_handle_template_param_end_not_param_type() {
    let mut state = ParseState::default();
    state.in_template = true;
    state.current_name = Some("test".to_string());

    let result = handle_template_param_end(&mut state, &ResourceKind::Array);

    assert!(!result);
    assert_eq!(state.current_name, Some("test".to_string()));
}

#[test]
fn test_handle_item_end() {
    let mut state = ParseState::default();
    state.in_array = true;
    state.current_tag = "item".to_string();
    state.array_items = vec!["test".to_string()];

    handle_item_end(&mut state);

    assert!(state.current_tag.is_empty());
    assert!(state.in_array);
    assert_eq!(state.array_items.len(), 1);
}

#[test]
fn test_handle_normal_resource_end_string() {
    let mut state = ParseState::default();
    state.current_name = Some("app_name".to_string());
    state.current_tag = "string".to_string();

    handle_normal_resource_end(&mut state, &ResourceKind::String);

    assert_eq!(state.current_name, None);
    assert!(state.current_tag.is_empty());
}

#[test]
fn test_handle_normal_resource_end_number() {
    let mut state = ParseState::default();
    state.current_name = Some("max".to_string());
    state.current_number_type = Some("i32".to_string());
    state.current_tag = "number".to_string();

    handle_normal_resource_end(&mut state, &ResourceKind::Number);

    assert_eq!(state.current_name, None);
    assert_eq!(state.current_number_type, None);
    assert!(state.current_tag.is_empty());
}

#[test]
fn test_handle_normal_resource_end_not_resource() {
    let mut state = ParseState::default();
    state.current_name = Some("test".to_string());
    state.current_tag = "unknown".to_string();

    handle_normal_resource_end(&mut state, &ResourceKind::Namespace);

    assert_eq!(state.current_name, Some("test".to_string()));
    assert!(state.current_tag.is_empty());
}

#[test]
fn test_handle_end_namespace() {
    let mut state = ParseState::default();
    state.namespace_stack.push("auth".to_string());

    let result = handle_end(&mut state, "ns");

    assert_eq!(result, None);
    assert!(state.namespace_stack.is_empty());
}

#[test]
fn test_handle_end_array() {
    let mut state = ParseState::default();
    state.current_name = Some("numbers".to_string());
    state.array_type = Some("number".to_string());
    state.array_items = vec!["1".to_string()];

    let result = handle_end(&mut state, "array");

    assert!(result.is_some());
    assert_eq!(result.unwrap().name, "numbers");
}

#[test]
fn test_handle_end_template() {
    let mut state = ParseState::default();
    state.current_name = Some("welcome".to_string());
    state.template_text = "Hello!".to_string();

    let result = handle_end(&mut state, "template");

    assert!(result.is_some());
    assert_eq!(result.unwrap().name, "welcome");
}

#[test]
fn test_handle_end_item() {
    let mut state = ParseState::default();
    state.in_array = true;
    state.current_tag = "item".to_string();

    let result = handle_end(&mut state, "item");

    assert_eq!(result, None);
    assert!(state.current_tag.is_empty());
}

#[test]
fn test_handle_end_string() {
    let mut state = ParseState::default();
    state.current_name = Some("title".to_string());
    state.current_tag = "string".to_string();

    let result = handle_end(&mut state, "string");

    assert_eq!(result, None);
    assert_eq!(state.current_name, None);
}

#[test]
fn doc_end_keeps_trimmed_text_for_next_declaration() {
    let mut state = ParseState::default();
    state.in_doc = true;
    state.doc_text = "  The title.  ".to_string();

    handle_doc_end(&mut state);

    assert_eq!(state.pending_doc, Some("The title.".to_string()));
    assert!(!state.in_doc);
    assert!(state.doc_text.is_empty());
}

#[test]
fn doc_end_with_blank_text_leaves_no_documentation() {
    let mut state = ParseState::default();
    state.in_doc = true;
    state.doc_text = "   ".to_string();
    state.pending_doc = Some("old".to_string());

    handle_doc_end(&mut state);

    assert_eq!(state.pending_doc, None);
}

#[test]
fn param_closing_tag_inside_template_forgets_template_name() {
    let mut state = ParseState::default();
    state.in_template = true;
    state.current_name = Some("welcome".to_string());
    state.current_tag = "template".to_string();

    let result = handle_end(&mut state, "string");

    assert_eq!(result, None);
    assert_eq!(state.current_name, None);
    assert_eq!(state.current_tag, "template");
}
