use r_ressources::ast::{ParsedResource, ResourceKind, ScalarValue, TemplateParam};
use r_ressources::parser::{
    add_resource, add_resources, handle_array_end, handle_bool, handle_color, handle_dimension,
    handle_number, handle_string, handle_url,
};
use r_ressources::table::ResourceTable;
use r_ressources::types::{NumberValue, ResourceValue, TemplateParameterType};

#[test]
fn strings_numbers_and_bools_are_filed() {
    let mut t = ResourceTable::new();
    handle_string("Hello", "greeting", &mut t);
    handle_string("@string/greeting", "alias", &mut t);
    assert_eq!(handle_number("3", "n", None, &mut t), Ok(()));
    assert_eq!(handle_number("@number/n", "m", None, &mut t), Ok(()));
    handle_bool("true", "on", &mut t);
    handle_bool("TRUE", "dropped", &mut t);
    handle_color("#fff", "white", &mut t);
    handle_url("https://x", "home", &mut t);
    handle_url("@url/home", "start", &mut t);
    handle_dimension("16dp", "gap", &mut t);

    let kinds: Vec<&str> = t.groups.iter().map(|g| g.kind.as_str()).collect();
    assert_eq!(kinds, vec!["string", "number", "bool", "color", "url", "dimension"]);
    assert!(matches!(t.find("string", "alias"), Some(ResourceValue::Reference { .. })));
    assert!(matches!(t.find("number", "n"), Some(ResourceValue::Number(NumberValue::Int(3)))));
    assert!(matches!(t.find("number", "m"), Some(ResourceValue::Reference { .. })));
    assert!(matches!(t.find("bool", "on"), Some(ResourceValue::Bool(true))));
    assert!(t.find("bool", "dropped").is_none());
    assert!(matches!(t.find("url", "home"), Some(ResourceValue::Url(u)) if u == "https://x"));
    assert!(matches!(t.find("url", "start"), Some(ResourceValue::Reference { .. })));
    assert!(matches!(t.find("dimension", "gap"), Some(ResourceValue::Dimension(d)) if d == "16dp"));
}

#[test]
fn bad_number_leaves_the_table_alone() {
    let mut t = ResourceTable::new();
    assert_eq!(
        handle_number("300", "n", Some("u8"), &mut t),
        Err("'300' does not fit in u8".to_string())
    );
    assert!(t.groups.is_empty());
}

#[test]
fn typed_array_tags() {
    let items = vec!["1".to_string(), "x".to_string(), "+2".to_string(), "2.5".to_string()];
    let mut t = ResourceTable::new();
    handle_array_end("string-array", "s", &items, &mut t);
    handle_array_end("int-array", "i", &items, &mut t);
    handle_array_end("float-array", "f", &items, &mut t);
    handle_array_end("other", "o", &items, &mut t);
    assert_eq!(t.groups.len(), 3);
    assert!(matches!(
        t.find("string_array", "s"),
        Some(ResourceValue::Array { element_type, spec: None, items }) if element_type == "string" && items.len() == 4
    ));
    assert!(matches!(
        t.find("int_array", "i"),
        Some(ResourceValue::Array { items, .. }) if items == &vec!["1".to_string(), "2".to_string()]
    ));
    assert!(matches!(
        t.find("float_array", "f"),
        Some(ResourceValue::Array { items, .. })
            if items == &vec!["1.0".to_string(), "2.0".to_string(), "2.5".to_string()]
    ));
}

#[test]
fn template_parameters_get_their_types() {
    let parsed = ParsedResource {
        name: "t".to_string(),
        kind: ResourceKind::Template,
        value: ScalarValue::Template {
            text: "x".to_string(),
            params: vec![
                TemplateParam { name: "a".to_string(), value: ScalarValue::Text(String::new()) },
                TemplateParam {
                    name: "b".to_string(),
                    value: ScalarValue::Number { value: String::new(), explicit_type: None },
                },
                TemplateParam {
                    name: "c".to_string(),
                    value: ScalarValue::Number {
                        value: String::new(),
                        explicit_type: Some(" F32 ".to_string()),
                    },
                },
                TemplateParam { name: "d".to_string(), value: ScalarValue::Bool(false) },
                TemplateParam { name: "e".to_string(), value: ScalarValue::Color(String::new()) },
                TemplateParam {
                    name: "f".to_string(),
                    value: ScalarValue::Number {
                        value: String::new(),
                        explicit_type: Some("u8".to_string()),
                    },
                },
            ],
        },
        doc: None,
    };
    let mut t = ResourceTable::new();
    assert_eq!(add_resource(&mut t, &parsed), Ok(()));
    match t.find("string", "t") {
        Some(ResourceValue::Template(template)) => {
            let types: Vec<TemplateParameterType> =
                template.parameters.iter().map(|p| p.param_type).collect();
            assert_eq!(
                types,
                vec![
                    TemplateParameterType::String,
                    TemplateParameterType::Int,
                    TemplateParameterType::Float,
                    TemplateParameterType::Bool,
                    TemplateParameterType::String,
                    TemplateParameterType::Int,
                ]
            );
        }
        _ => panic!("expected a template"),
    }
}

#[test]
fn first_bad_number_ends_the_filing() {
    let parsed = vec![
        ParsedResource::string("a", "1"),
        ParsedResource::number("n", "x", None),
        ParsedResource::string("b", "2"),
    ];
    let mut t = ResourceTable::new();
    assert_eq!(add_resources(&mut t, &parsed), Err("Invalid number literal 'x'".to_string()));
    let mut ok = ResourceTable::new();
    assert_eq!(add_resources(&mut ok, &parsed[..1].to_vec()), Ok(()));
    assert_eq!(ok.groups[0].items.len(), 1);
}

#[test]
fn parsed_resource_builders() {
    let s = ParsedResource::string("a", "b");
    assert_eq!((s.name.as_str(), s.kind, s.value.as_text(), &s.doc), ("a", ResourceKind::String, Some("b"), &None));
    let n = ParsedResource::number("n", "1", Some("i8".to_string()));
    assert_eq!(n.kind, ResourceKind::Number);
    assert_eq!(n.value.as_number(), Some("1"));
    assert_eq!(n.value.as_text(), Some("1"));
    assert_eq!(n.value.number_explicit_type(), Some("i8"));
    assert_eq!(n.value.as_bool(), None);
    let b = ParsedResource::bool("f", true);
    assert_eq!(b.kind, ResourceKind::Bool);
    assert_eq!(b.value.as_bool(), Some(true));
    assert_eq!(b.value.as_text(), None);
    assert_eq!(b.value.as_color(), None);
    assert_eq!(ScalarValue::Color("#fff".to_string()).as_color(), Some("#fff"));
    assert_eq!(s.clone(), s);
    assert_eq!(n.clone(), n);
}
