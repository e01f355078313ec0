use r_ressources::compiler::{has_test_resources, merge_files};
use r_ressources::entries::{collect_entries, split_path_to_namespace, split_segments};
use r_ressources::emit::emit_resource;
use r_ressources::resolve::resolution_depth;
use r_ressources::generator::{
    emit_reexport, generate_bool_module, generate_code, generate_code_with_tests,
    generate_empty_code, generate_float_module, generate_int_module, generate_kind_modules,
    generate_r_module, generate_r_struct, generate_r_tests_module, generate_string_module,
};
use r_ressources::parser::parse_resources;
use r_ressources::reader::RawResourceFile;
use r_ressources::table::ResourceTable;
use r_ressources::tree::{build_namespace_tree, sort_namespace_tree};
use r_ressources::types::{NumberType, NumberValue, ResourceValue};
use r_ressources::{build, CompileError};

fn file(path: &str, contents: &str, is_test: bool) -> RawResourceFile {
    RawResourceFile::new(path.to_string(), contents.to_string(), is_test)
}

const R_STRUCT: &str = "\npub struct R;\n\nimpl Default for R {\n    fn default() -> Self {\n        Self::new()\n    }\n}\n\nimpl R {\n    #[must_use]\n    pub const fn new() -> Self {\n        Self\n    }\n}\n";

#[test]
fn marker_type_and_empty_code() {
    assert_eq!(generate_r_struct(), R_STRUCT);
    assert_eq!(generate_empty_code(), format!("\npub mod r {{}}\n{R_STRUCT}"));
}

#[test]
fn segments_leave_out_empty_pieces() {
    assert_eq!(split_segments("a/b/c"), vec!["a", "b", "c"]);
    assert_eq!(split_segments("/a//b/"), vec!["a", "b"]);
    assert!(split_segments("///").is_empty());
    assert!(split_segments("").is_empty());
}

#[test]
fn path_splits_into_namespace_and_leaf() {
    assert_eq!(
        split_path_to_namespace("ui/colors/primary"),
        (vec!["ui".to_string(), "colors".to_string()], "primary".to_string())
    );
    assert_eq!(split_path_to_namespace("app-name"), (vec![], "app_name".to_string()));
    assert_eq!(
        split_path_to_namespace("my-ns/my.leaf"),
        (vec!["my_ns".to_string()], "my_leaf".to_string())
    );
    assert_eq!(split_path_to_namespace(""), (vec![], String::new()));
}

#[test]
fn entries_follow_table_order_and_skip_nameless() {
    let mut t = ResourceTable::new();
    t.push("string", "b".to_string(), ResourceValue::String("1".to_string()));
    t.push("bool", "ns/flag".to_string(), ResourceValue::Bool(true));
    t.push("string", "/".to_string(), ResourceValue::String("none".to_string()));
    t.push("string", "a".to_string(), ResourceValue::String("2".to_string()));
    let entries = collect_entries(&t);
    let names: Vec<(&str, &str)> =
        entries.iter().map(|e| (e.resource_type.as_str(), e.leaf_name.as_str())).collect();
    assert_eq!(names, vec![("string", "b"), ("string", "a"), ("bool", "flag")]);
    assert_eq!(entries[2].namespace_path, vec!["ns".to_string()]);
}

#[test]
fn tree_orders_namespaces_and_sorted_leaves() {
    let mut t = ResourceTable::new();
    for name in ["zeta", "ui/title", "alpha", "auth/x", "ui/colors/primary", "mid", "alpha"] {
        t.push("string", name.to_string(), ResourceValue::String(name.to_string()));
    }
    let entries = collect_entries(&t);
    let tree = build_namespace_tree(&entries);
    let names: Vec<&str> = tree.children.iter().map(|c| c.0.as_str()).collect();
    assert_eq!(names, vec!["auth", "ui"]);
    assert_eq!(tree.resource_indices, vec![0, 2, 5, 6]);
    assert_eq!(tree.children[1].1.children[0].0, "colors");
    assert_eq!(tree.children[1].1.children[0].1.resource_indices, vec![4]);

    let sorted = sort_namespace_tree(&tree, &entries);
    assert_eq!(sorted.resource_indices, vec![2, 6, 5, 0]);
    assert_eq!(sorted.children[1].1.resource_indices, vec![1]);
}

#[test]
fn definitions_by_kind() {
    let mut t = ResourceTable::new();
    t.push("string", "app-name".to_string(), ResourceValue::String("My \"App\"".to_string()));
    t.push("number", "max".to_string(), ResourceValue::Number(NumberValue::Int(-3)));
    t.push("number", "rate".to_string(), ResourceValue::Number(NumberValue::Float("0.75".to_string())));
    t.push(
        "number",
        "small".to_string(),
        ResourceValue::Number(NumberValue::Typed { literal: "7".to_string(), ty: NumberType::U8 }),
    );
    t.push("bool", "debug".to_string(), ResourceValue::Bool(false));
    t.push("url", "home".to_string(), ResourceValue::Url("https://x.y/z".to_string()));
    t.push("dimension", "gap".to_string(), ResourceValue::Dimension("16dp".to_string()));
    t.push("widget", "w".to_string(), ResourceValue::String("ignored".to_string()));
    t.push("bool", "wrong".to_string(), ResourceValue::String("not a bool".to_string()));
    let entries = collect_entries(&t);
    let mut code = String::new();
    for e in &entries {
        emit_resource(&mut code, e, &t, 2);
    }
    assert_eq!(
        code,
        "  pub const APP_NAME: &str = \"My \\\"App\\\"\";\n  pub const MAX: i64 = -3;\n  pub const RATE: f64 = 0.75;\n  pub const SMALL: u8 = 7;\n  pub const DEBUG: bool = false;\n  pub const HOME: &str = \"https://x.y/z\";\n  pub const GAP: &str = \"16dp\";\n"
    );
}

#[test]
fn reexport_names_the_item_of_the_kind_module() {
    let mut t = ResourceTable::new();
    t.push("color", "ui/colors/primary".to_string(), ResourceValue::Color("#FF5722".to_string()));
    t.push("widget", "w".to_string(), ResourceValue::String("ignored".to_string()));
    let entries = collect_entries(&t);
    let mut code = String::new();
    emit_reexport(&mut code, &entries[0], "    ");
    emit_reexport(&mut code, &entries[1], "    ");
    assert_eq!(code, "    pub use crate::color::ui::colors::PRIMARY;\n");
}

#[test]
fn nested_declaration_is_reachable_in_both_forms() {
    let xml = r##"<resources>
  <ns name="ui"><ns name="colors"><color name="primary">#FF5722</color></ns></ns>
</resources>"##;
    let table = parse_resources(xml).unwrap();
    let code = generate_code(&table);
    assert_eq!(
        code,
        format!(
            "\npub mod color {{\n    pub mod ui {{\n        pub mod colors {{\n            pub const PRIMARY: &str = \"#FF5722\";\n        }}\n    }}\n}}\n\npub mod r {{\n    pub mod ui {{\n        pub mod colors {{\n            pub use crate::color::ui::colors::PRIMARY;\n        }}\n    }}\n}}\n{R_STRUCT}"
        )
    );
}

#[test]
fn alias_is_a_reexport_of_its_target() {
    let xml = r#"<resources>
  <string name="app_name">My Awesome App</string>
  <string name="app_title">@string/app_name</string>
</resources>"#;
    let table = parse_resources(xml).unwrap();
    assert_eq!(
        generate_kind_modules(&table),
        "\npub mod string {\n    pub const APP_NAME: &str = \"My Awesome App\";\n    pub use crate::string::APP_NAME as APP_TITLE;\n}\n"
    );
    assert_eq!(
        generate_r_module(&table),
        "\npub mod r {\n    pub use crate::string::APP_NAME;\n    pub use crate::string::APP_TITLE;\n}\n"
    );
}

#[test]
fn interpolated_strings_resolve_at_build_time() {
    let xml = r#"<resources>
  <string name="app_name">My Awesome App</string>
  <string name="base_url">https://api.example.com</string>
  <string name="api_version">v2</string>
  <string name="welcome_title">Welcome to @string/app_name!</string>
  <string name="api_url_with_version">@string/base_url/@string/api_version</string>
</resources>"#;
    let table = parse_resources(xml).unwrap();
    let code = generate_kind_modules(&table);
    assert!(code.contains("pub const WELCOME_TITLE: &str = \"Welcome to My Awesome App!\";\n"));
    assert!(code.contains("pub const API_URL_WITH_VERSION: &str = \"https://api.example.com/v2\";\n"));
}

#[test]
fn interpolation_cycle_compiles_to_marker_text() {
    let xml = r#"<resources>
  <string name="a">A and @string/b</string>
  <string name="b">B and @string/a</string>
</resources>"#;
    let code = build(&vec![file("values.xml", xml, false)]).unwrap();
    assert!(code.contains("pub const A: &str = \"A and B and A and @b\";\n"));
    assert!(code.contains("pub const B: &str = \"B and A and B and @a\";\n"));
}

#[test]
fn template_functions_generate_correctly() {
    let xml = r#"<resources>
  <template name="greeting">
    <string name="name"/>
    <number name="count"/>
    Hello {name}, you have {count} messages!
  </template>
  <template name="status">
    <string name="user"/>
    <bool name="active"/>
    User {user} is {active}
  </template>
  <template name="ratio">
    <number name="value" type="f64"/>
    {value} percent
  </template>
</resources>"#;
    let table = parse_resources(xml).unwrap();
    let code = generate_kind_modules(&table);
    assert_eq!(
        code,
        "\npub mod string {\n    #[must_use]\n    pub fn greeting(name: &str, count: i64) -> String {\n        format!(\"Hello {}, you have {} messages!\", name, count)\n    }\n    #[must_use]\n    pub fn ratio(value: f64) -> String {\n        format!(\"{} percent\", value)\n    }\n    #[must_use]\n    pub fn status(user: &str, active: bool) -> String {\n        format!(\"User {} is {}\", user, active)\n    }\n}\n"
    );
    assert!(generate_r_module(&table).contains("    pub use crate::string::greeting;\n"));
}

#[test]
fn big_decimal_numbers_bring_their_imports() {
    let xml = r#"<resources>
  <number name="huge_balance">123456789012345678901234567890123456789</number>
</resources>"#;
    let table = parse_resources(xml).unwrap();
    assert_eq!(
        generate_kind_modules(&table),
        "\npub mod number {\n    use core::str::FromStr;\n    use std::sync::LazyLock;\n    use r_resources::BigDecimal;\n    pub static HUGE_BALANCE: LazyLock<BigDecimal> = LazyLock::new(|| {\n        BigDecimal::from_str(\"123456789012345678901234567890123456789\").expect(\"valid decimal literal\")\n    });\n}\n"
    );
    let tests_module = generate_r_tests_module(&table);
    assert!(tests_module.starts_with(
        "\n#[cfg(r_resources_has_tests)]\npub mod r_tests {\n    use core::str::FromStr;\n"
    ));
}

#[test]
fn single_kind_modules() {
    let strings = vec![
        ("b".to_string(), ResourceValue::String("2".to_string())),
        ("a".to_string(), ResourceValue::parse_string_value("see @string/b")),
    ];
    assert_eq!(
        generate_string_module(&strings),
        "\npub mod string {\n    pub const A: &str = \"see 2\";\n    pub const B: &str = \"2\";\n}\n"
    );
    let bools = vec![("on".to_string(), ResourceValue::Bool(true))];
    assert_eq!(generate_bool_module(&bools), "\npub mod bool {\n    pub const ON: bool = true;\n}\n");
}

#[test]
fn test_resources_get_their_own_gated_module() {
    let main = file("res/values.xml", r#"<resources><string name="a">1</string></resources>"#, false);
    let tests = file("res/tests/t.xml", r#"<resources><string name="fixture">f</string></resources>"#, true);
    let code = build(&vec![main, tests]).unwrap();
    assert_eq!(
        code,
        format!(
            "\npub mod string {{\n    pub const A: &str = \"1\";\n}}\n\npub mod r {{\n    pub use crate::string::A;\n}}\n\n#[cfg(r_resources_has_tests)]\npub mod r_tests {{\n    pub const FIXTURE: &str = \"f\";\n}}\n{R_STRUCT}"
        )
    );
    let mut t = ResourceTable::new();
    t.push("string", "a".to_string(), ResourceValue::String("1".to_string()));
    let mut tt = ResourceTable::new();
    tt.push("string", "fixture".to_string(), ResourceValue::String("f".to_string()));
    assert_eq!(generate_code_with_tests(&t, &tt), code);
}

#[test]
fn later_files_append_and_duplicates_stay() {
    let first = file("a.xml", r#"<resources><string name="x">1</string></resources>"#, false);
    let second = file("b.xml", r#"<resources><bool name="f">true</bool><string name="x">2</string></resources>"#, false);
    let code = build(&vec![first, second]).unwrap();
    assert!(code.starts_with(
        "\npub mod string {\n    pub const X: &str = \"1\";\n    pub const X: &str = \"2\";\n}\n\npub mod bool {\n"
    ));
}

#[test]
fn compiling_twice_gives_identical_output() {
    let xml = r##"<resources>
  <string name="app_name">App</string>
  <string name="title">@string/app_name</string>
  <ns name="ui"><color name="primary">#FF5722</color><number name="gap">1.5</number></ns>
  <array name="langs" type="string"><item>en</item><item>fr</item></array>
</resources>"##;
    let files = vec![file("values.xml", xml, false)];
    let first = build(&files).unwrap();
    let second = build(&files).unwrap();
    assert_eq!(first, second);
    assert_eq!(first.as_bytes(), second.as_bytes());
}

#[test]
fn dangling_pure_reference_fails_and_names_both_ends() {
    let xml = r#"<resources>
  <string name="title">@string/missing</string>
  <color name="button">@colour/accent</color>
  <string name="ok">fine</string>
</resources>"#;
    match build(&vec![file("values.xml", xml, false)]) {
        Err(CompileError::DanglingReference { messages }) => {
            assert_eq!(
                messages,
                vec![
                    "Unresolved reference in string.title: @string/missing does not exist".to_string(),
                    "Invalid reference in color.button: @colour/accent: resource type 'colour' does not exist".to_string(),
                ]
            );
        }
        other => panic!("expected dangling references, got {other:?}"),
    }
}

#[test]
fn malformed_markup_fails_with_file_and_offset() {
    let good = file("good.xml", r#"<resources><string name="a">1</string></resources>"#, false);
    let bad = file("bad.xml", "<resources><string name=\"a\">1</strong></resources>", false);
    match build(&vec![good, bad]) {
        Err(CompileError::MalformedInput { path, offset, message }) => {
            assert_eq!(path, "bad.xml");
            assert!(message.starts_with(&format!("XML error at byte {offset}: ")), "{message}");
        }
        other => panic!("expected malformed input, got {other:?}"),
    }
}

#[test]
fn bad_numeric_literal_fails_with_literal_and_width() {
    let xml = r#"<resources><number name="small" type="i8">300</number></resources>"#;
    match build(&vec![file("values.xml", xml, false)]) {
        Err(CompileError::InvalidNumericLiteral { path, message }) => {
            assert_eq!(path, "values.xml");
            assert_eq!(message, "'300' does not fit in i8");
        }
        other => panic!("expected an invalid literal, got {other:?}"),
    }
}

#[test]
fn parse_resources_files_by_canonical_kind() {
    let xml = r##"<resources>
  <int name="timeout">5000</int>
  <float name="ratio">0.75</float>
  <number name="ref">@int/timeout</number>
  <color name="c">@color/d</color>
  <color name="d">#000</color>
</resources>"##;
    let table = parse_resources(xml).unwrap();
    assert_eq!(table.groups.len(), 2);
    assert_eq!(table.groups[0].kind, "number");
    assert_eq!(table.groups[0].items.len(), 3);
    assert!(matches!(
        &table.groups[0].items[2].1,
        ResourceValue::Reference { resource_type, key } if resource_type == "number" && key == "timeout"
    ));
    assert!(matches!(&table.groups[1].items[0].1, ResourceValue::Reference { .. }));
    assert_eq!(resolution_depth(&table), 6);
    assert!(parse_resources("<a></b>").unwrap_err().starts_with("XML parsing error at position "));
}

#[test]
fn errors_in_words() {
    let malformed = CompileError::MalformedInput {
        path: "res/invalid.xml".to_string(),
        offset: 7,
        message: "XML error at byte 7: ill-formed".to_string(),
    };
    assert_eq!(
        malformed.message(),
        "Invalid resource file 'res/invalid.xml': XML error at byte 7: ill-formed"
    );
    let dangling = CompileError::DanglingReference {
        messages: vec!["first".to_string(), "second".to_string()],
    };
    assert_eq!(dangling.message(), "Reference validation failed:\n  first\n  second");
    let number = CompileError::InvalidNumericLiteral {
        path: "v.xml".to_string(),
        message: "'300' does not fit in i8".to_string(),
    };
    assert_eq!(number.message(), "Invalid number in 'v.xml': '300' does not fit in i8");
}

#[test]
fn test_files_are_told_apart() {
    let files = vec![
        file("a.xml", r#"<resources><string name="a">1</string></resources>"#, false),
        file("t.xml", r#"<resources><string name="t">2</string></resources>"#, true),
    ];
    assert!(has_test_resources(&files));
    assert!(!has_test_resources(&files[..1].to_vec()));
    let main = merge_files(&files, false).unwrap();
    assert_eq!(main.groups[0].items.len(), 1);
    assert_eq!(main.groups[0].items[0].0, "a");
    let tests = merge_files(&files, true).unwrap();
    assert_eq!(tests.groups[0].items[0].0, "t");
}

#[test]
fn array_item_that_overflows_fails_the_build() {
    let xml = r#"<resources><array name="levels" type="number" spec="i8"><item>1</item><item>300</item></array></resources>"#;
    match build(&vec![file("values.xml", xml, false)]) {
        Err(CompileError::InvalidNumericLiteral { path, message }) => {
            assert_eq!(path, "values.xml");
            assert_eq!(message, "'300' does not fit in i8");
        }
        other => panic!("expected an invalid literal, got {other:?}"),
    }
}

#[test]
fn alias_of_a_namespaced_target_names_its_definition() {
    let xml = r#"<resources>
  <ns name="ui"><string name="title">Hello</string></ns>
  <string name="heading">@string/ui/title</string>
</resources>"#;
    let code = build(&vec![file("values.xml", xml, false)]).unwrap();
    assert!(code.contains("    pub mod ui {\n        pub const TITLE: &str = \"Hello\";\n    }\n"));
    assert!(code.contains("    pub use crate::string::ui::TITLE as HEADING;\n"));
    assert!(code.contains("        pub use crate::string::ui::TITLE;\n"));
}

#[test]
fn number_modules_under_their_other_names() {
    let ints = vec![("max".to_string(), ResourceValue::Number(NumberValue::Int(3)))];
    assert_eq!(generate_int_module(&ints), "\npub mod int {\n    pub const MAX: i64 = 3;\n}\n");
    let floats =
        vec![("rate".to_string(), ResourceValue::Number(NumberValue::Float("0.5".to_string())))];
    assert_eq!(
        generate_float_module(&floats),
        "\npub mod float {\n    pub const RATE: f64 = 0.5;\n}\n"
    );
}
