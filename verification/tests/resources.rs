use r_ressources::build;
use r_ressources::environment::preprocess_xml;
use r_ressources::reader::RawResourceFile;

const VALUES: &str = r##"<?xml version="1.0" encoding="utf-8"?>
<resources>
    <string name="app_name">My Awesome App</string>
    <string name="welcome_message">Welcome to our app!</string>
    <string name="base_url">https://api.example.com</string>
    <string name="api_version">v2</string>
    <string name="full_api_url">@string/base_url</string>
    <string name="app_title">@string/app_name</string>
    <number name="max_retries" type="i32">3</number>
    <number name="cache_size" type="u32">100</number>
    <number name="default_rate">0.75</number>
    <number name="tax_rate" type="f32">0.20</number>
    <number name="pi_precise" type="f64">3.141592653589793</number>
    <number name="timeout_ms" profile="debug">10000</number>
    <number name="timeout_ms" profile="release">5000</number>
    <number name="huge_balance">123456789012345678901234567890123456789</number>
    <array name="supported_langs" type="string">
        <item>en</item>
        <item>fr</item>
        <item>es</item>
    </array>
    <array name="fibonacci" type="number">
        <item>1</item><item>1</item><item>2</item><item>3</item><item>5</item><item>8</item>
    </array>
    <array name="prices" type="number">
        <item>9.99</item><item>19.99</item><item>29.99</item>
    </array>
</resources>"##;

const CONFIG: &str = r##"<resources>
    <bool name="debug_mode">true</bool>
    <bool name="enable_analytics">false</bool>
    <bool name="show_tutorial">true</bool>
    <color name="primary">#FF5722</color>
    <color name="secondary">#03A9F4</color>
    <color name="background">#FFFFFF</color>
    <color name="text_dark">#212121</color>
    <color name="accent">#FF5722</color>
    <color name="button_color">@color/accent</color>
    <url name="api_base">https://api.example.com</url>
    <url name="website">https://example.com</url>
    <url name="docs">https://docs.example.com</url>
    <dimension name="padding_small">8dp</dimension>
    <dimension name="padding_medium">16dp</dimension>
    <dimension name="padding_large">24dp</dimension>
    <dimension name="font_size">14sp</dimension>
</resources>"##;

const NAMESPACED: &str = r##"<resources>
    <ns name="auth">
        <string name="title">Login</string>
        <ns name="errors">
            <string name="invalid_credentials">Invalid credentials</string>
        </ns>
    </ns>
    <ns name="ui">
        <ns name="colors">
            <color name="primary">#3366FF</color>
        </ns>
        <ns name="dimens">
            <dimension name="padding">16dp</dimension>
        </ns>
    </ns>
    <ns name="lists">
        <array name="langs" type="string"><item>en</item><item>fr</item><item>es</item></array>
        <array name="small_numbers" type="number"><item>1</item><item>2</item><item>3</item></array>
        <array name="ratios" type="number"><item>0.5</item><item>1.0</item><item>2.0</item></array>
    </ns>
</resources>"##;

const TESTS: &str = r##"<resources>
    <string name="test_only_message">This exists only in tests</string>
    <number name="test_limit" type="i32">2147483647</number>
    <number name="test_decimal" type="f64">123.456</number>
</resources>"##;

fn compile(profile: &str) -> String {
    let files = vec![
        RawResourceFile::new("res/config.xml".to_string(), preprocess_xml(CONFIG, profile), false),
        RawResourceFile::new(
            "res/namespaced.xml".to_string(),
            preprocess_xml(NAMESPACED, profile),
            false,
        ),
        RawResourceFile::new("res/values.xml".to_string(), preprocess_xml(VALUES, profile), false),
        RawResourceFile::new("res/tests/tests.xml".to_string(), preprocess_xml(TESTS, profile), true),
    ];
    build(&files).unwrap()
}

fn module<'a>(code: &'a str, name: &str) -> &'a str {
    let start = code.find(&format!("\npub mod {name} {{\n")).unwrap();
    let rest = &code[start..];
    let end = rest.find("\n}\n").unwrap();
    &rest[..end + 3]
}

#[test]
fn test_string_resources() {
    let code = compile("debug");
    let strings = module(&code, "string");
    assert!(strings.contains("    pub const APP_NAME: &str = \"My Awesome App\";\n"));
    assert!(strings.contains("    pub const WELCOME_MESSAGE: &str = \"Welcome to our app!\";\n"));
    let r = module(&code, "r");
    assert!(r.contains("    pub use crate::string::APP_NAME;\n"));
    assert!(r.contains("    pub use crate::string::WELCOME_MESSAGE;\n"));
}

#[test]
fn test_number_resources() {
    let debug = compile("debug");
    let numbers = module(&debug, "number");
    assert!(numbers.contains("    pub const MAX_RETRIES: i32 = 3;\n"));
    assert!(numbers.contains("    pub const CACHE_SIZE: u32 = 100;\n"));
    assert!(numbers.contains("    pub const DEFAULT_RATE: f64 = 0.75;\n"));
    assert!(numbers.contains("    pub const TAX_RATE: f32 = 0.2;\n"));
    assert!(numbers.contains("    pub const PI_PRECISE: f64 = 3.141592653589793;\n"));
    assert!(numbers.contains("    pub const TIMEOUT_MS: i64 = 10000;\n"));
    assert!(!numbers.contains("5000"));
    let release = compile("release");
    assert!(module(&release, "number").contains("    pub const TIMEOUT_MS: i64 = 5000;\n"));
    assert!(!module(&release, "number").contains("10000"));
}

#[test]
fn test_big_decimal_numbers() {
    let code = compile("debug");
    assert!(module(&code, "number").contains(
        "    pub static HUGE_BALANCE: LazyLock<BigDecimal> = LazyLock::new(|| {\n        BigDecimal::from_str(\"123456789012345678901234567890123456789\").expect(\"valid decimal literal\")\n    });\n"
    ));
}

#[test]
fn test_array_resources() {
    let code = compile("debug");
    let arrays = module(&code, "array");
    assert!(arrays.contains("    pub const SUPPORTED_LANGS: &[&str] = &[\"en\", \"fr\", \"es\"];\n"));
    assert!(arrays.contains("    pub const FIBONACCI: &[i64] = &[1, 1, 2, 3, 5, 8];\n"));
    assert!(arrays.contains("    pub const PRICES: &[f64] = &[9.99, 19.99, 29.99];\n"));
}

#[test]
fn test_explicit_number_types() {
    let code = compile("debug");
    assert!(code.contains("pub const MAX_RETRIES: i32 = "));
    assert!(code.contains("pub const CACHE_SIZE: u32 = "));
}

#[test]
fn test_bool_resources() {
    let code = compile("debug");
    let bools = module(&code, "bool");
    assert_eq!(
        bools,
        "\npub mod bool {\n    pub const DEBUG_MODE: bool = true;\n    pub const ENABLE_ANALYTICS: bool = false;\n    pub const SHOW_TUTORIAL: bool = true;\n}\n"
    );
}

#[test]
fn test_color_resources() {
    let code = compile("debug");
    let colors = module(&code, "color");
    assert!(colors.contains("    pub const PRIMARY: &str = \"#FF5722\";\n"));
    assert!(colors.contains("    pub const SECONDARY: &str = \"#03A9F4\";\n"));
    assert!(colors.contains("    pub const BACKGROUND: &str = \"#FFFFFF\";\n"));
    assert!(colors.contains("    pub const TEXT_DARK: &str = \"#212121\";\n"));
}

#[test]
fn test_url_resources() {
    let code = compile("debug");
    let code = module(&code, "url");
    assert!(code.contains("    pub const API_BASE: &str = \"https://api.example.com\";\n"));
    assert!(code.contains("    pub const WEBSITE: &str = \"https://example.com\";\n"));
    assert!(code.contains("    pub const DOCS: &str = \"https://docs.example.com\";\n"));
}

#[test]
fn test_dimension_resources() {
    let code = compile("debug");
    let code = module(&code, "dimension");
    assert!(code.contains("    pub const PADDING_SMALL: &str = \"8dp\";\n"));
    assert!(code.contains("    pub const PADDING_MEDIUM: &str = \"16dp\";\n"));
    assert!(code.contains("    pub const PADDING_LARGE: &str = \"24dp\";\n"));
    assert!(code.contains("    pub const FONT_SIZE: &str = \"14sp\";\n"));
}

#[test]
fn test_multi_file_loading() {
    let code = compile("debug");
    let r = module(&code, "r");
    assert!(r.contains("    pub use crate::string::APP_NAME;\n"));
    assert!(r.contains("    pub use crate::number::MAX_RETRIES;\n"));
    assert!(r.contains("    pub use crate::bool::DEBUG_MODE;\n"));
    assert!(r.contains("    pub use crate::color::PRIMARY;\n"));
    assert!(r.contains("    pub use crate::url::API_BASE;\n"));
    assert!(r.contains("    pub use crate::dimension::PADDING_SMALL;\n"));
    let first_kinds: Vec<&str> = code
        .lines()
        .filter(|l| l.starts_with("pub mod "))
        .map(|l| l.trim_start_matches("pub mod ").trim_end_matches(" {"))
        .collect();
    assert_eq!(first_kinds, vec!["bool", "color", "url", "dimension", "string", "array", "number", "r", "r_tests"]);
}

#[test]
fn test_color_references() {
    let code = compile("debug");
    let colors = module(&code, "color");
    assert!(colors.contains("    pub const ACCENT: &str = \"#FF5722\";\n"));
    assert!(colors.contains("    pub use crate::color::ACCENT as BUTTON_COLOR;\n"));
}

#[test]
fn test_flat_access_with_references() {
    let code = compile("debug");
    let r = module(&code, "r");
    assert!(r.contains("    pub use crate::string::FULL_API_URL;\n"));
    assert!(r.contains("    pub use crate::string::BASE_URL;\n"));
    assert!(r.contains("    pub use crate::color::BUTTON_COLOR;\n"));
    assert!(r.contains("    pub use crate::color::ACCENT;\n"));
    assert!(module(&code, "string").contains("    pub use crate::string::BASE_URL as FULL_API_URL;\n"));
}

#[test]
fn test_cross_type_resource_access() {
    let code = compile("debug");
    for kind in ["string", "color", "number", "bool"] {
        assert!(code.contains(&format!("\npub mod {kind} {{\n")), "{kind}");
    }
}

#[test]
fn namespaced_strings_and_refs() {
    let code = compile("debug");
    assert!(module(&code, "string").contains(
        "    pub mod auth {\n        pub mod errors {\n            pub const INVALID_CREDENTIALS: &str = \"Invalid credentials\";\n        }\n        pub const TITLE: &str = \"Login\";\n    }\n"
    ));
    let r = module(&code, "r");
    assert!(r.contains("            pub use crate::string::auth::errors::INVALID_CREDENTIALS;\n"));
    assert!(r.contains("        pub use crate::string::auth::TITLE;\n"));
}

#[test]
fn namespaced_colors_and_dimension() {
    let code = compile("debug");
    assert!(module(&code, "color").contains(
        "    pub mod ui {\n        pub mod colors {\n            pub const PRIMARY: &str = \"#3366FF\";\n        }\n    }\n"
    ));
    let r = module(&code, "r");
    assert!(r.contains("            pub use crate::color::ui::colors::PRIMARY;\n"));
    assert!(r.contains("            pub use crate::dimension::ui::dimens::PADDING;\n"));
    assert!(code.contains("            pub const PADDING: &str = \"16dp\";\n"));
}

#[test]
fn namespaced_arrays() {
    let code = compile("debug");
    let arrays = module(&code, "array");
    assert!(arrays.contains(
        "    pub mod lists {\n        pub const LANGS: &[&str] = &[\"en\", \"fr\", \"es\"];\n        pub const RATIOS: &[f64] = &[0.5, 1.0, 2.0];\n        pub const SMALL_NUMBERS: &[i64] = &[1, 2, 3];\n    }\n"
    ));
    assert!(module(&code, "r").contains("        pub use crate::array::lists::LANGS;\n"));
}

#[test]
fn test_r_tests_namespace_available() {
    let code = compile("debug");
    assert!(code.contains(
        "\n#[cfg(r_resources_has_tests)]\npub mod r_tests {\n    pub const TEST_DECIMAL: f64 = 123.456;\n    pub const TEST_LIMIT: i32 = 2147483647;\n    pub const TEST_ONLY_MESSAGE: &str = \"This exists only in tests\";\n}\n"
    ));
}

#[test]
fn template_function_name_is_lower_case() {
    let xml = r#"<resources><template name="Greeting-Text"><string name="Name"/>Hi {Name}</template></resources>"#;
    let code = build(&vec![RawResourceFile::new("v.xml".to_string(), xml.to_string(), false)]).unwrap();
    assert!(code.contains("    pub fn greeting_text(Name: &str) -> String {\n        format!(\"Hi {}\", Name)\n    }\n"));
    assert!(code.contains("    pub use crate::string::greeting_text;\n"));
}
