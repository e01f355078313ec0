use r_ressources::references::resolve_reference_path;
use r_ressources::utils::sanitize_identifier;

#[test]
fn test_sanitize_identifier() {
    assert_eq!(sanitize_identifier("hello-world"), "hello_world");
    assert_eq!(sanitize_identifier("app.name"), "app_name");
    assert_eq!(sanitize_identifier("my_var"), "my_var");
    assert_eq!(sanitize_identifier("test123"), "test123");
}

#[test]
fn ascii_characters_are_kept_or_replaced_by_their_class() {
    for code in 0..128_u8 {
        let c = code as char;
        let expected = if c.is_ascii_alphanumeric() || c == '_' { c } else { '_' };
        assert_eq!(sanitize_identifier(&c.to_string()), expected.to_string(), "{code}");
    }
    assert_eq!(sanitize_identifier("größe 1"), "größe_1");
}

#[test]
fn ascii_names_are_upper_cased_letter_by_letter() {
    for name in ["app_name", "Max9", "already_UPPER", "_", "a1b2"] {
        assert_eq!(
            resolve_reference_path("k", name, false),
            format!("k::{}", name.to_ascii_uppercase())
        );
    }
    assert_eq!(resolve_reference_path("k", "straße", false), "k::STRASSE");
}
