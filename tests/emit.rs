use lucide_icons::ident::NameError;
use lucide_icons::integrity::{digest_of, digests_match, is_fresh};
use lucide_icons::pipeline::generate_code;
use lucide_icons::snippet::{gen_snippet, raw_hashes};

const EXPECTED_BOX: &str = "#[derive(Debug, Clone, Copy)]\npub struct Box;\n\nimpl std::fmt::Display for Box {\n\tfn fmt(&self, f: &mut std::fmt::Formatter) -> Result<(), std::fmt::Error> {\n\t\tf.write_str(r#\"<svg/>\"#)\n\t}\n}\n\nimpl LucideIcon for Box {\n\tfn to_svg(&self) -> String {\n\t\tself.to_string()\n\t}\n}\n";

#[test]
fn snippet_text_is_exact() {
    assert_eq!(gen_snippet("Box", "<svg/>"), EXPECTED_BOX);
}

#[test]
fn raw_delimiter_avoids_content() {
    assert_eq!(raw_hashes("<svg/>"), 1);
    assert_eq!(raw_hashes("a\"#b"), 2);
    assert_eq!(raw_hashes("a\"#b\"##c"), 3);
    assert_eq!(raw_hashes("\"#"), 2);
    let s = gen_snippet("Q", "x\"#y");
    assert!(s.contains("r##\"x\"#y\"##"));
}

#[test]
fn sha256_digest_of_empty_content() {
    assert_eq!(digest_of(""), "sha256-47DEQpj8HBSa+/TImW+5JCeuQeRkm5NMpJWZG3hSuFU=");
    assert_ne!(digest_of("<svg/>"), "<svg/>");
}

#[test]
fn digest_comparison_is_textual() {
    assert!(digests_match("sha256-abc", "sha256-abc"));
    assert!(!digests_match("sha256-abc", "sha256-abd"));
    assert!(!digests_match("sha256-abc", "sha512-abc"));
    assert!(!digests_match("sha256-abc", "sha256-abc "));
}

#[test]
fn freshness_follows_digest() {
    let d = digest_of("<svg/>");
    assert!(is_fresh("<svg/>", &d));
    assert!(!is_fresh("<svg />", &d));
}

#[test]
fn generated_file_joins_snippets_in_order() {
    let paths = vec!["/icons/box.svg".to_string(), "/icons/icon-2-5.svg".to_string()];
    let contents = vec!["<svg/>".to_string(), "<svg>2</svg>".to_string()];
    let code = generate_code(&paths, &contents).unwrap();
    let expected = format!("{}\n{}", gen_snippet("Box", "<svg/>"), gen_snippet("Icon2_5", "<svg>2</svg>"));
    assert_eq!(code, expected);
}

#[test]
fn generated_file_refuses_collisions() {
    let paths = vec!["/icons/a-1.svg".to_string(), "/icons/a1.svg".to_string()];
    let contents = vec!["x".to_string(), "y".to_string()];
    assert_eq!(generate_code(&paths, &contents), Err(NameError::Collision(0, 1)));
}
