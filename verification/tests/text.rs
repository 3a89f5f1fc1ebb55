use active_deps::cfg::config_key;
use active_deps::parse::check_plain;
use active_deps::text::{chars_of, split_in_two, starts_with, text_eq, to_upper, to_upper_char};

#[test]
fn upper_case_is_ascii_only() {
    assert_eq!(to_upper_char('a'), 'A');
    assert_eq!(to_upper_char('z'), 'Z');
    assert_eq!(to_upper_char('A'), 'A');
    assert_eq!(to_upper_char('_'), '_');
    assert_eq!(to_upper_char('`'), '`');
    assert_eq!(to_upper_char('{'), '{');
    assert_eq!(to_upper_char('é'), 'é');
    assert_eq!(to_upper("target_os"), "TARGET_OS");
    assert_eq!(to_upper("Target-Has_atomic64é"), "TARGET-HAS_ATOMIC64é");
    assert_eq!(to_upper(""), "");
}

#[test]
fn config_key_has_prefix_and_upper_case() {
    assert_eq!(config_key("target_os"), "CARGO_CFG_TARGET_OS");
    assert_eq!(config_key(""), "CARGO_CFG_");
}

#[test]
fn texts_compare_by_content() {
    assert!(text_eq("", ""));
    assert!(text_eq("any", "any"));
    assert!(!text_eq("any", "all"));
    assert!(!text_eq("any", "an"));
    assert!(!text_eq("an", "any"));
    assert!(text_eq("é∀", "é∀"));
    assert!(!text_eq("é", "e"));
}

#[test]
fn prefix_test() {
    assert!(starts_with("cfg(unix)", "cfg"));
    assert!(starts_with("cfg", "cfg"));
    assert!(starts_with("cfg", ""));
    assert!(!starts_with("cf", "cfg"));
    assert!(!starts_with("xcfg", "cfg"));
    assert!(!starts_with("Cfg(unix)", "cfg"));
    assert!(!starts_with("", "cfg"));
}

#[test]
fn split_in_exactly_two() {
    let pair = |a: &str, b: &str| Some((a.to_string(), b.to_string()));
    assert_eq!(split_in_two("foo/ext1", '/'), pair("foo", "ext1"));
    assert_eq!(split_in_two("/", '/'), pair("", ""));
    assert_eq!(split_in_two("a/", '/'), pair("a", ""));
    assert_eq!(split_in_two("/b", '/'), pair("", "b"));
    assert_eq!(split_in_two("é/∀x", '/'), pair("é", "∀x"));
    assert_eq!(split_in_two("", '/'), None);
    assert_eq!(split_in_two("std", '/'), None);
    assert_eq!(split_in_two("a/b/c", '/'), None);
    assert_eq!(split_in_two("a//", '/'), None);
}

#[test]
fn characters_in_order() {
    assert_eq!(chars_of("héllo"), vec!['h', 'é', 'l', 'l', 'o']);
    assert_eq!(chars_of(""), Vec::<char>::new());
}

#[test]
fn plain_text() {
    for text in [
        "",
        "cfg(unix)",
        "cfg(target_os = \"linux\")",
        "cfg(any(target_arch=\"x86_64\",target_vendor = \"pc\"))",
        "cfg(feature = \"crt-static: 1/2 é\")",
        "cfg(a1 = \"\")\n",
        "cfg(a = \"x\"y)",
        "cfg(a = \"unterminated",
    ] {
        assert!(check_plain(text), "{:?}", text);
    }
    for text in [
        "cfg(a = c\"x\")",
        "cfg(a = r\"x\")",
        "cfg(a = b\"x\")",
        "cfg(a = \"x\\\"\")",
        "cfg(a = 1)",
        "cfg(1a)",
        "cfg(a = \"x\"1)",
        "cfg(a::b)",
        "cfg(a = 'x')",
        "cfg(a = #)",
        "cfg(a-b)",
        "cfg(é)",
        "cfg(a)\r\n",
    ] {
        assert!(!check_plain(text), "{:?}", text);
    }
}
