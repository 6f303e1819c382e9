use jni_bindgen::config::CodegenConfig;
use jni_bindgen::config::Config;
use jni_bindgen::config::EmitContext;
use jni_bindgen::config::StaticEnvStyle;
use jni_bindgen::config::make_key2;
use jni_bindgen::config::make_key3;
use jni_bindgen::config::map_lookup_exec;
use jni_bindgen::config::set_contains_exec;
use jni_bindgen::mangling::MethodManglingStyle;
use jni_bindgen::text::push_decimal;
use jni_bindgen::text::str_eq;

#[test]
fn keys_join_with_the_separator() {
    assert_eq!(make_key2("a/b/C", "foo"), "a/b/C\u{1f}foo");
    assert_eq!(make_key3("a/b/C", "foo", "()V"), "a/b/C\u{1f}foo\u{1f}()V");
}

#[test]
fn set_membership() {
    let set = vec!["x".to_string(), "y".to_string()];
    assert!(set_contains_exec(&set, "x"));
    assert!(set_contains_exec(&set, "y"));
    assert!(!set_contains_exec(&set, "z"));
}

#[test]
fn lookup_returns_the_first_match() {
    let m = vec![
        ("k".to_string(), "first".to_string()),
        ("k".to_string(), "second".to_string()),
        ("other".to_string(), "third".to_string()),
    ];
    assert_eq!(map_lookup_exec(&m, "k"), Some("first".to_string()));
    assert_eq!(map_lookup_exec(&m, "other"), Some("third".to_string()));
    assert_eq!(map_lookup_exec(&m, "missing"), None);
}

#[test]
fn class_path_resolution() {
    let mut ctx = EmitContext::new(Config::new(CodegenConfig {
        method_naming_style: MethodManglingStyle::Java,
        static_env: StaticEnvStyle::Explicit,
    }));
    ctx.rust_paths.push(("a/b/C".to_string(), "a::b::C".to_string()));
    assert_eq!(ctx.java_to_rust_path("a/b/C").unwrap(), "a::b::C");
    assert!(ctx.java_to_rust_path("a/b/D").is_err());
}

#[test]
fn string_equality_and_decimal_rendering() {
    assert!(str_eq("abc", "abc"));
    assert!(!str_eq("abc", "abd"));
    assert!(!str_eq("abc", "ab"));
    assert!(str_eq("", ""));

    let mut s = String::new();
    push_decimal(&mut s, 0);
    assert_eq!(s, "0");
    let mut s = String::new();
    push_decimal(&mut s, 9041);
    assert_eq!(s, "9041");
}
