use jni_bindgen::descriptor::BasicType;
use jni_bindgen::descriptor::FieldType;
use jni_bindgen::mangling::MethodManglingStyle;
use jni_bindgen::mangling::escape_class_fqn;
use jni_bindgen::mangling::linkage_symbol_string;
use jni_bindgen::mangling::mangle;
use jni_bindgen::mangling::valid_rust_ident_exec;

#[test]
fn escape_replaces_package_separators() {
    assert_eq!(escape_class_fqn("a.b.C"), "a_b_C");
    assert_eq!(escape_class_fqn("java/lang/String"), "java_lang_String");
    assert_eq!(escape_class_fqn("Plain"), "Plain");
}

#[test]
fn escape_encodes_special_characters() {
    assert_eq!(escape_class_fqn("a$b"), "a_00024b");
    assert_eq!(escape_class_fqn("a-b"), "a_0002db");
}

#[test]
fn linkage_symbol_without_parameters_has_no_suffix() {
    let symbol = linkage_symbol_string("a.b.C", "frob", &Vec::new());
    assert_eq!(symbol, "Java_a_b_C_frob");
}

#[test]
fn linkage_symbols_disambiguate_overloads() {
    let int_params = vec![FieldType::Single(BasicType::Int)];
    let double_params = vec![FieldType::Single(BasicType::Double)];
    let s1 = linkage_symbol_string("a.b.C", "foo", &int_params);
    let s2 = linkage_symbol_string("a.b.C", "foo", &double_params);
    assert_eq!(s1, "Java_a_b_C_foo__I");
    assert_eq!(s2, "Java_a_b_C_foo__D");
    assert_ne!(s1, s2);
}

#[test]
fn linkage_symbol_encodes_class_and_array_parameters() {
    let params = vec![
        FieldType::Single(BasicType::Class("java/lang/String".to_string())),
        FieldType::Array { levels: 1, inner: BasicType::Int },
    ];
    let s = linkage_symbol_string("a.b.C", "bar", &params);
    assert_eq!(s, "Java_a_b_C_bar__Ljava_lang_String_2_3I");
}

#[test]
fn java_style_keeps_plain_names() {
    assert_eq!(
        mangle(MethodManglingStyle::Java, "frobnicate", "()V").unwrap(),
        "frobnicate"
    );
}

#[test]
fn java_style_maps_constructor_to_new() {
    assert_eq!(mangle(MethodManglingStyle::Java, "<init>", "()V").unwrap(), "new");
}

#[test]
fn mangle_fails_on_keywords_and_bad_identifiers() {
    assert!(mangle(MethodManglingStyle::Java, "match", "()V").is_err());
    assert!(mangle(MethodManglingStyle::Java, "loop", "()V").is_err());
    assert!(mangle(MethodManglingStyle::Java, "1abc", "()V").is_err());
    assert!(mangle(MethodManglingStyle::Java, "", "()V").is_err());
    assert!(mangle(MethodManglingStyle::Java, "_", "()V").is_err());
    assert!(mangle(MethodManglingStyle::Java, "<clinit>", "()V").is_err());
}

#[test]
fn short_signature_style_appends_parameter_codes() {
    assert_eq!(
        mangle(MethodManglingStyle::JavaShortSignature, "foo", "(ID)V").unwrap(),
        "foo__ID"
    );
    assert_eq!(
        mangle(MethodManglingStyle::JavaShortSignature, "foo", "()V").unwrap(),
        "foo"
    );
    assert_eq!(
        mangle(MethodManglingStyle::JavaShortSignature, "<init>", "(J)V").unwrap(),
        "new__J"
    );
}

#[test]
fn short_signature_style_fails_on_bad_descriptor() {
    assert!(mangle(MethodManglingStyle::JavaShortSignature, "foo", "(").is_err());
}

#[test]
fn identifier_validity() {
    assert!(valid_rust_ident_exec("abc"));
    assert!(valid_rust_ident_exec("_abc1"));
    assert!(!valid_rust_ident_exec("a-b"));
    assert!(!valid_rust_ident_exec("fn"));
    assert!(!valid_rust_ident_exec("Self"));
}
