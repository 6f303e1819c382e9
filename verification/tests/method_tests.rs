use jni_bindgen::config::CodegenConfig;
use jni_bindgen::config::Config;
use jni_bindgen::config::EmitContext;
use jni_bindgen::config::StaticEnvStyle;
use jni_bindgen::mangling::MethodManglingStyle;
use jni_bindgen::method::ACC_BRIDGE;
use jni_bindgen::method::ACC_PUBLIC;
use jni_bindgen::method::ACC_STATIC;
use jni_bindgen::method::ACC_VARARGS;
use jni_bindgen::method::Method;
use jni_bindgen::method::MethodAccessFlags;

fn context() -> EmitContext {
    EmitContext::new(Config::new(CodegenConfig {
        method_naming_style: MethodManglingStyle::Java,
        static_env: StaticEnvStyle::Explicit,
    }))
}

#[test]
fn classification_predicates() {
    let ctx = context();
    let m = Method::new(
        &ctx,
        "a/b/C",
        "<init>",
        "()V",
        MethodAccessFlags { bits: ACC_PUBLIC },
    );
    assert!(m.is_constructor());
    assert!(!m.is_static_init());
    assert!(m.is_public());
    assert!(!m.is_protected());
    assert!(!m.is_private());
    assert!(!m.is_static());
    assert!(!m.is_varargs());
    assert!(!m.is_bridge());
}

#[test]
fn static_initializer_and_flags() {
    let ctx = context();
    let m = Method::new(
        &ctx,
        "a/b/C",
        "<clinit>",
        "()V",
        MethodAccessFlags { bits: ACC_STATIC | ACC_VARARGS | ACC_BRIDGE },
    );
    assert!(m.is_static_init());
    assert!(m.is_static());
    assert!(m.is_varargs());
    assert!(m.is_bridge());
    assert!(m.is_private());
    assert_eq!(m.rust_name(), None);
}

#[test]
fn constructor_mangles_to_new() {
    let ctx = context();
    let m = Method::new(
        &ctx,
        "a/b/C",
        "<init>",
        "()V",
        MethodAccessFlags { bits: ACC_PUBLIC },
    );
    assert_eq!(m.rust_name(), Some("new"));
}

#[test]
fn reverting_the_style_reproduces_the_name() {
    let ctx = context();
    let mut m = Method::new(
        &ctx,
        "a/b/C",
        "foo",
        "(ID)V",
        MethodAccessFlags { bits: ACC_PUBLIC },
    );
    assert_eq!(m.mangling_style(), MethodManglingStyle::Java);
    let original = m.rust_name().map(|s| s.to_string());
    assert_eq!(original.as_deref(), Some("foo"));

    m.set_mangling_style(MethodManglingStyle::JavaShortSignature);
    assert_eq!(m.mangling_style(), MethodManglingStyle::JavaShortSignature);
    assert_eq!(m.rust_name(), Some("foo__ID"));

    m.set_mangling_style(MethodManglingStyle::Java);
    assert_eq!(m.mangling_style(), MethodManglingStyle::Java);
    assert_eq!(m.rust_name(), original.as_deref());
}

#[test]
fn accessors_expose_the_metadata() {
    let ctx = context();
    let m = Method::new(
        &ctx,
        "a/b/C",
        "foo",
        "(I)V",
        MethodAccessFlags { bits: ACC_PUBLIC },
    );
    assert_eq!(m.java_class(), "a/b/C");
    assert_eq!(m.java_name(), "foo");
    assert_eq!(m.java_desc(), "(I)V");
    assert_eq!(m.access_flags().bits, ACC_PUBLIC);
}
