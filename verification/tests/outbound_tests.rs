use jni_bindgen::config::CodegenConfig;
use jni_bindgen::config::Config;
use jni_bindgen::config::DocUrl;
use jni_bindgen::config::EmitContext;
use jni_bindgen::config::StaticEnvStyle;
use jni_bindgen::mangling::MethodManglingStyle;
use jni_bindgen::method::ACC_PUBLIC;
use jni_bindgen::method::ACC_STATIC;
use jni_bindgen::method::ACC_VARARGS;
use jni_bindgen::method::Method;
use jni_bindgen::method::MethodAccessFlags;

fn context() -> EmitContext {
    EmitContext::new(Config::new(CodegenConfig {
        method_naming_style: MethodManglingStyle::Java,
        static_env: StaticEnvStyle::Explicit,
    }))
}

#[test]
fn emits_working_instance_wrapper() {
    let ctx = context();
    let m = Method::new(
        &ctx,
        "a/b/C",
        "foo",
        "()V",
        MethodAccessFlags { bits: ACC_PUBLIC },
    );
    let r = m.emit(&ctx, "");
    assert!(r.reject_reasons.is_empty());
    let expected = "\n        pub fn foo<'env>(&'env self) -> __jni_bindgen::Result<()> {\n            // class.name() == \"a/b/C\", method.access_flags() == 0x0001, .name() == \"foo\", .descriptor() == \"()V\"\n            unsafe {\n                let __jni_args = [];\n                let __jni_env = __jni_bindgen::Env::from_ptr(self.0.env);\n                let (__jni_class, __jni_method) = __jni_env.require_class_method(\"a/b/C\\0\", \"foo\\0\", \"()V\\0\");\n                __jni_env.call_void_method_a(self.0.object, __jni_method, __jni_args.as_ptr())\n            }\n        }\n";
    assert_eq!(r.text, expected);
}

#[test]
fn generation_is_deterministic() {
    let ctx = context();
    let m = Method::new(
        &ctx,
        "a/b/C",
        "foo",
        "(IJ[D)Ljava/lang/String;",
        MethodAccessFlags { bits: ACC_PUBLIC },
    );
    let r1 = m.emit(&ctx, "    ");
    let r2 = m.emit(&ctx, "    ");
    assert_eq!(r1.text, r2.text);
    assert_eq!(r1.reject_reasons, r2.reject_reasons);
}

#[test]
fn collects_all_gate_reasons_in_stable_order() {
    let ctx = context();
    let m = Method::new(
        &ctx,
        "a/b/C",
        "foo",
        "()V",
        MethodAccessFlags { bits: ACC_VARARGS },
    );
    let r = m.emit(&ctx, "");
    assert_eq!(
        r.reject_reasons,
        vec![
            "Non-public method".to_string(),
            "Marked as varargs - haven't decided on how I want to handle this.".to_string(),
        ]
    );
    assert!(r.text.contains("// Not emitting: Non-public method"));
    assert!(r.text.contains("        // fn foo<'env>"));
}

#[test]
fn void_argument_is_rejected_with_its_index() {
    let ctx = context();
    let m = Method::new(
        &ctx,
        "a/b/C",
        "foo",
        "(IV)V",
        MethodAccessFlags { bits: ACC_PUBLIC },
    );
    let r = m.emit(&ctx, "");
    assert_eq!(
        r.reject_reasons,
        vec!["Void arguments aren't a thing: arg1".to_string()]
    );
}

#[test]
fn invalid_descriptor_falls_back_to_trivial_shape() {
    let ctx = context();
    let m = Method::new(
        &ctx,
        "a/b/C",
        "foo",
        "(",
        MethodAccessFlags { bits: ACC_PUBLIC },
    );
    let r = m.emit(&ctx, "");
    assert_eq!(r.reject_reasons, vec!["Invalid method descriptor".to_string()]);
    assert!(r.text.contains("fn foo<'env>(&'env self) -> __jni_bindgen::Result<()>"));
}

#[test]
fn constructor_with_void_return_synthesizes_owned_reference() {
    let mut ctx = context();
    ctx.rust_paths.push(("a/b/C".to_string(), "a::b::C".to_string()));
    let m = Method::new(
        &ctx,
        "a/b/C",
        "<init>",
        "()V",
        MethodAccessFlags { bits: ACC_PUBLIC },
    );
    let r = m.emit(&ctx, "");
    assert!(r.reject_reasons.is_empty());
    assert!(r.text.contains("pub fn new<'env>(__jni_env: &'env __jni_bindgen::Env)"));
    assert!(r.text.contains("-> __jni_bindgen::Result<__jni_bindgen::Local<'env, a::b::C>>"));
    assert!(r.text.contains("__jni_env.new_object_a(__jni_class, __jni_method"));
}

#[test]
fn constructor_with_non_void_return_is_malformed() {
    let mut ctx = context();
    ctx.rust_paths.push(("a/b/C".to_string(), "a::b::C".to_string()));
    let m = Method::new(
        &ctx,
        "a/b/C",
        "<init>",
        "()I",
        MethodAccessFlags { bits: ACC_PUBLIC },
    );
    let r = m.emit(&ctx, "");
    assert_eq!(
        r.reject_reasons,
        vec!["Constructor should've returned void".to_string()]
    );
}

#[test]
fn unresolved_argument_type_is_a_reason() {
    let ctx = context();
    let m = Method::new(
        &ctx,
        "a/b/C",
        "foo",
        "(Ljava/x/Y;)V",
        MethodAccessFlags { bits: ACC_PUBLIC },
    );
    let r = m.emit(&ctx, "");
    assert_eq!(
        r.reject_reasons,
        vec!["Failed to resolve JNI path to Rust path for argument type".to_string()]
    );
}

#[test]
fn static_method_uses_static_lookup_and_call() {
    let ctx = context();
    let m = Method::new(
        &ctx,
        "a/b/C",
        "foo",
        "(I)I",
        MethodAccessFlags { bits: ACC_PUBLIC | ACC_STATIC },
    );
    let r = m.emit(&ctx, "");
    assert!(r.reject_reasons.is_empty());
    assert!(r.text.contains(
        "pub fn foo<'env>(__jni_env: &'env __jni_bindgen::Env, arg0: i32)"
    ));
    assert!(r.text.contains("require_class_static_method"));
    assert!(r.text.contains("call_static_int_method_a(__jni_class"));
    assert!(r.text.contains(
        "let __jni_args = [__jni_bindgen::AsJValue::as_jvalue(&arg0)];"
    ));
}

#[test]
fn resolved_object_argument_is_converted() {
    let mut ctx = context();
    ctx.rust_paths.push((
        "java/lang/String".to_string(),
        "java::lang::String".to_string(),
    ));
    let m = Method::new(
        &ctx,
        "a/b/C",
        "foo",
        "(Ljava/lang/String;)V",
        MethodAccessFlags { bits: ACC_PUBLIC },
    );
    let r = m.emit(&ctx, "");
    assert!(r.reject_reasons.is_empty());
    assert!(r.text.contains(
        "arg0: impl __jni_bindgen::std::convert::Into<\
         __jni_bindgen::std::option::Option<&'env java::lang::String>>"
    ));
    assert!(r.text.contains("__jni_bindgen::AsJValue::as_jvalue(&arg0.into())"));
}

#[test]
fn implicit_static_env_style_is_rejected_not_miscompiled() {
    let mut ctx = context();
    ctx.config.codegen.static_env = StaticEnvStyle::Implicit;
    let m = Method::new(
        &ctx,
        "a/b/C",
        "foo",
        "()V",
        MethodAccessFlags { bits: ACC_PUBLIC | ACC_STATIC },
    );
    let r = m.emit(&ctx, "");
    assert_eq!(
        r.reject_reasons,
        vec!["StaticEnvStyle::Implicit not yet implemented".to_string()]
    );
}

#[test]
fn ignore_and_rename_are_independent() {
    let mut ctx = context();
    ctx.config.ignore_classes.push("a/b/C".to_string());
    ctx.config
        .rename_class_methods
        .push(("a/b/C\u{1f}foo".to_string(), "frob".to_string()));
    let m = Method::new(
        &ctx,
        "a/b/C",
        "foo",
        "()V",
        MethodAccessFlags { bits: ACC_PUBLIC },
    );
    let r = m.emit(&ctx, "");
    assert_eq!(r.reject_reasons, vec!["[[ignore]]d".to_string()]);
    assert!(r.text.contains("fn frob<'env>"));
}

#[test]
fn known_documentation_is_emitted_as_a_comment() {
    let mut ctx = context();
    ctx.known_docs.push(DocUrl {
        class: "a/b/C".to_string(),
        method: "foo".to_string(),
        descriptor: "()V".to_string(),
        label: "C.foo".to_string(),
        url: "https://example.invalid/C.foo".to_string(),
    });
    let m = Method::new(
        &ctx,
        "a/b/C",
        "foo",
        "()V",
        MethodAccessFlags { bits: ACC_PUBLIC },
    );
    let r = m.emit(&ctx, "");
    assert!(r.text.contains("/// [C.foo](https://example.invalid/C.foo)\n"));
}

#[test]
fn mangle_failure_falls_back_to_raw_name() {
    let ctx = context();
    let m = Method::new(
        &ctx,
        "a/b/C",
        "enum",
        "()V",
        MethodAccessFlags { bits: ACC_PUBLIC },
    );
    let r = m.emit(&ctx, "");
    assert_eq!(
        r.reject_reasons,
        vec!["Failed to mangle method name".to_string()]
    );
    assert!(r.text.contains("fn enum<'env>"));
}

#[test]
fn short_signature_style_flows_into_the_emitted_name() {
    let mut ctx = context();
    ctx.config.codegen.method_naming_style = MethodManglingStyle::JavaShortSignature;
    let m = Method::new(
        &ctx,
        "a/b/C",
        "foo",
        "(I)V",
        MethodAccessFlags { bits: ACC_PUBLIC },
    );
    let r = m.emit(&ctx, "");
    assert!(r.reject_reasons.is_empty());
    assert!(r.text.contains("pub fn foo__I<'env>"));
}
