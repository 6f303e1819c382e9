use jni_bindgen::inbound::Argument;
use jni_bindgen::inbound::Context;
use jni_bindgen::inbound::Delimiter;
use jni_bindgen::inbound::Return;
use jni_bindgen::inbound::Token;

fn ident(s: &str) -> Token {
    Token::Ident(s.to_string())
}

fn punct(c: char) -> Token {
    Token::Punct(c)
}

fn group(d: Delimiter, toks: Vec<Token>) -> Token {
    Token::Group(d, toks)
}

/// The token form of `impl class a.b.C { <methods> }`.
fn impl_class_tokens(methods: Vec<Token>) -> Vec<Token> {
    vec![
        ident("impl"),
        ident("class"),
        ident("a"),
        punct('.'),
        ident("b"),
        punct('.'),
        ident("C"),
        group(Delimiter::Brace, methods),
    ]
}

fn int_method(name: &str, arg_ty: &str) -> Vec<Token> {
    vec![
        ident("int"),
        ident(name),
        group(
            Delimiter::Parenthesis,
            vec![
                punct('&'),
                ident("env"),
                punct(','),
                ident("this"),
                punct(','),
                ident(arg_ty),
                ident("x"),
            ],
        ),
        group(Delimiter::Brace, vec![ident("x")]),
    ]
}

#[test]
fn argument_derives_types_and_code() {
    let a = Argument::new("x".to_string(), "int".to_string());
    assert_eq!(a.jni, "I");
    assert_eq!(a.outer, "::jni_sys::jint");
    assert_eq!(a.inner, "i32");

    let b = Argument::new("s".to_string(), "java.lang.String".to_string());
    assert_eq!(b.jni, "Ljava_lang_String_2");
    assert_eq!(b.outer, "::jni_sys::jobject");
    assert_eq!(b.inner, "::jni_sys::jobject");
}

#[test]
fn return_type_mapping() {
    let r = Return::new("void".to_string());
    assert_eq!(r.outer, "()");
    assert_eq!(r.inner, "()");
    let r = Return::new("double".to_string());
    assert_eq!(r.outer, "::jni_sys::jdouble");
    assert_eq!(r.inner, "f64");
}

#[test]
fn overloaded_shims_get_distinct_linkage_symbols() {
    let mut methods = int_method("foo", "int");
    methods.extend(int_method("foo", "double"));
    let toks = impl_class_tokens(methods);
    let mut ctx = Context::new(Vec::new());
    let mut pos: usize = 0;
    ctx.on_unsafe(&toks, &mut pos);
    assert!(ctx.errors.is_empty(), "errors: {:?}", ctx.errors);
    assert!(ctx.output.contains("fn Java_a_b_C_foo__I("));
    assert!(ctx.output.contains("fn Java_a_b_C_foo__D("));
}

#[test]
fn shim_wraps_inner_call_in_boundary_guard() {
    let toks = impl_class_tokens(int_method("frob", "int"));
    let mut ctx = Context::new(Vec::new());
    let mut pos: usize = 0;
    ctx.on_unsafe(&toks, &mut pos);
    assert!(ctx.errors.is_empty());
    assert!(ctx.output.contains(
        "let r = ::std::panic::catch_unwind(|| frob(env, this, x, ));"
    ));
    assert!(ctx.output.contains("env.unwrap_jni_glue_result(r)"));
    assert_eq!(ctx.output.matches("frob(env, this, x, )").count(), 1);
}

#[test]
fn static_method_takes_class_parameter() {
    let methods = vec![
        ident("static"),
        ident("int"),
        ident("stat"),
        group(
            Delimiter::Parenthesis,
            vec![punct('&'), ident("env"), punct(','), ident("class")],
        ),
        group(Delimiter::Brace, vec![]),
    ];
    let toks = impl_class_tokens(methods);
    let mut ctx = Context::new(Vec::new());
    let mut pos: usize = 0;
    ctx.on_unsafe(&toks, &mut pos);
    assert!(ctx.errors.is_empty(), "errors: {:?}", ctx.errors);
    assert!(ctx.output.contains("class: ::jni_sys::jclass"));
    assert!(ctx.output.contains("fn Java_a_b_C_stat("));
}

#[test]
fn imports_resolve_class_names() {
    let imports = vec![("C".to_string(), "a.b.C".to_string())];
    let toks = vec![
        ident("impl"),
        ident("class"),
        ident("C"),
        group(Delimiter::Brace, int_method("foo", "int")),
    ];
    let mut ctx = Context::new(imports);
    let mut pos: usize = 0;
    ctx.on_unsafe(&toks, &mut pos);
    assert!(ctx.errors.is_empty());
    assert!(ctx.output.contains("fn Java_a_b_C_foo__I("));
}

#[test]
fn malformed_method_reports_error_and_parsing_resumes() {
    let mut methods = vec![
        ident("int"),
        punct('!'),
        punct(';'),
    ];
    methods.extend(int_method("good", "int"));
    let toks = impl_class_tokens(methods);
    let mut ctx = Context::new(Vec::new());
    let mut pos: usize = 0;
    ctx.on_unsafe(&toks, &mut pos);
    assert_eq!(ctx.errors.len(), 1);
    assert_eq!(ctx.errors[0].message, "Expected:  javaMethodName");
    assert!(ctx.output.contains("fn Java_a_b_C_good__I("));
}

#[test]
fn missing_impl_keyword_is_one_error() {
    let toks = vec![ident("struct"), punct(';')];
    let mut ctx = Context::new(Vec::new());
    let mut pos: usize = 0;
    ctx.on_unsafe(&toks, &mut pos);
    assert_eq!(ctx.errors.len(), 1);
    assert_eq!(
        ctx.errors[0].message,
        "Expected:  impl class some.java.ClassName { ... }"
    );
    assert!(ctx.output.is_empty());
}

#[test]
fn annotations_static_and_duplicates() {
    let toks = vec![ident("public"), ident("static"), ident("static"), ident("int")];
    let mut ctx = Context::new(Vec::new());
    let mut pos: usize = 0;
    let a = ctx.parse_method_annotations(&toks, &mut pos);
    assert!(a.is_static);
    assert_eq!(pos, 3);
    assert_eq!(ctx.errors.len(), 1);
    assert_eq!(ctx.errors[0].message, "Duplicate static keyword");
    assert_eq!(ctx.errors[0].at, 2);
}

#[test]
fn annotation_markers_are_skipped() {
    let toks = vec![punct('@'), ident("Override"), ident("int")];
    let mut ctx = Context::new(Vec::new());
    let mut pos: usize = 0;
    let a = ctx.parse_method_annotations(&toks, &mut pos);
    assert!(!a.is_static);
    assert_eq!(pos, 2);
    assert!(ctx.errors.is_empty());
}

#[test]
fn arguments_list_requires_env_header() {
    let mut ctx = Context::new(Vec::new());
    let toks = vec![ident("env")];
    assert!(ctx.parse_method_arguments_list(&toks, false).is_err());
    assert_eq!(ctx.errors.len(), 1);
    assert_eq!(ctx.errors[0].message, "Expected:  &env");
}

#[test]
fn arguments_list_accepts_explicit_lifetime() {
    let mut ctx = Context::new(Vec::new());
    let toks = vec![
        punct('&'),
        punct('\''),
        ident("env"),
        ident("env"),
        punct(','),
        ident("this"),
        punct(','),
        ident("long"),
        ident("n"),
    ];
    let args = ctx.parse_method_arguments_list(&toks, false).unwrap();
    assert!(ctx.errors.is_empty());
    assert_eq!(args.len(), 1);
    assert_eq!(args[0].name, "n");
    assert_eq!(args[0].jni, "J");
}

#[test]
fn arguments_list_reports_missing_comma() {
    let mut ctx = Context::new(Vec::new());
    let toks = vec![punct('&'), ident("env"), ident("this")];
    assert!(ctx.parse_method_arguments_list(&toks, false).is_err());
    assert_eq!(ctx.errors.len(), 1);
    assert_eq!(ctx.errors[0].message, "Expected:  ',' after &env");
}

#[test]
fn consume_resolved_identifier_uses_imports() {
    let ctx = Context::new(vec![("String".to_string(), "java.lang.String".to_string())]);
    let toks = vec![ident("String"), ident("rest")];
    let mut pos: usize = 0;
    let r = ctx.consume_resolved_java_identifier(&toks, &mut pos);
    assert_eq!(r, "java.lang.String");
    assert_eq!(pos, 1);

    let toks = vec![ident("a"), punct('.'), ident("b"), ident("x")];
    let mut pos: usize = 0;
    let r = ctx.consume_resolved_java_identifier(&toks, &mut pos);
    assert_eq!(r, "a.b");
    assert_eq!(pos, 3);
}

#[test]
fn wrong_class_keyword_is_one_error() {
    let toks = vec![ident("impl"), ident("klass"), ident("X"), punct(';')];
    let mut ctx = Context::new(Vec::new());
    let mut pos: usize = 0;
    ctx.on_unsafe(&toks, &mut pos);
    assert_eq!(ctx.errors.len(), 1);
    assert_eq!(
        ctx.errors[0].message,
        "Expected:  class some.java.ClassName { ... }"
    );
    assert!(ctx.output.is_empty());
}

#[test]
fn static_list_with_this_keyword_is_reported_but_parsed() {
    let mut ctx = Context::new(Vec::new());
    let toks = vec![
        punct('&'),
        ident("env"),
        punct(','),
        ident("this"),
        punct(','),
        ident("int"),
        ident("x"),
    ];
    let args = ctx.parse_method_arguments_list(&toks, true).unwrap();
    assert_eq!(args.len(), 1);
    assert_eq!(ctx.errors.len(), 1);
    assert_eq!(ctx.errors[0].message, "Expected:  class");
}

#[test]
fn missing_body_skips_to_next_method() {
    let mut methods = vec![
        ident("int"),
        ident("bad"),
        group(
            Delimiter::Parenthesis,
            vec![punct('&'), ident("env"), punct(','), ident("this")],
        ),
        punct(';'),
    ];
    methods.extend(int_method("good", "int"));
    let toks = impl_class_tokens(methods);
    let mut ctx = Context::new(Vec::new());
    let mut pos: usize = 0;
    ctx.on_unsafe(&toks, &mut pos);
    assert_eq!(ctx.errors.len(), 1);
    assert_eq!(
        ctx.errors[0].message,
        "Expected:  {...rust-style function body...}"
    );
    assert!(!ctx.output.contains("Java_a_b_C_bad"));
    assert!(ctx.output.contains("fn Java_a_b_C_good__I("));
}
