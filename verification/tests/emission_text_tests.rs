use jni_bindgen::inbound::Context;
use jni_bindgen::inbound::Delimiter;
use jni_bindgen::inbound::Token;
use jni_bindgen::outbound::emit_cstr;

#[test]
fn cstr_literals_are_nul_terminated_and_escaped() {
    assert_eq!(emit_cstr("a/b/C"), "\"a/b/C\\0\"");
    assert_eq!(emit_cstr(""), "\"\\0\"");
    assert_eq!(emit_cstr("a\"b"), "\"a\\\"b\\0\"");
    assert_eq!(emit_cstr("a\\b"), "\"a\\\\b\\0\"");
}

#[test]
fn shim_body_keeps_nested_structure() {
    let toks = vec![
        Token::Ident("impl".to_string()),
        Token::Ident("class".to_string()),
        Token::Ident("X".to_string()),
        Token::Group(
            Delimiter::Brace,
            vec![
                Token::Ident("int".to_string()),
                Token::Ident("f".to_string()),
                Token::Group(
                    Delimiter::Parenthesis,
                    vec![
                        Token::Punct('&'),
                        Token::Ident("env".to_string()),
                        Token::Punct(','),
                        Token::Ident("this".to_string()),
                    ],
                ),
                Token::Group(
                    Delimiter::Brace,
                    vec![
                        Token::Ident("Ok".to_string()),
                        Token::Group(
                            Delimiter::Parenthesis,
                            vec![Token::Ident("1".to_string())],
                        ),
                    ],
                ),
            ],
        ),
    ];
    let mut ctx = Context::new(Vec::new());
    let mut pos: usize = 0;
    ctx.on_unsafe(&toks, &mut pos);
    assert!(ctx.errors.is_empty(), "errors: {:?}", ctx.errors);
    assert!(ctx.output.contains("::jni_glue::Throw> { Ok ( 1 ) }"));
    assert!(ctx.output.contains("fn Java_X_f("));
}
