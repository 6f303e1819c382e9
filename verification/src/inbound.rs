//! The inbound shim generator: a parser over a token form of the
//! per-class declaration block (`unsafe impl class some.java.ClassName
//! { ... }`), and the emitter of the externally linked entry points, each of
//! which calls the ergonomic inner implementation through a panic-isolation
//! boundary. A malformed method is reported against the offending token and
//! parsing resumes at the next statement boundary; it never aborts the block.

use vstd::prelude::*;
use crate::config::map_lookup;
use crate::descriptor::BasicType;
use crate::descriptor::BasicTypeView;
use crate::descriptor::FieldType;
use crate::descriptor::FieldTypeView;
use crate::mangling::field_type_code;
use crate::config::map_views;
use crate::config::map_lookup_exec;
use crate::text::push_char;
use crate::text::push_str;
use crate::text::str_eq;

verus! {

/// The delimiter of a token group.
#[derive(Clone, Copy, Debug, PartialEq, Eq, Structural)]
pub enum Delimiter {
    Parenthesis,
    Brace,
    Bracket,
}

/// One token of a declaration block: an identifier (including keywords and
/// dotted-name parts), a punctuation character, or a delimited group.
#[derive(Debug, PartialEq, Eq)]
pub enum Token {
    Ident(String),
    Punct(char),
    Group(Delimiter, Vec<Token>),
}

/// The opening character of a delimiter.
pub open spec fn open_delim(d: Delimiter) -> char {
    match d {
        Delimiter::Parenthesis => '(',
        Delimiter::Brace => '{',
        Delimiter::Bracket => '[',
    }
}

/// The closing character of a delimiter.
pub open spec fn close_delim(d: Delimiter) -> char {
    match d {
        Delimiter::Parenthesis => ')',
        Delimiter::Brace => '}',
        Delimiter::Bracket => ']',
    }
}

/// The rendered text of one token; each token inside a group is followed by
/// one space.
pub open spec fn render_token(t: Token) -> Seq<char>
    decreases t, 0int,
{
    match t {
        Token::Ident(s) => s@,
        Token::Punct(c) => seq![c],
        Token::Group(d, ts) => seq![open_delim(d)] + seq![' '] + render_upto(ts@, ts@.len() as int)
            + seq![close_delim(d)],
    }
}

/// The rendered text of the first `n` tokens of a sequence, each followed by
/// one space.
pub open spec fn render_upto(ts: Seq<Token>, n: int) -> Seq<char>
    decreases ts, n,
{
    if n <= 0 || n > ts.len() {
        Seq::empty()
    } else {
        render_upto(ts, n - 1) + render_token(ts[n - 1]) + seq![' ']
    }
}

/// The rendered text of a whole token sequence.
pub open spec fn render_tokens(ts: Seq<Token>) -> Seq<char> {
    render_upto(ts, ts.len() as int)
}

/// Appends the rendered text of one token.
#[verifier::loop_isolation(false)]
pub fn render_token_into(out: &mut String, t: &Token)
    ensures
        final(out)@ == old(out)@ + render_token(*t),
    decreases *t,
{
    match t {
        Token::Ident(s) => push_str(out, s.as_str()),
        Token::Punct(c) => push_char(out, *c),
        Token::Group(d, ts) => {
            match d {
                Delimiter::Parenthesis => push_char(out, '('),
                Delimiter::Brace => push_char(out, '{'),
                Delimiter::Bracket => push_char(out, '['),
            }
            push_char(out, ' ');
            let mut i: usize = 0;
            while i < ts.len()
                invariant
                    i <= ts@.len(),
                    out@ == old(out)@ + seq![open_delim(*d)] + seq![' '] + render_upto(
                        ts@,
                        i as int,
                    ),
                decreases ts@.len() - i,
            {
                proof {
                    broadcast use vstd::std_specs::vec::group_vec_axioms;

                    assert(decreases_to!(*t => *ts));
                    assert(decreases_to!(*ts => ts[i as int]));
                }
                render_token_into(out, &ts[i]);
                push_char(out, ' ');
                proof {
                    assert(out@ =~= old(out)@ + seq![open_delim(*d)] + seq![' '] + render_upto(
                        ts@,
                        i + 1 as int,
                    ));
                }
                i += 1;
            }
            match d {
                Delimiter::Parenthesis => push_char(out, ')'),
                Delimiter::Brace => push_char(out, '}'),
                Delimiter::Bracket => push_char(out, ']'),
            }
            proof {
                assert(out@ =~= old(out)@ + render_token(*t));
            }
        },
    }
}

/// One parse error: the position of the offending token (the length of the
/// stream when input ended early) and what was expected there.
#[derive(Debug, PartialEq, Eq)]
pub struct ParseError {
    pub at: usize,
    pub message: String,
}

/// Mathematical model of a [`ParseError`].
pub ghost struct ErrView {
    pub at: int,
    pub message: Seq<char>,
}

impl View for ParseError {
    type V = ErrView;

    open spec fn view(&self) -> ErrView {
        ErrView { at: self.at as int, message: self.message@ }
    }
}

/// The views of an error list.
pub open spec fn err_views(v: Seq<ParseError>) -> Seq<ErrView> {
    v.map_values(|e: ParseError| e@)
}

/// One error value.
pub open spec fn err_at(at: int, message: Seq<char>) -> ErrView {
    ErrView { at, message }
}

/// The position just past the next statement or block boundary (`;` or `}`)
/// at or after `p`; the end of the stream when there is none.
pub open spec fn sync_end(ts: Seq<Token>, p: int) -> int
    decreases ts.len() - p,
{
    if !(0 <= p < ts.len()) {
        ts.len() as int
    } else if (ts[p] matches Token::Punct(c) && (c == ';' || c == '}')) {
        p + 1
    } else {
        sync_end(ts, p + 1)
    }
}

/// The parsing and generation context of one declaration block: the import
/// aliases in scope, the errors collected so far, and the generated text.
pub struct Context {
    pub imports: Vec<(String, String)>,
    pub errors: Vec<ParseError>,
    pub output: String,
}

impl Context {
    /// A context with the given import aliases, no errors and no output.
    pub fn new(imports: Vec<(String, String)>) -> (r: Context)
        ensures
            r.imports@ == imports@,
            r.errors@.len() == 0,
            r.output@.len() == 0,
    {
        Context { imports, errors: Vec::new(), output: String::new() }
    }

    /// Records one parse error against a token position.
    fn error_at(&mut self, at: usize, message: &str)
        ensures
            final(self).imports == old(self).imports,
            final(self).output == old(self).output,
            err_views(final(self).errors@) == err_views(old(self).errors@) + seq![
                err_at(at as int, message@),
            ],
    {
        self.errors.push(ParseError { at, message: message.to_owned() });
        proof {
            assert(err_views(self.errors@) =~~= err_views(old(self).errors@) + seq![
                err_at(at as int, message@),
            ]);
        }
    }
}

/// Advances past the next statement or block boundary, as [`sync_end`]
/// gives it.
fn skip_to_sync(toks: &Vec<Token>, pos: &mut usize)
    requires
        *old(pos) <= toks@.len(),
    ensures
        *final(pos) == sync_end(toks@, *old(pos) as int),
        *old(pos) <= *final(pos) <= toks@.len(),
{
    let mut k = *pos;
    loop
        invariant_except_break
            *old(pos) <= k <= toks@.len(),
            sync_end(toks@, *old(pos) as int) == sync_end(toks@, k as int),
        ensures
            *old(pos) <= k <= toks@.len(),
            k == sync_end(toks@, *old(pos) as int),
        decreases toks@.len() - k,
    {
        if k >= toks.len() {
            break;
        }
        let is_sync = match &toks[k] {
            Token::Punct(c) => *c == ';' || *c == '}',
            _ => false,
        };
        k += 1;
        if is_sync {
            assert(k == sync_end(toks@, *old(pos) as int));
            break;
        }
    }
    *pos = k;
}

/// Whether the token at `p` is the identifier `kw`.
pub open spec fn is_ident(ts: Seq<Token>, p: int, kw: Seq<char>) -> bool {
    0 <= p < ts.len() && (ts[p] matches Token::Ident(s) && s@ == kw)
}

/// Whether the token at `p` is the punctuation character `c`.
pub open spec fn is_punct(ts: Seq<Token>, p: int, c: char) -> bool {
    0 <= p < ts.len() && ts[p] == Token::Punct(c)
}

/// The end of the dotted-identifier extension starting at `p`: pairs of
/// `'.'` and a following identifier.
pub open spec fn java_id_ext_end(ts: Seq<Token>, p: int) -> int
    decreases ts.len() - p,
{
    if 0 <= p && p + 1 < ts.len() && is_punct(ts, p, '.') && (ts[p + 1] is Ident) {
        java_id_ext_end(ts, p + 2)
    } else {
        p
    }
}

/// The text of the dotted-identifier extension starting at `p`.
pub open spec fn java_id_ext_text(ts: Seq<Token>, p: int) -> Seq<char>
    decreases ts.len() - p,
{
    if 0 <= p && p + 1 < ts.len() && is_punct(ts, p, '.') && (ts[p + 1] is Ident) {
        seq!['.'] + ts[p + 1]->Ident_0@ + java_id_ext_text(ts, p + 2)
    } else {
        Seq::empty()
    }
}

/// The position just past the dotted identifier at `p`; `p` itself when no
/// identifier starts there.
pub open spec fn java_id_end(ts: Seq<Token>, p: int) -> int {
    if 0 <= p < ts.len() && (ts[p] is Ident) {
        java_id_ext_end(ts, p + 1)
    } else {
        p
    }
}

/// The text of the dotted identifier at `p`; empty when no identifier starts
/// there.
pub open spec fn java_id_text(ts: Seq<Token>, p: int) -> Seq<char> {
    if 0 <= p < ts.len() && (ts[p] is Ident) {
        ts[p]->Ident_0@ + java_id_ext_text(ts, p + 1)
    } else {
        Seq::empty()
    }
}

/// Consumes a dotted identifier (`some.java.ClassName`) and returns its
/// text; consumes nothing and returns the empty string when none starts
/// here.
pub fn consume_java_identifier(toks: &Vec<Token>, pos: &mut usize) -> (r: String)
    requires
        *old(pos) <= toks@.len(),
    ensures
        r@ == java_id_text(toks@, *old(pos) as int),
        *final(pos) == java_id_end(toks@, *old(pos) as int),
        *old(pos) <= *final(pos) <= toks@.len(),
{
    let mut out = String::new();
    if *pos >= toks.len() {
        return out;
    }
    match &toks[*pos] {
        Token::Ident(s) => {
            push_str(&mut out, s.as_str());
        },
        _ => {
            return out;
        },
    }
    let mut k = *pos + 1;
    loop
        invariant_except_break
            *old(pos) < k <= toks@.len(),
            java_id_text(toks@, *old(pos) as int) == out@ + java_id_ext_text(toks@, k as int),
            java_id_end(toks@, *old(pos) as int) == java_id_ext_end(toks@, k as int),
        ensures
            *old(pos) < k <= toks@.len(),
            out@ == java_id_text(toks@, *old(pos) as int),
            k == java_id_end(toks@, *old(pos) as int),
        decreases toks@.len() - k,
    {
        let more = if k < toks.len() && k + 1 < toks.len() {
            match &toks[k] {
                Token::Punct(c) => {
                    if *c == '.' {
                        match &toks[k + 1] {
                            Token::Ident(_) => true,
                            _ => false,
                        }
                    } else {
                        false
                    }
                },
                _ => false,
            }
        } else {
            false
        };
        if !more {
            proof {
                assert(java_id_ext_text(toks@, k as int) =~= Seq::<char>::empty());
                assert(out@ =~= out@ + java_id_ext_text(toks@, k as int));
            }
            break;
        }
        push_char(&mut out, '.');
        match &toks[k + 1] {
            Token::Ident(s) => push_str(&mut out, s.as_str()),
            _ => assert(false),
        }
        proof {
            assert(out@ + java_id_ext_text(toks@, k + 2 as int) =~= java_id_text(
                toks@,
                *old(pos) as int,
            ));
        }
        k += 2;
    }
    *pos = k;
    out
}

/// Resolution of a type name through the import aliases: the first aliased
/// target, or the name itself.
pub open spec fn resolve_import(imports: Seq<(Seq<char>, Seq<char>)>, id: Seq<char>) -> Seq<
    char,
> {
    match map_lookup(imports, id) {
        Some(f) => f,
        None => id,
    }
}

impl Context {
    /// Consumes a dotted identifier and resolves it through the import
    /// aliases.
    pub fn consume_resolved_java_identifier(&self, toks: &Vec<Token>, pos: &mut usize) -> (r:
        String)
        requires
            *old(pos) <= toks@.len(),
        ensures
            r@ == resolve_import(
                map_views(self.imports@),
                java_id_text(toks@, *old(pos) as int),
            ),
            *final(pos) == java_id_end(toks@, *old(pos) as int),
            *old(pos) <= *final(pos) <= toks@.len(),
    {
        let id = consume_java_identifier(toks, pos);
        match map_lookup_exec(&self.imports, id.as_str()) {
            Some(f) => f,
            None => id,
        }
    }
}

/// The managed field type a source-level type name denotes: a primitive by
/// keyword, a class reference otherwise.
pub open spec fn java_type_field(t: Seq<char>) -> FieldTypeView {
    if t == "void"@ {
        FieldTypeView::Single(BasicTypeView::Void)
    } else if t == "boolean"@ {
        FieldTypeView::Single(BasicTypeView::Boolean)
    } else if t == "byte"@ {
        FieldTypeView::Single(BasicTypeView::Byte)
    } else if t == "char"@ {
        FieldTypeView::Single(BasicTypeView::Char)
    } else if t == "short"@ {
        FieldTypeView::Single(BasicTypeView::Short)
    } else if t == "int"@ {
        FieldTypeView::Single(BasicTypeView::Int)
    } else if t == "long"@ {
        FieldTypeView::Single(BasicTypeView::Long)
    } else if t == "float"@ {
        FieldTypeView::Single(BasicTypeView::Float)
    } else if t == "double"@ {
        FieldTypeView::Single(BasicTypeView::Double)
    } else {
        FieldTypeView::Single(BasicTypeView::Class(t))
    }
}

/// The boundary-visible native type of a source-level type name: the raw
/// runtime types for primitives, the raw object handle otherwise.
pub open spec fn inbound_outer_type(t: Seq<char>) -> Seq<char> {
    if t == "void"@ {
        "()"@
    } else if t == "boolean"@ {
        "::jni_sys::jboolean"@
    } else if t == "byte"@ {
        "::jni_sys::jbyte"@
    } else if t == "char"@ {
        "::jni_sys::jchar"@
    } else if t == "short"@ {
        "::jni_sys::jshort"@
    } else if t == "int"@ {
        "::jni_sys::jint"@
    } else if t == "long"@ {
        "::jni_sys::jlong"@
    } else if t == "float"@ {
        "::jni_sys::jfloat"@
    } else if t == "double"@ {
        "::jni_sys::jdouble"@
    } else {
        "::jni_sys::jobject"@
    }
}

/// The body-visible native type of a source-level type name: the idiomatic
/// types for primitives, the raw object handle otherwise.
pub open spec fn inbound_inner_type(t: Seq<char>) -> Seq<char> {
    if t == "void"@ {
        "()"@
    } else if t == "boolean"@ {
        "bool"@
    } else if t == "byte"@ {
        "i8"@
    } else if t == "char"@ {
        "u16"@
    } else if t == "short"@ {
        "i16"@
    } else if t == "int"@ {
        "i32"@
    } else if t == "long"@ {
        "i64"@
    } else if t == "float"@ {
        "f32"@
    } else if t == "double"@ {
        "f64"@
    } else {
        "::jni_sys::jobject"@
    }
}

/// The managed field type a source-level type name denotes.
pub fn java_type_field_exec(t: &str) -> (r: FieldType)
    ensures
        r@ == java_type_field(t@),
{
    if str_eq(t, "void") {
        FieldType::Single(BasicType::Void)
    } else if str_eq(t, "boolean") {
        FieldType::Single(BasicType::Boolean)
    } else if str_eq(t, "byte") {
        FieldType::Single(BasicType::Byte)
    } else if str_eq(t, "char") {
        FieldType::Single(BasicType::Char)
    } else if str_eq(t, "short") {
        FieldType::Single(BasicType::Short)
    } else if str_eq(t, "int") {
        FieldType::Single(BasicType::Int)
    } else if str_eq(t, "long") {
        FieldType::Single(BasicType::Long)
    } else if str_eq(t, "float") {
        FieldType::Single(BasicType::Float)
    } else if str_eq(t, "double") {
        FieldType::Single(BasicType::Double)
    } else {
        FieldType::Single(BasicType::Class(t.to_owned()))
    }
}

/// One parsed argument of a native-method declaration: its declared name,
/// its source-level managed type, its symbol-safe type code, and its
/// boundary-visible and body-visible native types.
#[derive(Debug, PartialEq, Eq)]
pub struct Argument {
    pub name: String,
    pub java_type: String,
    pub jni: String,
    pub outer: String,
    pub inner: String,
}

/// Mathematical model of an [`Argument`].
pub ghost struct ArgumentView {
    pub name: Seq<char>,
    pub java_type: Seq<char>,
    pub jni: Seq<char>,
    pub outer: Seq<char>,
    pub inner: Seq<char>,
}

impl View for Argument {
    type V = ArgumentView;

    open spec fn view(&self) -> ArgumentView {
        ArgumentView {
            name: self.name@,
            java_type: self.java_type@,
            jni: self.jni@,
            outer: self.outer@,
            inner: self.inner@,
        }
    }
}

/// The argument a declared name and resolved type denote.
pub open spec fn arg_of(name: Seq<char>, java_type: Seq<char>) -> ArgumentView {
    ArgumentView {
        name,
        java_type,
        jni: field_type_code(java_type_field(java_type)),
        outer: inbound_outer_type(java_type),
        inner: inbound_inner_type(java_type),
    }
}

impl Argument {
    /// Derives the type code and both native types from the declared name
    /// and resolved source-level type.
    pub fn new(name: String, java_type: String) -> (r: Argument)
        ensures
            r@ == arg_of(name@, java_type@),
    {
        let f = java_type_field_exec(java_type.as_str());
        let mut jni = String::new();
        crate::mangling::push_field_type_code(&mut jni, &f);
        let outer = inbound_outer_type_exec(java_type.as_str());
        let inner = inbound_inner_type_exec(java_type.as_str());
        Argument { name, java_type, jni, outer, inner }
    }
}

/// The boundary-visible native type of a source-level type name.
fn inbound_outer_type_exec(t: &str) -> (r: String)
    ensures
        r@ == inbound_outer_type(t@),
{
    let s = if str_eq(t, "void") {
        "()"
    } else if str_eq(t, "boolean") {
        "::jni_sys::jboolean"
    } else if str_eq(t, "byte") {
        "::jni_sys::jbyte"
    } else if str_eq(t, "char") {
        "::jni_sys::jchar"
    } else if str_eq(t, "short") {
        "::jni_sys::jshort"
    } else if str_eq(t, "int") {
        "::jni_sys::jint"
    } else if str_eq(t, "long") {
        "::jni_sys::jlong"
    } else if str_eq(t, "float") {
        "::jni_sys::jfloat"
    } else if str_eq(t, "double") {
        "::jni_sys::jdouble"
    } else {
        "::jni_sys::jobject"
    };
    s.to_owned()
}

/// The body-visible native type of a source-level type name.
fn inbound_inner_type_exec(t: &str) -> (r: String)
    ensures
        r@ == inbound_inner_type(t@),
{
    let s = if str_eq(t, "void") {
        "()"
    } else if str_eq(t, "boolean") {
        "bool"
    } else if str_eq(t, "byte") {
        "i8"
    } else if str_eq(t, "char") {
        "u16"
    } else if str_eq(t, "short") {
        "i16"
    } else if str_eq(t, "int") {
        "i32"
    } else if str_eq(t, "long") {
        "i64"
    } else if str_eq(t, "float") {
        "f32"
    } else if str_eq(t, "double") {
        "f64"
    } else {
        "::jni_sys::jobject"
    };
    s.to_owned()
}

/// A declared return type, in its boundary-visible and body-visible native
/// forms.
#[derive(Debug, PartialEq, Eq)]
pub struct Return {
    pub outer: String,
    pub inner: String,
}

impl Return {
    /// Derives both native forms from the resolved source-level type.
    pub fn new(java_type: String) -> (r: Return)
        ensures
            r.outer@ == inbound_outer_type(java_type@),
            r.inner@ == inbound_inner_type(java_type@),
    {
        let outer = inbound_outer_type_exec(java_type.as_str());
        let inner = inbound_inner_type_exec(java_type.as_str());
        Return { outer, inner }
    }
}

/// The annotation list of one method declaration.
#[derive(Clone, Copy, Debug, PartialEq, Eq, Structural, Default)]
pub struct MethodAnnotations {
    pub is_static: bool,
}

/// Whether `s` is a visibility or binding annotation keyword that carries no
/// information for the shim.
pub open spec fn ignored_annotation_kw(s: Seq<char>) -> bool {
    ||| s == "public"@
    ||| s == "protected"@
    ||| s == "private"@
    ||| s == "final"@
    ||| s == "native"@
}

/// Spec-level parse of the annotation prefix of a method declaration, with
/// `st` the static flag seen so far: the position after the prefix, the
/// final static flag, and the errors reported. Input that ends inside the
/// prefix is one error.
pub open spec fn spec_annotations(ts: Seq<Token>, p: int, st: bool) -> (int, bool, Seq<ErrView>)
    decreases ts.len() - p,
{
    if !(0 <= p < ts.len()) {
        (p, st, seq![err_at(ts.len() as int, "Expected:  Method keyword or return type"@)])
    } else {
        match ts[p] {
            Token::Punct(c) => {
                if c == '@' {
                    if p + 1 < ts.len() && (ts[p + 1] is Ident) {
                        spec_annotations(ts, p + 2, st)
                    } else if p + 1 >= ts.len() {
                        let rest = spec_annotations(ts, p + 1, st);
                        (
                            rest.0,
                            rest.1,
                            seq![err_at(ts.len() as int, "Expected:  @Annotation"@)] + rest.2,
                        )
                    } else {
                        let rest = spec_annotations(ts, p + 2, st);
                        (rest.0, rest.1, seq![err_at(p + 1, "Expected:  @Annotation"@)] + rest.2)
                    }
                } else {
                    let rest = spec_annotations(ts, p + 1, st);
                    (
                        rest.0,
                        rest.1,
                        seq![err_at(p, "Expected:  Method keyword or return type"@)] + rest.2,
                    )
                }
            },
            Token::Ident(s) => {
                if s@ == "static"@ {
                    if st {
                        let rest = spec_annotations(ts, p + 1, st);
                        (rest.0, rest.1, seq![err_at(p, "Duplicate static keyword"@)] + rest.2)
                    } else {
                        spec_annotations(ts, p + 1, true)
                    }
                } else if ignored_annotation_kw(s@) {
                    spec_annotations(ts, p + 1, st)
                } else {
                    (p, st, Seq::empty())
                }
            },
            Token::Group(d, g) => {
                let rest = spec_annotations(ts, p + 1, st);
                (
                    rest.0,
                    rest.1,
                    seq![err_at(p, "Expected:  Method keyword or return type"@)] + rest.2,
                )
            },
        }
    }
}

/// The annotation parse ends within the stream, at an identifier that starts
/// the return type or at the end of the input.
pub proof fn lemma_annotations_result(ts: Seq<Token>, p: int, st: bool)
    requires
        0 <= p <= ts.len(),
    ensures
        p <= spec_annotations(ts, p, st).0 <= ts.len(),
        spec_annotations(ts, p, st).0 == ts.len() || ts[spec_annotations(ts, p, st).0] is Ident,
    decreases ts.len() - p,
{
    if p < ts.len() {
        match ts[p] {
            Token::Punct(c) => {
                if c == '@' {
                    if p + 1 < ts.len() && (ts[p + 1] is Ident) {
                        lemma_annotations_result(ts, p + 2, st);
                    } else if p + 1 >= ts.len() {
                        lemma_annotations_result(ts, p + 1, st);
                    } else {
                        lemma_annotations_result(ts, p + 2, st);
                    }
                } else {
                    lemma_annotations_result(ts, p + 1, st);
                }
            },
            Token::Ident(s) => {
                if s@ == "static"@ {
                    lemma_annotations_result(ts, p + 1, if st {
                        st
                    } else {
                        true
                    });
                } else if ignored_annotation_kw(s@) {
                    lemma_annotations_result(ts, p + 1, st);
                }
            },
            Token::Group(d, g) => {
                lemma_annotations_result(ts, p + 1, st);
            },
        }
    }
}

impl Context {
    /// Parses the annotation prefix of one method declaration, as
    /// [`spec_annotations`] gives it: visibility markers are skipped,
    /// `static` is recorded (a duplicate is an error), an `@Annotation`
    /// consumes its marker, and the first other identifier, taken to start
    /// the return type, is left unconsumed.
    pub fn parse_method_annotations(&mut self, toks: &Vec<Token>, pos: &mut usize) -> (r:
        MethodAnnotations)
        requires
            *old(pos) <= toks@.len(),
        ensures
            ({
                let sp = spec_annotations(toks@, *old(pos) as int, false);
                &&& *final(pos) == sp.0
                &&& r.is_static == sp.1
                &&& err_views(final(self).errors@) == err_views(old(self).errors@) + sp.2
                &&& final(self).imports == old(self).imports
                &&& final(self).output == old(self).output
            }),
            *old(pos) <= *final(pos) <= toks@.len(),
    {
        let ghost ts = toks@;
        let ghost p0 = *old(pos) as int;
        let ghost base = err_views(self.errors@);
        let mut st = false;
        let mut p = *pos;
        loop
            invariant_except_break
                *old(pos) <= p <= toks@.len(),
                ts == toks@,
                self.imports == old(self).imports,
                self.output == old(self).output,
                base == err_views(old(self).errors@),
                ({
                    let whole = spec_annotations(ts, p0, false);
                    let cur = spec_annotations(ts, p as int, st);
                    &&& whole.0 == cur.0
                    &&& whole.1 == cur.1
                    &&& base + whole.2 == err_views(self.errors@) + cur.2
                }),
            ensures
                *old(pos) <= p <= toks@.len(),
                self.imports == old(self).imports,
                self.output == old(self).output,
                ({
                    let whole = spec_annotations(ts, p0, false);
                    &&& whole.0 == p as int
                    &&& whole.1 == st
                    &&& err_views(self.errors@) == base + whole.2
                }),
            decreases toks@.len() - p,
        {
            if p >= toks.len() {
                self.error_at(toks.len(), "Expected:  Method keyword or return type");
                proof {
                    assert(err_views(self.errors@) =~~= base + spec_annotations(ts, p0, false).2);
                }
                break;
            }
            match &toks[p] {
                Token::Punct(c) => {
                    if *c == '@' {
                        if p + 1 < toks.len() && matches!(&toks[p + 1], Token::Ident(_)) {
                            p = p + 2;
                        } else if p + 1 >= toks.len() {
                            self.error_at(toks.len(), "Expected:  @Annotation");
                            p = p + 1;
                        } else {
                            self.error_at(p + 1, "Expected:  @Annotation");
                            p = p + 2;
                        }
                    } else {
                        self.error_at(p, "Expected:  Method keyword or return type");
                        p = p + 1;
                    }
                },
                Token::Ident(s) => {
                    if str_eq(s.as_str(), "static") {
                        if st {
                            self.error_at(p, "Duplicate static keyword");
                            p = p + 1;
                        } else {
                            st = true;
                            p = p + 1;
                        }
                    } else if str_eq(s.as_str(), "public") || str_eq(s.as_str(), "protected")
                        || str_eq(s.as_str(), "private") || str_eq(s.as_str(), "final") || str_eq(
                        s.as_str(),
                        "native",
                    ) {
                        p = p + 1;
                    } else {
                        proof {
                            assert(err_views(self.errors@) =~~= base + spec_annotations(
                                ts,
                                p0,
                                false,
                            ).2);
                        }
                        break;
                    }
                },
                Token::Group(d, g) => {
                    self.error_at(p, "Expected:  Method keyword or return type");
                    p = p + 1;
                },
            }
        }
        *pos = p;
        MethodAnnotations { is_static: st }
    }
}

/// `p` clamped to the stream: error positions for missing tokens point at
/// the end of the stream.
pub open spec fn pos_or_len(ts: Seq<Token>, p: int) -> int {
    if p < ts.len() {
        p
    } else {
        ts.len() as int
    }
}

/// Spec-level parse of the `type name` pairs of an argument list, from the
/// first separator onward: the parsed arguments and the errors reported.
pub open spec fn spec_args_loop(
    ts: Seq<Token>,
    p: int,
    imports: Seq<(Seq<char>, Seq<char>)>,
) -> (Seq<ArgumentView>, Seq<ErrView>)
    decreases ts.len() - p,
{
    if !(0 <= p < ts.len()) {
        (Seq::empty(), Seq::empty())
    } else {
        let p1 = p + 1;
        if p1 >= ts.len() {
            (Seq::empty(), Seq::empty())
        } else {
            let jt = resolve_import(imports, java_id_text(ts, p1));
            let p2 = java_id_end(ts, p1);
            if !(p1 <= p2 <= ts.len()) {
                (Seq::empty(), Seq::empty())
            } else if p2 < ts.len() && (ts[p2] is Ident) {
                let rest = spec_args_loop(ts, p2 + 1, imports);
                (seq![arg_of(ts[p2]->Ident_0@, jt)] + rest.0, rest.1)
            } else if p2 < ts.len() {
                let rest = spec_args_loop(ts, p2 + 1, imports);
                (
                    seq![arg_of("argument_name"@, jt)] + rest.0,
                    seq![err_at(p2, "Expected:  argument_name"@)] + rest.1,
                )
            } else {
                (
                    seq![arg_of("argument_name"@, jt)],
                    seq![err_at(ts.len() as int, "Expected:  argument_name"@)],
                )
            }
        }
    }
}

/// Spec-level parse of a whole argument list: whether the required header
/// (`&env` or `&'lt env`, a comma, then `this` or `class`) was accepted, the
/// parsed arguments, and the errors reported.
pub open spec fn spec_args_list(
    ts: Seq<Token>,
    is_static: bool,
    imports: Seq<(Seq<char>, Seq<char>)>,
) -> (bool, Seq<ArgumentView>, Seq<ErrView>) {
    if !is_punct(ts, 0, '&') {
        (false, Seq::empty(), seq![err_at(pos_or_len(ts, 0), "Expected:  &env"@)])
    } else {
        let env_end = if is_punct(ts, 1, '\'') {
            if !(2 < ts.len() && ts[2] is Ident) {
                -2
            } else if !is_ident(ts, 3, "env"@) {
                -3
            } else {
                4
            }
        } else if is_ident(ts, 1, "env"@) {
            2
        } else {
            -1
        };
        if env_end == -1 {
            (false, Seq::empty(), seq![err_at(pos_or_len(ts, 1), "Expected:  &env or &'env env"@)])
        } else if env_end == -2 {
            (
                false,
                Seq::empty(),
                seq![err_at(pos_or_len(ts, 2), "Expected:  env lifetime for  `&'... env`"@)],
            )
        } else if env_end == -3 {
            (
                false,
                Seq::empty(),
                seq![
                    err_at(
                        pos_or_len(ts, 3),
                        "Expected:  `env`  keyword of  `&'"@ + ts[2]->Ident_0@ + " env`"@,
                    ),
                ],
            )
        } else if !is_punct(ts, env_end, ',') {
            (
                false,
                Seq::empty(),
                seq![err_at(pos_or_len(ts, env_end), "Expected:  ',' after &env"@)],
            )
        } else {
            let kw = if is_static {
                "class"@
            } else {
                "this"@
            };
            let kw_msg = if is_static {
                "Expected:  class"@
            } else {
                "Expected:  this"@
            };
            let kw_pos = env_end + 1;
            if is_ident(ts, kw_pos, kw) {
                let lp = spec_args_loop(ts, kw_pos + 1, imports);
                (true, lp.0, lp.1)
            } else if kw_pos < ts.len() {
                let lp = spec_args_loop(ts, kw_pos + 1, imports);
                (true, lp.0, seq![err_at(kw_pos, kw_msg)] + lp.1)
            } else {
                (true, Seq::empty(), seq![err_at(ts.len() as int, kw_msg)])
            }
        }
    }
}

/// The views of an argument list.
pub open spec fn arg_views(v: Seq<Argument>) -> Seq<ArgumentView> {
    v.map_values(|a: Argument| a@)
}

impl Context {
    /// Parses the parenthesized argument list of one method declaration, as
    /// [`spec_args_list`] gives it: the environment parameter (with or
    /// without an explicit lifetime), then `this` for instance methods or
    /// `class` for static ones, then zero or more `type name` pairs. A
    /// header deviation is an error and `Err`; a malformed pair is an error
    /// and the pair is kept under a placeholder name.
    pub fn parse_method_arguments_list(&mut self, args: &Vec<Token>, is_static: bool) -> (r:
        Result<Vec<Argument>, ()>)
        ensures
            ({
                let sp = spec_args_list(args@, is_static, map_views(old(self).imports@));
                &&& match r {
                    Ok(v) => sp.0 && arg_views(v@) == sp.1,
                    Err(_) => !sp.0,
                }
                &&& err_views(final(self).errors@) == err_views(old(self).errors@) + sp.2
                &&& final(self).imports == old(self).imports
                &&& final(self).output == old(self).output
            }),
    {
        let ghost ts = args@;
        let ghost imps = map_views(self.imports@);
        let len = args.len();
        if !(len > 0 && matches!(&args[0], Token::Punct('&'))) {
            self.error_at(if len > 0 { 0 } else { len }, "Expected:  &env");
            return Err(());
        }
        let env_end: usize = if len > 1 && matches!(&args[1], Token::Punct('\'')) {
            if !(len > 2 && matches!(&args[2], Token::Ident(_))) {
                self.error_at(if len > 2 { 2 } else { len },
                    "Expected:  env lifetime for  `&'... env`");
                return Err(());
            }
            let lt_ok = if len > 3 {
                match &args[3] {
                    Token::Ident(s) => str_eq(s.as_str(), "env"),
                    _ => false,
                }
            } else {
                false
            };
            if !lt_ok {
                let mut msg = String::new();
                push_str(&mut msg, "Expected:  `env`  keyword of  `&'");
                match &args[2] {
                    Token::Ident(lt) => push_str(&mut msg, lt.as_str()),
                    _ => assert(false),
                }
                push_str(&mut msg, " env`");
                let at = if len > 3 { 3 } else { len };
                self.errors.push(ParseError { at, message: msg });
                proof {
                    let sp = spec_args_list(ts, is_static, imps);
                    assert(err_views(self.errors@) =~~= err_views(old(self).errors@) + sp.2);
                }
                return Err(());
            }
            4
        } else if len > 1 && (match &args[1] {
            Token::Ident(s) => str_eq(s.as_str(), "env"),
            _ => false,
        }) {
            2
        } else {
            self.error_at(if len > 1 { 1 } else { len }, "Expected:  &env or &'env env");
            return Err(());
        };
        if !(env_end < len && matches!(&args[env_end], Token::Punct(','))) {
            self.error_at(if env_end < len { env_end } else { len }, "Expected:  ',' after &env");
            return Err(());
        }
        let kw_pos = env_end + 1;
        let kw_ok = if kw_pos < len {
            match &args[kw_pos] {
                Token::Ident(s) => if is_static {
                    str_eq(s.as_str(), "class")
                } else {
                    str_eq(s.as_str(), "this")
                },
                _ => false,
            }
        } else {
            false
        };
        let mut out: Vec<Argument> = Vec::new();
        if !kw_ok {
            if kw_pos < len {
                self.error_at(kw_pos, if is_static { "Expected:  class" } else { "Expected:  this" });
            } else {
                self.error_at(len, if is_static { "Expected:  class" } else { "Expected:  this" });
                proof {
                    let sp = spec_args_list(ts, is_static, imps);
                    assert(arg_views(out@) =~~= sp.1);
                }
                return Ok(out);
            }
        }
        let mut p = kw_pos + 1;
        let ghost base = err_views(self.errors@);
        loop
            invariant_except_break
                kw_pos + 1 <= p <= ts.len(),
                ts == args@,
                imps == map_views(self.imports@),
                self.imports == old(self).imports,
                self.output == old(self).output,
                ({
                    let whole = spec_args_loop(ts, kw_pos + 1 as int, imps);
                    let cur = spec_args_loop(ts, p as int, imps);
                    &&& whole.0 == arg_views(out@) + cur.0
                    &&& base + whole.1 == err_views(self.errors@) + cur.1
                }),
            ensures
                ts == args@,
                self.imports == old(self).imports,
                self.output == old(self).output,
                ({
                    let whole = spec_args_loop(ts, kw_pos + 1 as int, imps);
                    &&& whole.0 == arg_views(out@)
                    &&& err_views(self.errors@) == base + whole.1
                }),
            decreases ts.len() - p,
        {
            if p >= args.len() {
                proof {
                    let cur = spec_args_loop(ts, p as int, imps);
                    assert(cur.0 =~= Seq::<ArgumentView>::empty());
                    assert(arg_views(out@) + cur.0 =~= arg_views(out@));
                }
                break;
            }
            let p1 = p + 1;
            if p1 >= args.len() {
                proof {
                    let cur = spec_args_loop(ts, p as int, imps);
                    assert(arg_views(out@) + cur.0 =~= arg_views(out@));
                }
                break;
            }
            let mut q = p1;
            let jt = self.consume_resolved_java_identifier(args, &mut q);
            let ghost old_out = out@;
            if q < args.len() {
                let name_ok = matches!(&args[q], Token::Ident(_));
                if name_ok {
                    let nm = match &args[q] {
                        Token::Ident(s) => s.clone(),
                        _ => String::new(),
                    };
                    out.push(Argument::new(nm, jt));
                } else {
                    self.error_at(q, "Expected:  argument_name");
                    out.push(Argument::new(String::from_str("argument_name"), jt));
                }
                proof {
                    assert(arg_views(out@) =~~= arg_views(old_out) + seq![out@.last()@]);
                }
                p = q + 1;
            } else {
                self.error_at(args.len(), "Expected:  argument_name");
                out.push(Argument::new(String::from_str("argument_name"), jt));
                proof {
                    assert(arg_views(out@) =~~= arg_views(old_out) + seq![out@.last()@]);
                    let whole = spec_args_loop(ts, kw_pos + 1 as int, imps);
                    assert(whole.0 =~~= arg_views(out@));
                }
                break;
            }
        }
        proof {
            let sp = spec_args_list(ts, is_static, imps);
            assert(sp.1 =~~= arg_views(out@));
            assert(err_views(self.errors@) =~~= err_views(old(self).errors@) + sp.2);
        }
        Ok(out)
    }
}

/// The receiver keyword of an entry point: `class` for static methods,
/// `this` otherwise.
pub open spec fn this_kw(is_static: bool) -> Seq<char> {
    if is_static {
        "class"@
    } else {
        "this"@
    }
}

/// The raw runtime type of the receiver parameter.
pub open spec fn this_ty(is_static: bool) -> Seq<char> {
    if is_static {
        "::jni_sys::jclass"@
    } else {
        "::jni_sys::jobject"@
    }
}

/// The managed field types of an argument list, for the linkage symbol.
pub open spec fn arg_fields(args: Seq<ArgumentView>) -> Seq<FieldTypeView> {
    Seq::new(args.len(), |i: int| java_type_field(args[i].java_type))
}

/// The boundary-visible parameter declarations, each followed by a comma.
pub open spec fn outer_args_text(args: Seq<ArgumentView>) -> Seq<char>
    decreases args.len(),
{
    if args.len() == 0 {
        Seq::empty()
    } else {
        outer_args_text(args.drop_last()) + args.last().name + ": "@ + args.last().outer + ", "@
    }
}

/// The body-visible parameter declarations, each followed by a comma.
pub open spec fn inner_args_text(args: Seq<ArgumentView>) -> Seq<char>
    decreases args.len(),
{
    if args.len() == 0 {
        Seq::empty()
    } else {
        inner_args_text(args.drop_last()) + args.last().name + ": "@ + args.last().inner + ", "@
    }
}

/// The forwarded argument names, each followed by a comma.
pub open spec fn forward_args_text(args: Seq<ArgumentView>) -> Seq<char>
    decreases args.len(),
{
    if args.len() == 0 {
        Seq::empty()
    } else {
        forward_args_text(args.drop_last()) + args.last().name + ", "@
    }
}

/// The entry point and inner implementation of one shim, up to the boundary
/// guard.
pub open spec fn shim_prefix(
    class_fqn: Seq<char>,
    name: Seq<char>,
    is_static: bool,
    args: Seq<ArgumentView>,
    ret_outer: Seq<char>,
    ret_inner: Seq<char>,
    body_text: Seq<char>,
) -> Seq<char> {
    "#[doc(hidden)] #[no_mangle] pub unsafe extern \"stdcall\" fn "@ + crate::mangling::linkage_symbol(
        class_fqn,
        name,
        arg_fields(args),
    ) + "(env: &::jni_glue::Env, "@ + this_kw(is_static) + ": "@ + this_ty(is_static) + ", "@
        + outer_args_text(args) + ") -> "@ + ret_outer + " {\n    fn "@ + name
        + "<'env>(env: &'env ::jni_glue::Env, "@ + this_kw(is_static) + ": "@ + this_ty(is_static)
        + ", "@ + inner_args_text(args) + ") -> ::std::result::Result<"@ + ret_inner
        + ", ::jni_glue::Throw> "@ + body_text + "\n"@
}

/// The failure-isolation boundary: the entry point calls the inner
/// implementation inside `catch_unwind`, and any abnormal unwind is turned
/// into the runtime's error-signalling channel instead of crossing the
/// boundary.
pub open spec fn boundary_guard_text(
    name: Seq<char>,
    is_static: bool,
    args: Seq<ArgumentView>,
) -> Seq<char> {
    "    let r = ::std::panic::catch_unwind(|| "@ + name + "(env, "@ + this_kw(is_static) + ", "@
        + forward_args_text(args) + "));\n    env.unwrap_jni_glue_result(r)\n"@
}

/// The whole emitted text of one shim: entry point and inner implementation,
/// the boundary guard, and the closing brace.
pub open spec fn shim_text(
    class_fqn: Seq<char>,
    name: Seq<char>,
    is_static: bool,
    args: Seq<ArgumentView>,
    ret_outer: Seq<char>,
    ret_inner: Seq<char>,
    body_text: Seq<char>,
) -> Seq<char> {
    shim_prefix(class_fqn, name, is_static, args, ret_outer, ret_inner, body_text)
        + boundary_guard_text(name, is_static, args) + "}\n"@
}

/// Every emitted shim holds exactly one failure-isolation boundary: its text
/// decomposes into the entry-point prefix, the boundary guard wrapping the
/// single call of the inner implementation, and the closing brace, so no
/// call of the inner implementation stands outside the guard.
pub proof fn lemma_shim_boundary_guard(
    class_fqn: Seq<char>,
    name: Seq<char>,
    is_static: bool,
    args: Seq<ArgumentView>,
    ret_outer: Seq<char>,
    ret_inner: Seq<char>,
    body_text: Seq<char>,
)
    ensures
        shim_text(class_fqn, name, is_static, args, ret_outer, ret_inner, body_text)
            == shim_prefix(class_fqn, name, is_static, args, ret_outer, ret_inner, body_text)
            + boundary_guard_text(name, is_static, args) + "}\n"@,
{
}

impl Context {
    /// Emits one native-method shim: appends exactly [`shim_text`] for the
    /// parsed declaration to the generated output.
    #[verifier::rlimit(100)]
    #[verifier::spinoff_prover]
    pub fn emit_shim(
        &mut self,
        class_fqn: &str,
        name: &str,
        is_static: bool,
        args: &Vec<Argument>,
        ret: &Return,
        body: &Token,
    )
        ensures
            final(self).imports == old(self).imports,
            final(self).errors == old(self).errors,
            final(self).output@ == old(self).output@ + shim_text(
                class_fqn@,
                name@,
                is_static,
                arg_views(args@),
                ret.outer@,
                ret.inner@,
                render_token(*body),
            ),
    {
        let ghost avs = arg_views(args@);

        let mut fields: Vec<FieldType> = Vec::new();
        let mut i: usize = 0;
        while i < args.len()
            invariant
                i <= args@.len(),
                avs == arg_views(args@),
                fields@.len() == i,
                forall|j: int| 0 <= j < i ==> fields@[j]@ == java_type_field(avs[j].java_type),
            decreases args@.len() - i,
        {
            fields.push(java_type_field_exec(args[i].java_type.as_str()));
            i += 1;
        }
        proof {
            assert(fields@.map_values(|f: FieldType| f@) =~= arg_fields(avs));
        }

        let mut outer_args = String::new();
        let mut inner_args = String::new();
        let mut forward_args = String::new();
        let mut i: usize = 0;
        while i < args.len()
            invariant
                i <= args@.len(),
                avs == arg_views(args@),
                outer_args@ == outer_args_text(avs.take(i as int)),
                inner_args@ == inner_args_text(avs.take(i as int)),
                forward_args@ == forward_args_text(avs.take(i as int)),
            decreases args@.len() - i,
        {
            let a = &args[i];
            push_str(&mut outer_args, a.name.as_str());
            push_str(&mut outer_args, ": ");
            push_str(&mut outer_args, a.outer.as_str());
            push_str(&mut outer_args, ", ");
            push_str(&mut inner_args, a.name.as_str());
            push_str(&mut inner_args, ": ");
            push_str(&mut inner_args, a.inner.as_str());
            push_str(&mut inner_args, ", ");
            push_str(&mut forward_args, a.name.as_str());
            push_str(&mut forward_args, ", ");
            proof {
                assert(avs.take(i + 1 as int).drop_last() =~= avs.take(i as int));
                assert(avs.take(i + 1 as int).last() == args@[i as int]@);
                assert(outer_args@ =~= outer_args_text(avs.take(i + 1 as int)));
                assert(inner_args@ =~= inner_args_text(avs.take(i + 1 as int)));
                assert(forward_args@ =~= forward_args_text(avs.take(i + 1 as int)));
            }
            i += 1;
        }
        proof {
            assert(avs.take(args@.len() as int) =~= avs);
        }

        let symbol = crate::mangling::linkage_symbol_string(class_fqn, name, &fields);
        let tk = if is_static {
            "class"
        } else {
            "this"
        };
        let tt = if is_static {
            "::jni_sys::jclass"
        } else {
            "::jni_sys::jobject"
        };

        let mut pf = String::new();
        push_str(&mut pf, "#[doc(hidden)] #[no_mangle] pub unsafe extern \"stdcall\" fn ");
        push_str(&mut pf, symbol.as_str());
        push_str(&mut pf, "(env: &::jni_glue::Env, ");
        push_str(&mut pf, tk);
        push_str(&mut pf, ": ");
        push_str(&mut pf, tt);
        push_str(&mut pf, ", ");
        push_str(&mut pf, outer_args.as_str());
        push_str(&mut pf, ") -> ");
        push_str(&mut pf, ret.outer.as_str());
        push_str(&mut pf, " {\n    fn ");
        push_str(&mut pf, name);
        push_str(&mut pf, "<'env>(env: &'env ::jni_glue::Env, ");
        push_str(&mut pf, tk);
        push_str(&mut pf, ": ");
        push_str(&mut pf, tt);
        push_str(&mut pf, ", ");
        push_str(&mut pf, inner_args.as_str());
        push_str(&mut pf, ") -> ::std::result::Result<");
        push_str(&mut pf, ret.inner.as_str());
        push_str(&mut pf, ", ::jni_glue::Throw> ");
        render_token_into(&mut pf, body);
        push_str(&mut pf, "\n");
        proof {
            assert(pf@ =~= shim_prefix(
                class_fqn@,
                name@,
                is_static,
                avs,
                ret.outer@,
                ret.inner@,
                render_token(*body),
            ));
        }

        let mut gd = String::new();
        push_str(&mut gd, "    let r = ::std::panic::catch_unwind(|| ");
        push_str(&mut gd, name);
        push_str(&mut gd, "(env, ");
        push_str(&mut gd, tk);
        push_str(&mut gd, ", ");
        push_str(&mut gd, forward_args.as_str());
        push_str(&mut gd, "));\n    env.unwrap_jni_glue_result(r)\n");
        proof {
            assert(gd@ =~= boundary_guard_text(name@, is_static, avs));
        }

        push_str(&mut self.output, pf.as_str());
        push_str(&mut self.output, gd.as_str());
        push_str(&mut self.output, "}\n");
        proof {
            assert(self.output@ =~= old(self).output@ + shim_text(
                class_fqn@,
                name@,
                is_static,
                avs,
                ret.outer@,
                ret.inner@,
                render_token(*body),
            ));
        }
    }
}

/// The statement boundary lies within the stream and past the starting
/// position.
proof fn lemma_sync_end_bounds(ts: Seq<Token>, p: int)
    requires
        0 <= p <= ts.len(),
    ensures
        p <= sync_end(ts, p) <= ts.len(),
        p < ts.len() ==> sync_end(ts, p) >= p + 1,
    decreases ts.len() - p,
{
    if p < ts.len() && !(ts[p] matches Token::Punct(c) && (c == ';' || c == '}')) {
        lemma_sync_end_bounds(ts, p + 1);
    }
}

/// The dotted-identifier extension never moves backwards.
proof fn lemma_java_id_ext_bounds(ts: Seq<Token>, p: int)
    requires
        0 <= p,
    ensures
        java_id_ext_end(ts, p) >= p,
    decreases ts.len() - p,
{
    if 0 <= p && p + 1 < ts.len() && is_punct(ts, p, '.') && (ts[p + 1] is Ident) {
        lemma_java_id_ext_bounds(ts, p + 2);
    }
}

/// One parsed method declaration: its static flag, resolved source-level
/// return type, name, arguments, and body group.
pub ghost struct MethodDeclView {
    pub is_static: bool,
    pub ret_type: Seq<char>,
    pub name: Seq<char>,
    pub args: Seq<ArgumentView>,
    pub body: Token,
}

/// Spec-level parse of one method declaration starting at `p`: the position
/// where parsing of the next declaration resumes (the end of the stream when
/// a missing token ends the whole block), the declaration when it is well
/// formed, and the errors reported.
pub open spec fn spec_method_decl(
    ts: Seq<Token>,
    p: int,
    imports: Seq<(Seq<char>, Seq<char>)>,
) -> (int, Option<MethodDeclView>, Seq<ErrView>) {
    let ann = spec_annotations(ts, p, false);
    let p1 = ann.0;
    let st = ann.1;
    let e1 = ann.2;
    let rt = resolve_import(imports, java_id_text(ts, p1));
    let p2 = java_id_end(ts, p1);
    if p2 >= ts.len() {
        (
            ts.len() as int,
            None,
            e1 + seq![err_at(ts.len() as int, "Expected:  javaMethodName"@)],
        )
    } else if !(ts[p2] is Ident) {
        (sync_end(ts, p2), None, e1 + seq![err_at(p2, "Expected:  javaMethodName"@)])
    } else {
        let name = ts[p2]->Ident_0@;
        let p3 = p2 + 1;
        if p3 >= ts.len() {
            (
                ts.len() as int,
                None,
                e1 + seq![
                    err_at(ts.len() as int, "Expected:  (...java-style function arguments...)"@),
                ],
            )
        } else {
            match ts[p3] {
                Token::Group(d, ats) => {
                    if d == Delimiter::Parenthesis {
                        let al = spec_args_list(ats@, st, imports);
                        let args = if al.0 {
                            al.1
                        } else {
                            Seq::empty()
                        };
                        let e2 = e1 + al.2;
                        let p4 = p3 + 1;
                        if p4 >= ts.len() {
                            (
                                ts.len() as int,
                                None,
                                e2 + seq![
                                    err_at(
                                        ts.len() as int,
                                        "Expected:  {...rust-style function body...}"@,
                                    ),
                                ],
                            )
                        } else if (ts[p4] matches Token::Group(d2, b) && d2
                            == Delimiter::Brace) {
                            (
                                p4 + 1,
                                Some(
                                    MethodDeclView {
                                        is_static: st,
                                        ret_type: rt,
                                        name,
                                        args,
                                        body: ts[p4],
                                    },
                                ),
                                e2,
                            )
                        } else {
                            (
                                sync_end(ts, p4),
                                None,
                                e2 + seq![
                                    err_at(p4, "Expected:  {...rust-style function body...}"@),
                                ],
                            )
                        }
                    } else {
                        (
                            sync_end(ts, p3 + 1),
                            None,
                            e1 + seq![
                                err_at(p3, "Expected:  (...java-style function arguments...)"@),
                            ],
                        )
                    }
                },
                _ => {
                    (
                        sync_end(ts, p3),
                        None,
                        e1 + seq![
                            err_at(p3, "Expected:  (...java-style function arguments...)"@),
                        ],
                    )
                },
            }
        }
    }
}

/// The shim text of one well-formed method declaration of a class.
pub open spec fn method_decl_text(class_fqn: Seq<char>, d: MethodDeclView) -> Seq<char> {
    shim_text(
        class_fqn,
        d.name,
        d.is_static,
        d.args,
        inbound_outer_type(d.ret_type),
        inbound_inner_type(d.ret_type),
        render_token(d.body),
    )
}

/// Spec-level processing of a whole block body: the concatenated shim texts
/// of its well-formed declarations, and every error reported, in order.
pub open spec fn spec_methods(
    ts: Seq<Token>,
    p: int,
    imports: Seq<(Seq<char>, Seq<char>)>,
    class_fqn: Seq<char>,
) -> (Seq<char>, Seq<ErrView>)
    decreases ts.len() - p,
{
    if !(0 <= p < ts.len()) {
        (Seq::empty(), Seq::empty())
    } else {
        let one = spec_method_decl(ts, p, imports);
        let text = match one.1 {
            Some(d) => method_decl_text(class_fqn, d),
            None => Seq::empty(),
        };
        if !(p < one.0 <= ts.len()) {
            (text, one.2)
        } else {
            let rest = spec_methods(ts, one.0, imports, class_fqn);
            (text + rest.0, one.2 + rest.1)
        }
    }
}

impl Context {
    /// Processes the body of one `unsafe impl class` block: for each method
    /// declaration in turn, parses its annotations, return type, name,
    /// argument list and body, and emits its shim; a malformed declaration
    /// is reported against the offending token and parsing resumes at the
    /// next statement boundary. The imports are read-only, and the output
    /// and error list only ever grow.
    #[verifier::rlimit(100)]
    #[verifier::spinoff_prover]
    pub fn on_unsafe_impl_class_named(&mut self, class_id: String, toks: &Vec<Token>, pos: &mut
        usize)
        requires
            *old(pos) <= toks@.len(),
        ensures
            final(self).imports == old(self).imports,
            *final(pos) <= toks@.len(),
            old(self).output@.is_prefix_of(final(self).output@),
            err_views(old(self).errors@).is_prefix_of(err_views(final(self).errors@)),
            (*old(pos) < toks@.len() && (toks@[*old(pos) as int] matches Token::Group(
                Delimiter::Brace,
                g,
            ))) ==> {
                let body = toks@[*old(pos) as int]->Group_1;
                let imps = map_views(old(self).imports@);
                let sm = spec_methods(body@, 0, imps, resolve_import(imps, class_id@));
                &&& final(self).output@ == old(self).output@ + sm.0
                &&& err_views(final(self).errors@) == err_views(old(self).errors@) + sm.1
                &&& *final(pos) == *old(pos) + 1
            },
            !(*old(pos) < toks@.len() && (toks@[*old(pos) as int] matches Token::Group(
                Delimiter::Brace,
                g,
            ))) ==> {
                &&& final(self).output == old(self).output
                &&& err_views(final(self).errors@) == err_views(old(self).errors@) + seq![
                    err_at(
                        pos_or_len(toks@, *old(pos) as int),
                        "Expected:  { ...java class impl block... }"@,
                    ),
                ]
                &&& *final(pos) == sync_end(
                    toks@,
                    if *old(pos) < toks@.len() {
                        *old(pos) + 1
                    } else {
                        *old(pos) as int
                    },
                )
            },
    {
        let has_group = *pos < toks.len() && matches!(&toks[*pos], Token::Group(Delimiter::Brace, _));
        if !has_group {
            let at = if *pos < toks.len() {
                let a = *pos;
                *pos = a + 1;
                a
            } else {
                toks.len()
            };
            proof {
                lemma_sync_end_bounds(toks@, *pos as int);
            }
            skip_to_sync(toks, pos);
            self.error_at(at, "Expected:  { ...java class impl block... }");
            proof {
                assert(err_views(old(self).errors@).is_prefix_of(err_views(self.errors@)));
            }
            return;
        }
        let ghost cid = class_id@;
        let g: &Vec<Token> = match &toks[*pos] {
            Token::Group(d, g) => g,
            _ => {
                assert(false);
                toks
            },
        };
        let ghost gs = g@;
        proof {
            assert(gs == toks@[*old(pos) as int]->Group_1@);
        }
        *pos = *pos + 1;

        let ghost imps = map_views(self.imports@);
        let class_fqn: String = match map_lookup_exec(&self.imports, class_id.as_str()) {
            Some(c) => c,
            None => class_id,
        };
        let ghost fqn = resolve_import(imps, cid);
        proof {
            assert(class_fqn@ == fqn);
        }

        let ghost out0 = self.output@;
        let ghost errs0 = err_views(self.errors@);
        let ghost whole = spec_methods(gs, 0, imps, fqn);
        let ghost mut done_text: Seq<char> = Seq::empty();
        let ghost mut done_errs: Seq<ErrView> = Seq::empty();
        proof {
            assert(out0 + done_text =~= out0);
            assert(errs0 + done_errs =~~= errs0);
            assert(done_text + spec_methods(gs, 0, imps, fqn).0 =~= whole.0);
            assert(done_errs + spec_methods(gs, 0, imps, fqn).1 =~~= whole.1);
        }
        let mut p: usize = 0;
        loop
            invariant_except_break
                p <= gs.len(),
                gs == g@,
                self.imports == old(self).imports,
                imps == map_views(self.imports@),
                fqn == resolve_import(imps, cid),
                fqn == class_fqn@,
                whole == spec_methods(gs, 0, imps, fqn),
                self.output@ == out0 + done_text,
                err_views(self.errors@) == errs0 + done_errs,
                whole.0 == done_text + spec_methods(gs, p as int, imps, fqn).0,
                whole.1 == done_errs + spec_methods(gs, p as int, imps, fqn).1,
            ensures
                self.imports == old(self).imports,
                self.output@ == out0 + whole.0,
                err_views(self.errors@) == errs0 + whole.1,
            decreases gs.len() - p,
        {
            if p >= g.len() {
                proof {
                    assert(spec_methods(gs, p as int, imps, fqn).0 =~= Seq::<char>::empty());
                    assert(whole.0 =~= done_text);
                    assert(whole.1 =~~= done_errs);
                }
                break;
            }
            let ghost p_entry = p;
            let ghost one = spec_method_decl(gs, p_entry as int, imps);
            let ghost cur_entry = spec_methods(gs, p_entry as int, imps, fqn);
            self.parse_and_emit_method(g, &mut p, class_fqn.as_str());
            proof {
                let text = match one.1 {
                    Some(d) => method_decl_text(fqn, d),
                    None => Seq::<char>::empty(),
                };
                assert(self.output@ =~= (out0 + done_text) + text);
                done_text = done_text + text;
                assert(self.output@ =~= out0 + done_text);
                done_errs = done_errs + one.2;
                assert(err_views(self.errors@) =~~= errs0 + done_errs);
                assert(p_entry < one.0 <= gs.len());
                let cur_new = spec_methods(gs, p as int, imps, fqn);
                assert(cur_entry.0 =~= text + cur_new.0);
                assert(whole.0 =~= done_text + cur_new.0);
                assert(cur_entry.1 =~~= one.2 + cur_new.1);
                assert(whole.1 =~~= done_errs + cur_new.1);
            }
        }
    }

    /// Parses one method declaration and, when it is well formed, emits its
    /// shim: exactly the step of [`spec_method_decl`], with the emitted text
    /// of [`method_decl_text`].
    #[verifier::rlimit(100)]
    #[verifier::spinoff_prover]
    fn parse_and_emit_method(&mut self, g: &Vec<Token>, pos: &mut usize, class_fqn: &str)
        requires
            *old(pos) < g@.len(),
        ensures
            ({
                let one = spec_method_decl(g@, *old(pos) as int, map_views(old(self).imports@));
                &&& *final(pos) == one.0
                &&& *old(pos) < one.0 <= g@.len()
                &&& final(self).imports == old(self).imports
                &&& err_views(final(self).errors@) == err_views(old(self).errors@) + one.2
                &&& final(self).output@ == old(self).output@ + (match one.1 {
                    Some(d) => method_decl_text(class_fqn@, d),
                    None => Seq::<char>::empty(),
                })
            }),
    {
        let ghost gs = g@;
        let ghost imps = map_views(self.imports@);
        let ghost p_entry = *old(pos);
        let ghost one = spec_method_decl(gs, p_entry as int, imps);
        let mut p: usize = *pos;

        let annotations = self.parse_method_annotations(g, &mut p);
        proof {
            lemma_annotations_result(gs, p_entry as int, false);
        }
        let rt = self.consume_resolved_java_identifier(g, &mut p);
        let return_type = Return::new(rt);

        if p >= g.len() {
            self.error_at(g.len(), "Expected:  javaMethodName");
            *pos = g.len();
            proof {
                assert(one.0 == gs.len());
                assert(err_views(self.errors@) =~~= err_views(old(self).errors@) + one.2);
                assert(self.output@ =~= old(self).output@);
            }
            return;
        }
        let name_ok = matches!(&g[p], Token::Ident(_));
        if !name_ok {
            self.error_at(p, "Expected:  javaMethodName");
            proof {
                lemma_sync_end_bounds(gs, p as int);
                lemma_java_id_ext_bounds(gs, p_entry as int + 1);
            }
            skip_to_sync(g, &mut p);
            *pos = p;
            proof {
                assert(p as int == one.0);
                assert(err_views(self.errors@) =~~= err_views(old(self).errors@) + one.2);
            }
            return;
        }
        let method_name: String = match &g[p] {
            Token::Ident(s) => s.clone(),
            _ => String::new(),
        };
        proof {
            lemma_java_id_ext_bounds(gs, p_entry as int + 1);
        }
        p = p + 1;

        if p >= g.len() {
            self.error_at(g.len(), "Expected:  (...java-style function arguments...)");
            *pos = g.len();
            proof {
                assert(one.0 == gs.len());
                assert(err_views(self.errors@) =~~= err_views(old(self).errors@) + one.2);
            }
            return;
        }
        let arguments: Vec<Argument> = match &g[p] {
            Token::Group(Delimiter::Parenthesis, ats) => {
                p = p + 1;
                match self.parse_method_arguments_list(ats, annotations.is_static) {
                    Ok(a) => a,
                    Err(_) => Vec::new(),
                }
            },
            Token::Group(d, other) => {
                self.error_at(p, "Expected:  (...java-style function arguments...)");
                p = p + 1;
                proof {
                    lemma_sync_end_bounds(gs, p as int);
                }
                skip_to_sync(g, &mut p);
                *pos = p;
                proof {
                    assert(p as int == one.0);
                    assert(err_views(self.errors@) =~~= err_views(old(self).errors@) + one.2);
                }
                return;
            },
            _ => {
                self.error_at(p, "Expected:  (...java-style function arguments...)");
                proof {
                    lemma_sync_end_bounds(gs, p as int);
                }
                skip_to_sync(g, &mut p);
                *pos = p;
                proof {
                    assert(p as int == one.0);
                    assert(err_views(self.errors@) =~~= err_views(old(self).errors@) + one.2);
                }
                return;
            },
        };

        if p >= g.len() {
            self.error_at(g.len(), "Expected:  {...rust-style function body...}");
            *pos = g.len();
            proof {
                assert(one.0 == gs.len());
                assert(err_views(self.errors@) =~~= err_views(old(self).errors@) + one.2);
            }
            return;
        }
        let body_ok = matches!(&g[p], Token::Group(Delimiter::Brace, _));
        if !body_ok {
            self.error_at(p, "Expected:  {...rust-style function body...}");
            proof {
                lemma_sync_end_bounds(gs, p as int);
            }
            skip_to_sync(g, &mut p);
            *pos = p;
            proof {
                assert(p as int == one.0);
                assert(err_views(self.errors@) =~~= err_views(old(self).errors@) + one.2);
            }
            return;
        }
        let body = &g[p];
        p = p + 1;
        *pos = p;

        self.emit_shim(
            class_fqn,
            method_name.as_str(),
            annotations.is_static,
            &arguments,
            &return_type,
            body,
        );
        proof {
            assert(one.1 is Some);
            let d = one.1->Some_0;
            assert(d.name == method_name@);
            assert(arg_views(arguments@) =~~= d.args);
            assert(d.body == gs[p as int - 1]);
            assert(p as int == one.0);
            assert(err_views(self.errors@) =~~= err_views(old(self).errors@) + one.2);
            assert(self.output@ =~= old(self).output@ + method_decl_text(class_fqn@, d));
        }
    }

    /// Processes one `unsafe ...` item, expecting
    /// `impl class some.java.ClassName { ... }`: each of the three header
    /// deviations is one error followed by a skip to the next statement
    /// boundary; a well-formed header hands the named block to
    /// [`Context::on_unsafe_impl_class_named`]. The imports are read-only,
    /// and the output and error list only ever grow.
    pub fn on_unsafe(&mut self, toks: &Vec<Token>, pos: &mut usize)
        requires
            *old(pos) <= toks@.len(),
        ensures
            final(self).imports == old(self).imports,
            *final(pos) <= toks@.len(),
            old(self).output@.is_prefix_of(final(self).output@),
            err_views(old(self).errors@).is_prefix_of(err_views(final(self).errors@)),
            !is_ident(toks@, *old(pos) as int, "impl"@) ==> {
                &&& final(self).output == old(self).output
                &&& err_views(final(self).errors@) == err_views(old(self).errors@) + seq![
                    err_at(
                        pos_or_len(toks@, *old(pos) as int),
                        "Expected:  impl class some.java.ClassName { ... }"@,
                    ),
                ]
            },
            is_ident(toks@, *old(pos) as int, "impl"@) && !is_ident(
                toks@,
                *old(pos) + 1,
                "class"@,
            ) ==> {
                &&& final(self).output == old(self).output
                &&& err_views(final(self).errors@) == err_views(old(self).errors@) + seq![
                    err_at(
                        pos_or_len(toks@, *old(pos) + 1),
                        "Expected:  class some.java.ClassName { ... }"@,
                    ),
                ]
            },
            ({
                let p0 = *old(pos) as int;
                let imps = map_views(old(self).imports@);
                let cend = java_id_end(toks@, p0 + 2);
                (is_ident(toks@, p0, "impl"@) && is_ident(toks@, p0 + 1, "class"@)
                    && java_id_text(toks@, p0 + 2).len() > 0 && cend < toks@.len() && (
                toks@[cend] matches Token::Group(Delimiter::Brace, b))) ==> {
                    let sm = spec_methods(
                        toks@[cend]->Group_1@,
                        0,
                        imps,
                        resolve_import(imps, java_id_text(toks@, p0 + 2)),
                    );
                    &&& final(self).output@ == old(self).output@ + sm.0
                    &&& err_views(final(self).errors@) == err_views(old(self).errors@) + sm.1
                    &&& *final(pos) == cend + 1
                }
            }),
            is_ident(toks@, *old(pos) as int, "impl"@) && is_ident(toks@, *old(pos) + 1, "class"@)
                && java_id_text(toks@, *old(pos) + 2).len() == 0 ==> {
                &&& final(self).output == old(self).output
                &&& err_views(final(self).errors@) == err_views(old(self).errors@) + seq![
                    err_at(
                        java_id_end(toks@, *old(pos) + 2),
                        "Expected:  some.java.ClassName { ... }"@,
                    ),
                ]
            },
    {
        let impl_ok = *pos < toks.len() && (match &toks[*pos] {
            Token::Ident(s) => str_eq(s.as_str(), "impl"),
            _ => false,
        });
        if !impl_ok {
            let at = if *pos < toks.len() {
                let a = *pos;
                *pos = a + 1;
                a
            } else {
                toks.len()
            };
            skip_to_sync(toks, pos);
            self.error_at(at, "Expected:  impl class some.java.ClassName { ... }");
            return;
        }
        *pos = *pos + 1;

        let class_ok = *pos < toks.len() && (match &toks[*pos] {
            Token::Ident(s) => str_eq(s.as_str(), "class"),
            _ => false,
        });
        if !class_ok {
            let at = if *pos < toks.len() {
                let a = *pos;
                *pos = a + 1;
                a
            } else {
                toks.len()
            };
            skip_to_sync(toks, pos);
            self.error_at(at, "Expected:  class some.java.ClassName { ... }");
            return;
        }
        *pos = *pos + 1;

        let class = consume_java_identifier(toks, pos);
        if class.as_str().is_empty() {
            let before = *pos;
            skip_to_sync(toks, pos);
            self.error_at(before, "Expected:  some.java.ClassName { ... }");
            return;
        }

        self.on_unsafe_impl_class_named(class, toks, pos);
    }
}

} // verus!
