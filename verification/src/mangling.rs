//! Symbol mangling: the human-readable native identifier derived from a
//! managed method name, and the runtime-mandated linkage symbol
//! `Java_<escaped class FQN>_<method name>[__<parameter codes>]` for exposed
//! native methods.

use vstd::prelude::*;
use vstd::string::StrSliceExecFns;
use crate::descriptor::BasicType;
use crate::descriptor::BasicTypeView;
use crate::descriptor::FieldType;
use crate::descriptor::FieldTypeView;
use crate::descriptor::MethodDescriptor;
use crate::descriptor::parse_descriptor;
use crate::text::push_char;
use crate::text::push_str;
use crate::text::str_eq;

verus! {

/// The lowercase hexadecimal digit for a value below sixteen.
pub open spec fn hex_digit(d: nat) -> char
    recommends
        d < 16,
{
    if d == 0 { '0' }
    else if d == 1 { '1' }
    else if d == 2 { '2' }
    else if d == 3 { '3' }
    else if d == 4 { '4' }
    else if d == 5 { '5' }
    else if d == 6 { '6' }
    else if d == 7 { '7' }
    else if d == 8 { '8' }
    else if d == 9 { '9' }
    else if d == 10 { 'a' }
    else if d == 11 { 'b' }
    else if d == 12 { 'c' }
    else if d == 13 { 'd' }
    else if d == 14 { 'e' }
    else { 'f' }
}

/// Four lowercase hexadecimal digits of a sixteen-bit value.
pub open spec fn hex4(n: nat) -> Seq<char>
    recommends
        n < 0x10000,
{
    seq![
        hex_digit(n / 0x1000 % 16),
        hex_digit(n / 0x100 % 16),
        hex_digit(n / 0x10 % 16),
        hex_digit(n % 16),
    ]
}

/// Whether a character needs no escaping in a linkage symbol.
pub open spec fn symbol_plain(c: char) -> bool {
    ('a' <= c <= 'z') || ('A' <= c <= 'Z') || ('0' <= c <= '9') || c == '_'
}

/// The escape of one class-name character for use in a linkage symbol:
/// package separators become `'_'`; characters that are valid symbol
/// characters stay; anything else becomes `_0` followed by the hexadecimal
/// UTF-16 code units of the character.
pub open spec fn escape_char(c: char) -> Seq<char> {
    if c == '.' || c == '/' {
        seq!['_']
    } else if symbol_plain(c) {
        seq![c]
    } else if (c as nat) < 0x10000 {
        seq!['_', '0'] + hex4(c as nat)
    } else {
        seq!['_', '0'] + hex4((0xD800 + ((c as nat) - 0x10000) / 0x400) as nat) + seq!['_', '0']
            + hex4((0xDC00 + ((c as nat) - 0x10000) % 0x400) as nat)
    }
}

/// The escaped form of a fully-qualified class name.
pub open spec fn escaped_fqn(s: Seq<char>) -> Seq<char>
    decreases s.len(),
{
    if s.len() == 0 {
        Seq::empty()
    } else {
        escaped_fqn(s.drop_last()) + escape_char(s.last())
    }
}

/// A run of `n` escaped array markers `_3`.
pub open spec fn array_marker_run(n: nat) -> Seq<char>
    decreases n,
{
    if n == 0 {
        Seq::empty()
    } else {
        array_marker_run((n - 1) as nat) + seq!['_', '3']
    }
}

/// The symbol-safe JNI type code of a basic type: its descriptor code, with a
/// class reference written `L<escaped name>_2`.
pub open spec fn basic_type_code(b: BasicTypeView) -> Seq<char> {
    match b {
        BasicTypeView::Void => seq!['V'],
        BasicTypeView::Boolean => seq!['Z'],
        BasicTypeView::Byte => seq!['B'],
        BasicTypeView::Char => seq!['C'],
        BasicTypeView::Short => seq!['S'],
        BasicTypeView::Int => seq!['I'],
        BasicTypeView::Long => seq!['J'],
        BasicTypeView::Float => seq!['F'],
        BasicTypeView::Double => seq!['D'],
        BasicTypeView::Class(name) => seq!['L'] + escaped_fqn(name) + seq!['_', '2'],
    }
}

/// The symbol-safe JNI type code of a field type.
pub open spec fn field_type_code(f: FieldTypeView) -> Seq<char> {
    match f {
        FieldTypeView::Single(b) => basic_type_code(b),
        FieldTypeView::Array { levels, inner } => array_marker_run(levels) + basic_type_code(inner),
    }
}

/// The concatenated type codes of a parameter list.
pub open spec fn concat_type_codes(ps: Seq<FieldTypeView>) -> Seq<char>
    decreases ps.len(),
{
    if ps.len() == 0 {
        Seq::empty()
    } else {
        concat_type_codes(ps.drop_last()) + field_type_code(ps.last())
    }
}

/// The exported linkage symbol for a native method: `Java_`, the escaped
/// class name, `_`, the method name, and, when the method has parameters,
/// `__` and every parameter's type code in declaration order.
pub open spec fn linkage_symbol(
    class_fqn: Seq<char>,
    method_name: Seq<char>,
    params: Seq<FieldTypeView>,
) -> Seq<char> {
    let base = "Java_"@ + escaped_fqn(class_fqn) + seq!['_'] + method_name;
    if params.len() == 0 {
        base
    } else {
        base + seq!['_', '_'] + concat_type_codes(params)
    }
}

/// Appends the lowercase hexadecimal digit of a value below sixteen.
fn push_hex_digit(out: &mut String, d: u32)
    requires
        d < 16,
    ensures
        final(out)@ == old(out)@ + seq![hex_digit(d as nat)],
{
    let c = match d {
        0 => '0',
        1 => '1',
        2 => '2',
        3 => '3',
        4 => '4',
        5 => '5',
        6 => '6',
        7 => '7',
        8 => '8',
        9 => '9',
        10 => 'a',
        11 => 'b',
        12 => 'c',
        13 => 'd',
        14 => 'e',
        _ => 'f',
    };
    assert(c == hex_digit(d as nat));
    push_char(out, c);
}

/// Appends the four hexadecimal digits of a sixteen-bit value.
pub(crate) fn push_hex4(out: &mut String, n: u32)
    requires
        n < 0x10000,
    ensures
        final(out)@ == old(out)@ + hex4(n as nat),
{
    push_hex_digit(out, n / 0x1000 % 16);
    push_hex_digit(out, n / 0x100 % 16);
    push_hex_digit(out, n / 0x10 % 16);
    push_hex_digit(out, n % 16);
    proof {
        assert(out@ =~= old(out)@ + hex4(n as nat));
    }
}

/// Whether a character may stand unescaped in a linkage symbol.
fn symbol_plain_exec(c: char) -> (r: bool)
    ensures
        r == symbol_plain(c),
{
    ('a' <= c && c <= 'z') || ('A' <= c && c <= 'Z') || ('0' <= c && c <= '9') || c == '_'
}

/// Appends the linkage-symbol escape of one class-name character.
fn push_escaped_char(out: &mut String, c: char)
    ensures
        final(out)@ == old(out)@ + escape_char(c),
{
    if c == '.' || c == '/' {
        push_char(out, '_');
    } else if symbol_plain_exec(c) {
        push_char(out, c);
    } else {
        let n = c as u32;
        if n < 0x10000 {
            push_char(out, '_');
            push_char(out, '0');
            push_hex4(out, n);
            proof {
                assert(out@ =~= old(out)@ + escape_char(c));
            }
        } else {
            let high = 0xD800 + (n - 0x10000) / 0x400;
            let low = 0xDC00 + (n - 0x10000) % 0x400;
            push_char(out, '_');
            push_char(out, '0');
            push_hex4(out, high);
            push_char(out, '_');
            push_char(out, '0');
            push_hex4(out, low);
            proof {
                assert(out@ =~= old(out)@ + escape_char(c));
            }
        }
    }
}

/// Appends the escaped form of a fully-qualified class name.
pub fn push_escaped_fqn(out: &mut String, s: &str)
    ensures
        final(out)@ == old(out)@ + escaped_fqn(s@),
{
    let len = s.unicode_len();
    let mut i: usize = 0;
    while i < len
        invariant
            i <= len,
            len == s@.len(),
            out@ == old(out)@ + escaped_fqn(s@.take(i as int)),
        decreases len - i,
    {
        push_escaped_char(out, s.get_char(i));
        proof {
            assert(s@.take(i + 1 as int).drop_last() =~= s@.take(i as int));
            assert(out@ =~= old(out)@ + escaped_fqn(s@.take(i + 1 as int)));
        }
        i += 1;
    }
    proof {
        assert(s@.take(len as int) =~= s@);
    }
}

/// The escaped form of a fully-qualified class name, as its own string.
pub fn escape_class_fqn(s: &str) -> (r: String)
    ensures
        r@ == escaped_fqn(s@),
{
    let mut out = String::new();
    push_escaped_fqn(&mut out, s);
    out
}

/// Appends the symbol-safe type code of one basic type.
fn push_basic_type_code(out: &mut String, b: &BasicType)
    ensures
        final(out)@ == old(out)@ + basic_type_code(b@),
{
    match b {
        BasicType::Void => push_char(out, 'V'),
        BasicType::Boolean => push_char(out, 'Z'),
        BasicType::Byte => push_char(out, 'B'),
        BasicType::Char => push_char(out, 'C'),
        BasicType::Short => push_char(out, 'S'),
        BasicType::Int => push_char(out, 'I'),
        BasicType::Long => push_char(out, 'J'),
        BasicType::Float => push_char(out, 'F'),
        BasicType::Double => push_char(out, 'D'),
        BasicType::Class(name) => {
            push_char(out, 'L');
            push_escaped_fqn(out, name.as_str());
            push_char(out, '_');
            push_char(out, '2');
            proof {
                assert(out@ =~= old(out)@ + basic_type_code(b@));
            }
        },
    }
}

/// Appends the symbol-safe type code of one field type.
pub fn push_field_type_code(out: &mut String, f: &FieldType)
    ensures
        final(out)@ == old(out)@ + field_type_code(f@),
{
    match f {
        FieldType::Single(b) => push_basic_type_code(out, b),
        FieldType::Array { levels, inner } => {
            let n = *levels;
            let mut i: usize = 0;
            while i < n
                invariant
                    i <= n,
                    out@ == old(out)@ + array_marker_run(i as nat),
                decreases n - i,
            {
                push_char(out, '_');
                push_char(out, '3');
                proof {
                    assert(out@ =~= old(out)@ + array_marker_run((i + 1) as nat));
                }
                i += 1;
            }
            push_basic_type_code(out, inner);
            proof {
                assert(out@ =~= old(out)@ + field_type_code(f@));
            }
        },
    }
}

/// The linkage symbol of a native method: class name, method name, and the
/// parameter types in declaration order.
pub fn linkage_symbol_string(class_fqn: &str, method_name: &str, params: &Vec<FieldType>) -> (r:
    String)
    ensures
        r@ == linkage_symbol(
            class_fqn@,
            method_name@,
            params@.map_values(|f: FieldType| f@),
        ),
{
    let ghost pviews = params@.map_values(|f: FieldType| f@);
    let mut out = String::new();
    push_str(&mut out, "Java_");
    push_escaped_fqn(&mut out, class_fqn);
    push_char(&mut out, '_');
    push_str(&mut out, method_name);
    let ghost base = "Java_"@ + escaped_fqn(class_fqn@) + seq!['_'] + method_name@;
    proof {
        assert(out@ =~= base);
    }
    if params.len() > 0 {
        push_char(&mut out, '_');
        push_char(&mut out, '_');
        let mut i: usize = 0;
        while i < params.len()
            invariant
                i <= params@.len(),
                pviews == params@.map_values(|f: FieldType| f@),
                out@ == base + seq!['_', '_'] + concat_type_codes(pviews.take(i as int)),
            decreases params@.len() - i,
        {
            push_field_type_code(&mut out, &params[i]);
            proof {
                assert(pviews.take(i + 1 as int).drop_last() =~= pviews.take(i as int));
                assert(pviews.take(i + 1 as int).last() == params@[i as int]@);
                assert(out@ =~= base + seq!['_', '_'] + concat_type_codes(
                    pviews.take(i + 1 as int),
                ));
            }
            i += 1;
        }
        proof {
            assert(pviews.take(params@.len() as int) =~= pviews);
            assert(pviews.len() > 0);
        }
    }
    out
}

/// The configurable human-readable naming styles.
#[derive(Clone, Copy, Debug, PartialEq, Eq, Structural)]
pub enum MethodManglingStyle {
    /// Keep the original managed name (constructors become `new`).
    Java,
    /// The `Java` name, disambiguated with `__` and the parameter type codes
    /// when the method has parameters.
    JavaShortSignature,
}

/// The failure condition for a name that cannot be represented as a native
/// identifier under the chosen style.
#[derive(Debug, PartialEq, Eq)]
pub struct MangleFailure;

/// Whether `s` is a Rust keyword, which cannot serve as an identifier.
pub open spec fn is_rust_keyword(s: Seq<char>) -> bool {
    ||| s == "as"@
    ||| s == "async"@
    ||| s == "await"@
    ||| s == "break"@
    ||| s == "const"@
    ||| s == "continue"@
    ||| s == "crate"@
    ||| s == "dyn"@
    ||| s == "else"@
    ||| s == "enum"@
    ||| s == "extern"@
    ||| s == "false"@
    ||| s == "fn"@
    ||| s == "for"@
    ||| s == "if"@
    ||| s == "impl"@
    ||| s == "in"@
    ||| s == "let"@
    ||| s == "loop"@
    ||| s == "match"@
    ||| s == "mod"@
    ||| s == "move"@
    ||| s == "mut"@
    ||| s == "pub"@
    ||| s == "ref"@
    ||| s == "return"@
    ||| s == "self"@
    ||| s == "Self"@
    ||| s == "static"@
    ||| s == "struct"@
    ||| s == "super"@
    ||| s == "trait"@
    ||| s == "true"@
    ||| s == "type"@
    ||| s == "unsafe"@
    ||| s == "use"@
    ||| s == "where"@
    ||| s == "while"@
}

/// Whether a character may start a native identifier.
pub open spec fn ident_start(c: char) -> bool {
    ('a' <= c <= 'z') || ('A' <= c <= 'Z') || c == '_'
}

/// Whether a character may continue a native identifier.
pub open spec fn ident_continue(c: char) -> bool {
    ident_start(c) || ('0' <= c <= '9')
}

/// Whether `s` is usable as a native identifier: nonempty, made of identifier
/// characters, not the bare underscore, and not a keyword.
pub open spec fn valid_rust_ident(s: Seq<char>) -> bool {
    &&& s.len() > 0
    &&& ident_start(s[0])
    &&& forall|i: int| 1 <= i < s.len() ==> ident_continue(#[trigger] s[i])
    &&& s != seq!['_']
    &&& !is_rust_keyword(s)
}

/// The `Java` naming style: a method named as a constructor becomes `new`;
/// any other name is kept when it is usable as a native identifier, and fails
/// otherwise.
pub open spec fn spec_mangle_java(name: Seq<char>) -> Option<Seq<char>> {
    if name == "<init>"@ {
        Some("new"@)
    } else if valid_rust_ident(name) {
        Some(name)
    } else {
        None
    }
}

/// The mangled name under a style, of a managed name and its descriptor
/// string; `None` is a mangle failure.
pub open spec fn spec_mangle(
    style: MethodManglingStyle,
    name: Seq<char>,
    desc: Seq<char>,
) -> Option<Seq<char>> {
    match style {
        MethodManglingStyle::Java => spec_mangle_java(name),
        MethodManglingStyle::JavaShortSignature => {
            match spec_mangle_java(name) {
                Some(base) => match parse_descriptor(desc) {
                    Some((ps, r)) => if ps.len() == 0 {
                        Some(base)
                    } else {
                        Some(base + seq!['_', '_'] + concat_type_codes(ps))
                    },
                    None => None,
                },
                None => None,
            }
        },
    }
}

/// Whether `s` is a Rust keyword.
fn is_rust_keyword_exec(s: &str) -> (r: bool)
    ensures
        r == is_rust_keyword(s@),
{
    str_eq(s, "as") || str_eq(s, "async") || str_eq(s, "await") || str_eq(s, "break") || str_eq(
        s,
        "const",
    ) || str_eq(s, "continue") || str_eq(s, "crate") || str_eq(s, "dyn") || str_eq(s, "else")
        || str_eq(s, "enum") || str_eq(s, "extern") || str_eq(s, "false") || str_eq(s, "fn")
        || str_eq(s, "for") || str_eq(s, "if") || str_eq(s, "impl") || str_eq(s, "in") || str_eq(
        s,
        "let",
    ) || str_eq(s, "loop") || str_eq(s, "match") || str_eq(s, "mod") || str_eq(s, "move")
        || str_eq(s, "mut") || str_eq(s, "pub") || str_eq(s, "ref") || str_eq(s, "return")
        || str_eq(s, "self") || str_eq(s, "Self") || str_eq(s, "static") || str_eq(s, "struct")
        || str_eq(s, "super") || str_eq(s, "trait") || str_eq(s, "true") || str_eq(s, "type")
        || str_eq(s, "unsafe") || str_eq(s, "use") || str_eq(s, "where") || str_eq(s, "while")
}

/// Whether `s` is usable as a native identifier.
pub fn valid_rust_ident_exec(s: &str) -> (r: bool)
    ensures
        r == valid_rust_ident(s@),
{
    let len = s.unicode_len();
    if len == 0 {
        return false;
    }
    let c0 = s.get_char(0);
    if !(('a' <= c0 && c0 <= 'z') || ('A' <= c0 && c0 <= 'Z') || c0 == '_') {
        return false;
    }
    let mut i: usize = 1;
    while i < len
        invariant
            1 <= i <= len,
            len == s@.len(),
            forall|j: int| 1 <= j < i ==> ident_continue(#[trigger] s@[j]),
        decreases len - i,
    {
        let c = s.get_char(i);
        if !(('a' <= c && c <= 'z') || ('A' <= c && c <= 'Z') || ('0' <= c && c <= '9') || c
            == '_') {
            return false;
        }
        i += 1;
    }
    if len == 1 && c0 == '_' {
        proof {
            assert(s@ =~= seq!['_']);
        }
        return false;
    }
    assert(s@ != seq!['_']) by {
        if len == 1 {
            assert(s@[0] != '_');
        }
    }
    !is_rust_keyword_exec(s)
}

/// The mangled name of a managed method under a naming style, per
/// [`spec_mangle`].
pub fn mangle(style: MethodManglingStyle, name: &str, desc: &str) -> (r: Result<
    String,
    MangleFailure,
>)
    ensures
        match r {
            Ok(m) => spec_mangle(style, name@, desc@) == Some(m@),
            Err(_) => spec_mangle(style, name@, desc@) is None,
        },
{
    let base = if str_eq(name, "<init>") {
        String::from_str("new")
    } else if valid_rust_ident_exec(name) {
        name.to_owned()
    } else {
        return Err(MangleFailure);
    };
    match style {
        MethodManglingStyle::Java => Ok(base),
        MethodManglingStyle::JavaShortSignature => {
            match MethodDescriptor::parse(desc) {
                Ok(d) => {
                    if d.params.len() == 0 {
                        Ok(base)
                    } else {
                        let ghost pviews = d.params@.map_values(|f: FieldType| f@);
                        let mut out = base;
                        let ghost base_view = out@;
                        push_char(&mut out, '_');
                        push_char(&mut out, '_');
                        let mut i: usize = 0;
                        while i < d.params.len()
                            invariant
                                i <= d.params@.len(),
                                pviews == d.params@.map_values(|f: FieldType| f@),
                                out@ == base_view + seq!['_', '_'] + concat_type_codes(
                                    pviews.take(i as int),
                                ),
                            decreases d.params@.len() - i,
                        {
                            push_field_type_code(&mut out, &d.params[i]);
                            proof {
                                assert(pviews.take(i + 1 as int).drop_last() =~= pviews.take(
                                    i as int,
                                ));
                                assert(pviews.take(i + 1 as int).last() == d.params@[i as int]@);
                                assert(out@ =~= base_view + seq!['_', '_'] + concat_type_codes(
                                    pviews.take(i + 1 as int),
                                ));
                            }
                            i += 1;
                        }
                        proof {
                            assert(pviews.take(d.params@.len() as int) =~= pviews);
                            assert(pviews.len() > 0);
                        }
                        Ok(out)
                    }
                },
                Err(_) => Err(MangleFailure),
            }
        },
    }
}

} // verus!
