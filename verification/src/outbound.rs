//! The outbound wrapper emitter: for one managed method, the text of a native
//! function that looks up the class and method handles, marshals the
//! arguments, invokes the managed method, and unwraps the result. A method
//! that fails any gate is still emitted, as a commented-out skeleton that
//! documents every collected rejection reason.

use vstd::prelude::*;
use crate::config::EmitContext;
use crate::config::make_key2;
use crate::config::make_key3;
use crate::config::map_lookup_exec;
use crate::config::set_contains_exec;
use crate::config::StaticEnvStyle;
use crate::config::doc_lookup;
use crate::config::doc_views;
use crate::config::key2;
use crate::config::key3;
use crate::config::map_lookup;
use crate::config::map_views;
use crate::config::set_contains;
use crate::config::set_views;
use crate::descriptor::BasicType;
use crate::descriptor::BasicTypeView;
use crate::descriptor::FieldType;
use crate::descriptor::FieldTypeView;
use crate::descriptor::MethodDescriptor;
use crate::descriptor::field_type_chars;
use crate::descriptor::field_views;
use crate::descriptor::parse_descriptor;
use crate::mangling::hex4;
use crate::method::ACC_BRIDGE;
use crate::method::ACC_PUBLIC;
use crate::method::ACC_STATIC;
use crate::method::ACC_VARARGS;
use crate::method::Method;
use crate::method::MethodView;
use crate::method::flags_contain;
use crate::text::dec_str;
use crate::text::push_char;
use crate::text::push_str;

verus! {

/// The debug escape of one character inside a quoted literal.
pub open spec fn dbg_escape_char(c: char) -> Seq<char> {
    if c == '\\' {
        seq!['\\', '\\']
    } else if c == '"' {
        seq!['\\', '"']
    } else {
        seq![c]
    }
}

/// The debug escape of a string's characters.
pub open spec fn dbg_escaped(s: Seq<char>) -> Seq<char>
    decreases s.len(),
{
    if s.len() == 0 {
        Seq::empty()
    } else {
        dbg_escaped(s.drop_last()) + dbg_escape_char(s.last())
    }
}

/// A quoted string literal with debug escaping.
pub open spec fn quoted(s: Seq<char>) -> Seq<char> {
    seq!['"'] + dbg_escaped(s) + seq!['"']
}

/// A quoted string literal with a trailing NUL escape, as handed to the
/// runtime's lookup calls.
pub open spec fn cstr_lit(s: Seq<char>) -> Seq<char> {
    seq!['"'] + dbg_escaped(s) + seq!['\\', '0', '"']
}

/// Whether the method is suppressed by configuration, at any of the three
/// specificity tiers.
pub open spec fn is_ignored(m: MethodView, ctx: EmitContext) -> bool {
    ||| set_contains(set_views(ctx.config.ignore_classes@), m.java_class)
    ||| set_contains(set_views(ctx.config.ignore_class_methods@), key2(m.java_class, m.java_name))
    ||| set_contains(
        set_views(ctx.config.ignore_class_method_sigs@),
        key3(m.java_class, m.java_name, m.java_desc),
    )
}

/// The configured replacement name, if any, checked at the three specificity
/// tiers in order.
pub open spec fn renamed_to(m: MethodView, ctx: EmitContext) -> Option<Seq<char>> {
    match map_lookup(map_views(ctx.config.rename_classes@), m.java_class) {
        Some(n) => Some(n),
        None => match map_lookup(
            map_views(ctx.config.rename_class_methods@),
            key2(m.java_class, m.java_name),
        ) {
            Some(n) => Some(n),
            None => map_lookup(
                map_views(ctx.config.rename_class_method_sigs@),
                key3(m.java_class, m.java_name, m.java_desc),
            ),
        },
    }
}

/// The name the wrapper is emitted under: the configured rename, else the
/// mangled name, else the raw managed name.
pub open spec fn chosen_name(m: MethodView, ctx: EmitContext) -> Seq<char> {
    match renamed_to(m, ctx) {
        Some(n) => n,
        None => match m.rust_name {
            Some(n) => n,
            None => m.java_name,
        },
    }
}

/// The parameter types and return type the emission works over: the parsed
/// descriptor, or the trivial fallback (no parameters, `Void` return) when
/// the descriptor is malformed.
pub open spec fn effective_descriptor(m: MethodView) -> (Seq<FieldTypeView>, FieldTypeView) {
    match parse_descriptor(m.java_desc) {
        Some(d) => d,
        None => (Seq::empty(), FieldTypeView::Single(BasicTypeView::Void)),
    }
}

/// The name of the argument at an index.
pub open spec fn arg_name(idx: nat) -> Seq<char> {
    "arg"@ + dec_str(idx)
}

/// Whether an argument of this type crosses the boundary as an object
/// reference (so its cell conversion goes through `.into()`).
pub open spec fn arg_is_object(f: FieldTypeView) -> bool {
    match f {
        FieldTypeView::Single(b) => b is Class,
        FieldTypeView::Array { levels, inner } => !(levels == 1 && inner is Void),
    }
}

/// The native type of a primitive argument or return value.
pub open spec fn prim_type_text(b: BasicTypeView) -> Seq<char> {
    match b {
        BasicTypeView::Void => "???"@,
        BasicTypeView::Boolean => "bool"@,
        BasicTypeView::Byte => "i8"@,
        BasicTypeView::Char => "__jni_bindgen::jchar"@,
        BasicTypeView::Short => "i16"@,
        BasicTypeView::Int => "i32"@,
        BasicTypeView::Long => "i64"@,
        BasicTypeView::Float => "f32"@,
        BasicTypeView::Double => "f64"@,
        BasicTypeView::Class(name) => Seq::empty(),
    }
}

/// The array wrapper type name of a primitive element type.
pub open spec fn array_class_text(b: BasicTypeView) -> Seq<char> {
    match b {
        BasicTypeView::Boolean => "__jni_bindgen::BooleanArray"@,
        BasicTypeView::Byte => "__jni_bindgen::ByteArray"@,
        BasicTypeView::Char => "__jni_bindgen::CharArray"@,
        BasicTypeView::Short => "__jni_bindgen::ShortArray"@,
        BasicTypeView::Int => "__jni_bindgen::IntArray"@,
        BasicTypeView::Long => "__jni_bindgen::LongArray"@,
        BasicTypeView::Float => "__jni_bindgen::FloatArray"@,
        BasicTypeView::Double => "__jni_bindgen::DoubleArray"@,
        _ => Seq::empty(),
    }
}

/// The argument-position type of an optional borrowed reference to `inner`.
pub open spec fn arg_ref_text(inner: Seq<char>) -> Seq<char> {
    "impl __jni_bindgen::std::convert::Into<__jni_bindgen::std::option::Option<&'env "@ + inner
        + ">>"@
}

/// The return-position type of an optional owned reference to `inner`.
pub open spec fn ret_ref_text(inner: Seq<char>) -> Seq<char> {
    "__jni_bindgen::std::option::Option<__jni_bindgen::Local<'env, "@ + inner + ">>"@
}

/// Whether a field type is a supported single-level array of a primitive.
pub open spec fn is_prim_array(f: FieldTypeView) -> bool {
    match f {
        FieldTypeView::Array { levels, inner } => levels == 1 && !(inner is Void) && !(
        inner is Class),
        _ => false,
    }
}

/// The argument-position native type of a field type.
pub open spec fn arg_type_text(f: FieldTypeView, ctx: EmitContext) -> Seq<char> {
    match f {
        FieldTypeView::Single(b) => match b {
            BasicTypeView::Class(name) => match map_lookup(map_views(ctx.rust_paths@), name) {
                Some(path) => arg_ref_text(path),
                None => quoted(name),
            },
            _ => prim_type_text(b),
        },
        FieldTypeView::Array { levels, inner } => {
            if levels == 1 && inner is Void {
                "???"@
            } else if is_prim_array(f) {
                arg_ref_text(array_class_text(inner))
            } else {
                quoted(field_type_chars(f))
            }
        },
    }
}

/// The rejection reasons one argument contributes, by its index.
pub open spec fn arg_reasons(f: FieldTypeView, ctx: EmitContext, idx: nat) -> Seq<Seq<char>> {
    match f {
        FieldTypeView::Single(b) => match b {
            BasicTypeView::Void => seq!["Void arguments aren't a thing: "@ + arg_name(idx)],
            BasicTypeView::Class(name) => match map_lookup(map_views(ctx.rust_paths@), name) {
                Some(path) => Seq::empty(),
                None => seq!["Failed to resolve JNI path to Rust path for argument type"@],
            },
            _ => Seq::empty(),
        },
        FieldTypeView::Array { levels, inner } => {
            if levels == 1 && inner is Void {
                seq!["Accepting arrays of void isn't a thing"@]
            } else if is_prim_array(f) {
                Seq::empty()
            } else {
                seq!["Passing in arrays of arrays/objects is not yet supported"@]
            }
        },
    }
}

/// The rejection reasons of all arguments, in declaration order.
pub open spec fn args_reasons(ps: Seq<FieldTypeView>, ctx: EmitContext) -> Seq<Seq<char>>
    decreases ps.len(),
{
    if ps.len() == 0 {
        Seq::empty()
    } else {
        args_reasons(ps.drop_last(), ctx) + arg_reasons(ps.last(), ctx, (ps.len() - 1) as nat)
    }
}

/// The return-position native type of a field type.
pub open spec fn ret_type_text(f: FieldTypeView, ctx: EmitContext) -> Seq<char> {
    match f {
        FieldTypeView::Single(b) => match b {
            BasicTypeView::Void => "()"@,
            BasicTypeView::Class(name) => match map_lookup(map_views(ctx.rust_paths@), name) {
                Some(path) => ret_ref_text(path),
                None => quoted(name),
            },
            _ => prim_type_text(b),
        },
        FieldTypeView::Array { levels, inner } => {
            if levels == 1 && inner is Void {
                "???"@
            } else if is_prim_array(f) {
                ret_ref_text(array_class_text(inner))
            } else {
                quoted(field_type_chars(f))
            }
        },
    }
}

/// The rejection reasons the return type contributes.
pub open spec fn ret_reasons(f: FieldTypeView, ctx: EmitContext) -> Seq<Seq<char>> {
    match f {
        FieldTypeView::Single(b) => match b {
            BasicTypeView::Class(name) => match map_lookup(map_views(ctx.rust_paths@), name) {
                Some(path) => Seq::empty(),
                None => seq!["Failed to resolve JNI path to Rust path for return type"@],
            },
            _ => Seq::empty(),
        },
        FieldTypeView::Array { levels, inner } => {
            if levels == 1 && inner is Void {
                seq!["Returning arrays of void isn't a thing"@]
            } else if is_prim_array(f) {
                Seq::empty()
            } else {
                seq!["Returning arrays of objects or arrays not yet supported"@]
            }
        },
    }
}

/// The invocation entry-point fragment keyed by the return type's runtime
/// category.
pub open spec fn ret_fragment(f: FieldTypeView) -> Seq<char> {
    match f {
        FieldTypeView::Single(b) => match b {
            BasicTypeView::Void => "void"@,
            BasicTypeView::Boolean => "boolean"@,
            BasicTypeView::Byte => "byte"@,
            BasicTypeView::Char => "char"@,
            BasicTypeView::Short => "short"@,
            BasicTypeView::Int => "int"@,
            BasicTypeView::Long => "long"@,
            BasicTypeView::Float => "float"@,
            BasicTypeView::Double => "double"@,
            BasicTypeView::Class(name) => "object"@,
        },
        FieldTypeView::Array { .. } => "object"@,
    }
}

/// One reason, present when its gate fails.
pub open spec fn opt_reason(cond: bool, msg: Seq<char>) -> Seq<Seq<char>> {
    if cond {
        seq![msg]
    } else {
        Seq::empty()
    }
}

/// Whether the method is named as a constructor.
pub open spec fn is_constructor_name(m: MethodView) -> bool {
    m.java_name == "<init>"@
}

/// Whether the wrapper is a static or constructor call, which must acquire
/// its environment explicitly.
pub open spec fn needs_static_env(m: MethodView) -> bool {
    is_constructor_name(m) || flags_contain(m.access_flags, ACC_STATIC)
}

/// The policy gate reasons, in their stable order: mangle failure,
/// non-public, varargs, bridge, static initializer, configured ignore, and a
/// malformed descriptor.
pub open spec fn gate_reasons(m: MethodView, ctx: EmitContext) -> Seq<Seq<char>> {
    opt_reason(
        renamed_to(m, ctx) is None && m.rust_name is None,
        "Failed to mangle method name"@,
    ) + opt_reason(!flags_contain(m.access_flags, ACC_PUBLIC), "Non-public method"@) + opt_reason(
        flags_contain(m.access_flags, ACC_VARARGS),
        "Marked as varargs - haven't decided on how I want to handle this."@,
    ) + opt_reason(flags_contain(m.access_flags, ACC_BRIDGE), "Bridge method - type erasure"@)
        + opt_reason(
        m.java_name == "<clinit>"@,
        "Static class constructor - never needs to be called by Rust."@,
    ) + opt_reason(is_ignored(m, ctx), "[[ignore]]d"@) + opt_reason(
        parse_descriptor(m.java_desc) is None,
        "Invalid method descriptor"@,
    )
}

/// The reason contributed by an unimplemented environment style, for static
/// and constructor calls only.
pub open spec fn env_reasons(m: MethodView, ctx: EmitContext) -> Seq<Seq<char>> {
    opt_reason(
        needs_static_env(m) && ctx.config.codegen.static_env is Implicit,
        "StaticEnvStyle::Implicit not yet implemented"@,
    )
}

/// The reasons the constructor shape contributes: a constructor whose
/// descriptor declares a non-`Void` return is malformed; one with `Void`
/// return needs the owning class resolved.
pub open spec fn ctor_reasons(m: MethodView, ctx: EmitContext, ret: FieldTypeView) -> Seq<
    Seq<char>,
> {
    if is_constructor_name(m) {
        if ret == FieldTypeView::Single(BasicTypeView::Void) {
            match map_lookup(map_views(ctx.rust_paths@), m.java_class) {
                Some(path) => Seq::empty(),
                None => seq!["Failed to resolve JNI path to Rust path for this type"@],
            }
        } else {
            seq!["Constructor should've returned void"@]
        }
    } else {
        Seq::empty()
    }
}

/// Every rejection reason of a method under a context, in the order the
/// gates are checked; the empty sequence means working code is emitted.
pub open spec fn emit_reject_reasons(m: MethodView, ctx: EmitContext) -> Seq<Seq<char>> {
    let (ps, ret) = effective_descriptor(m);
    gate_reasons(m, ctx) + env_reasons(m, ctx) + args_reasons(ps, ctx) + ret_reasons(ret, ctx)
        + ctor_reasons(m, ctx, ret)
}

/// The argument-cell conversion of one argument.
pub open spec fn arg_cell_text(f: FieldTypeView, idx: nat) -> Seq<char> {
    "__jni_bindgen::AsJValue::as_jvalue(&"@ + arg_name(idx) + (if arg_is_object(f) {
        ".into()"@
    } else {
        Seq::empty()
    }) + ")"@
}

/// The contents of the fixed-size argument array.
pub open spec fn params_array_text(ps: Seq<FieldTypeView>) -> Seq<char>
    decreases ps.len(),
{
    if ps.len() == 0 {
        Seq::empty()
    } else {
        let pre = params_array_text(ps.drop_last());
        pre + (if pre.len() > 0 {
            ", "@
        } else {
            Seq::empty()
        }) + arg_cell_text(ps.last(), (ps.len() - 1) as nat)
    }
}

/// One argument's declaration.
pub open spec fn arg_decl_text(f: FieldTypeView, ctx: EmitContext, idx: nat) -> Seq<char> {
    arg_name(idx) + ": "@ + arg_type_text(f, ctx)
}

/// The wrapper's leading parameter: the explicit environment for constructor
/// and static calls (nothing under the unimplemented implicit style), the
/// receiver otherwise.
pub open spec fn params_decl_init(m: MethodView, ctx: EmitContext) -> Seq<char> {
    if needs_static_env(m) {
        match ctx.config.codegen.static_env {
            StaticEnvStyle::Explicit => "__jni_env: &'env __jni_bindgen::Env"@,
            StaticEnvStyle::Implicit => Seq::empty(),
        }
    } else {
        "&'env self"@
    }
}

/// The full parameter declaration list after the leading parameter.
pub open spec fn params_decl_text(
    ps: Seq<FieldTypeView>,
    ctx: EmitContext,
    init: Seq<char>,
) -> Seq<char>
    decreases ps.len(),
{
    if ps.len() == 0 {
        init
    } else {
        let pre = params_decl_text(ps.drop_last(), ctx, init);
        pre + (if pre.len() > 0 {
            ", "@
        } else {
            Seq::empty()
        }) + arg_decl_text(ps.last(), ctx, (ps.len() - 1) as nat)
    }
}

/// The emitted return type: a constructor with `Void` return synthesizes an
/// owned reference to the owning class; everything else maps the declared
/// return type.
pub open spec fn final_ret_decl(m: MethodView, ctx: EmitContext, ret: FieldTypeView) -> Seq<
    char,
> {
    if is_constructor_name(m) && ret == FieldTypeView::Single(BasicTypeView::Void) {
        match map_lookup(map_views(ctx.rust_paths@), m.java_class) {
            Some(path) => "__jni_bindgen::Local<'env, "@ + path + ">"@,
            None => quoted(m.java_class),
        }
    } else {
        ret_type_text(ret, ctx)
    }
}

/// The invocation fragment actually used: a constructor with `Void` return
/// calls the object allocation entry point.
pub open spec fn final_fragment(m: MethodView, ret: FieldTypeView) -> Seq<char> {
    if is_constructor_name(m) && ret == FieldTypeView::Single(BasicTypeView::Void) {
        "object"@
    } else {
        ret_fragment(ret)
    }
}

/// The per-line prefix: rejected methods are emitted commented out.
pub open spec fn line_prefix(m: MethodView, ctx: EmitContext, indent: Seq<char>) -> Seq<char> {
    if emit_reject_reasons(m, ctx).len() > 0 {
        indent + "        // "@
    } else {
        indent + "        "@
    }
}

/// One `Not emitting` line per collected reason, in order.
pub open spec fn reasons_lines(reasons: Seq<Seq<char>>, li: Seq<char>) -> Seq<char>
    decreases reasons.len(),
{
    if reasons.len() == 0 {
        Seq::empty()
    } else {
        reasons_lines(reasons.drop_last(), li) + li + "// Not emitting: "@ + reasons.last()
            + "\n"@
    }
}

/// The documentation comment line, when a reference is known.
pub open spec fn doc_line(m: MethodView, ctx: EmitContext, li: Seq<char>) -> Seq<char> {
    match doc_lookup(doc_views(ctx.known_docs@), m.java_class, m.java_name, m.java_desc) {
        Some(d) => li + "/// ["@ + d.label + "]("@ + d.url + ")\n"@,
        None => Seq::empty(),
    }
}

/// The function header line.
pub open spec fn header_line(m: MethodView, ctx: EmitContext, li: Seq<char>) -> Seq<char> {
    let (ps, ret) = effective_descriptor(m);
    li + (if flags_contain(m.access_flags, ACC_PUBLIC) {
        "pub "@
    } else {
        Seq::empty()
    }) + "fn "@ + chosen_name(m, ctx) + "<'env>("@ + params_decl_text(
        ps,
        ctx,
        params_decl_init(m, ctx),
    ) + ") -> __jni_bindgen::Result<"@ + final_ret_decl(m, ctx, ret) + "> {\n"@
}

/// The provenance comment line inside the wrapper.
pub open spec fn provenance_line(m: MethodView, li: Seq<char>) -> Seq<char> {
    li + "    // class.name() == "@ + quoted(m.java_class) + ", method.access_flags() == 0x"@
        + hex4(m.access_flags as nat) + ", .name() == "@ + quoted(m.java_name)
        + ", .descriptor() == "@ + quoted(m.java_desc) + "\n"@
}

/// The argument-array line.
pub open spec fn args_line(m: MethodView, li: Seq<char>) -> Seq<char> {
    let (ps, ret) = effective_descriptor(m);
    li + "        let __jni_args = ["@ + params_array_text(ps) + "];\n"@
}

/// The environment-acquisition line: nothing for explicit static
/// environments, a placeholder for the unimplemented implicit style, and the
/// receiver's environment for instance calls.
pub open spec fn env_line(m: MethodView, ctx: EmitContext, li: Seq<char>) -> Seq<char> {
    if needs_static_env(m) {
        match ctx.config.codegen.static_env {
            StaticEnvStyle::Explicit => Seq::empty(),
            StaticEnvStyle::Implicit => li + "    let __jni_env = ...?;\n"@,
        }
    } else {
        li + "        let __jni_env = __jni_bindgen::Env::from_ptr(self.0.env);\n"@
    }
}

/// The class and method handle lookup line.
pub open spec fn lookup_line(m: MethodView, li: Seq<char>) -> Seq<char> {
    li + "        let (__jni_class, __jni_method) = __jni_env.require_class_"@ + (if flags_contain(
        m.access_flags,
        ACC_STATIC,
    ) {
        "static_"@
    } else {
        Seq::empty()
    }) + "method("@ + cstr_lit(m.java_class) + ", "@ + cstr_lit(m.java_name) + ", "@ + cstr_lit(
        m.java_desc,
    ) + ");\n"@
}

/// The invocation line: allocation for constructors, the static entry point
/// for static methods, the instance entry point otherwise.
pub open spec fn call_line(m: MethodView, ctx: EmitContext, li: Seq<char>) -> Seq<char> {
    let (ps, ret) = effective_descriptor(m);
    if is_constructor_name(m) {
        li + "        __jni_env.new_object_a(__jni_class, __jni_method, __jni_args.as_ptr())\n"@
    } else if flags_contain(m.access_flags, ACC_STATIC) {
        li + "        __jni_env.call_static_"@ + final_fragment(m, ret)
            + "_method_a(__jni_class, __jni_method, __jni_args.as_ptr())\n"@
    } else {
        li + "        __jni_env.call_"@ + final_fragment(m, ret)
            + "_method_a(self.0.object, __jni_method, __jni_args.as_ptr())\n"@
    }
}

/// The whole emitted text of one method: a blank line, the collected
/// rejection reasons, the documentation comment, and the wrapper function
/// (commented out when any reason was collected).
pub open spec fn emit_method_text(m: MethodView, ctx: EmitContext, indent: Seq<char>) -> Seq<
    char,
> {
    let li = line_prefix(m, ctx, indent);
    "\n"@ + reasons_lines(emit_reject_reasons(m, ctx), li) + doc_line(m, ctx, li) + header_line(
        m,
        ctx,
        li,
    ) + provenance_line(m, li) + li + "    unsafe {\n"@ + args_line(m, li) + env_line(m, ctx, li)
        + lookup_line(m, li) + call_line(m, ctx, li) + li + "    }\n"@ + li + "}\n"@
}

/// Appends the debug escape of a string's characters.
fn push_dbg_escaped(out: &mut String, s: &str)
    ensures
        final(out)@ == old(out)@ + dbg_escaped(s@),
{
    let len = s.unicode_len();
    let mut i: usize = 0;
    while i < len
        invariant
            i <= len,
            len == s@.len(),
            out@ == old(out)@ + dbg_escaped(s@.take(i as int)),
        decreases len - i,
    {
        let c = s.get_char(i);
        if c == '\\' {
            push_char(out, '\\');
            push_char(out, '\\');
        } else if c == '"' {
            push_char(out, '\\');
            push_char(out, '"');
        } else {
            push_char(out, c);
        }
        proof {
            assert(s@.take(i + 1 as int).drop_last() =~= s@.take(i as int));
            assert(s@.take(i + 1 as int).last() == s@[i as int]);
            assert(out@ =~= old(out)@ + dbg_escaped(s@.take(i + 1 as int)));
        }
        i += 1;
    }
    proof {
        assert(s@.take(len as int) =~= s@);
    }
}

/// Appends a quoted string literal with debug escaping.
fn push_quoted(out: &mut String, s: &str)
    ensures
        final(out)@ == old(out)@ + quoted(s@),
{
    push_char(out, '"');
    push_dbg_escaped(out, s);
    push_char(out, '"');
    proof {
        assert(out@ =~= old(out)@ + quoted(s@));
    }
}

/// The NUL-terminated C string literal handed to the runtime's lookup calls.
pub fn emit_cstr(s: &str) -> (r: String)
    ensures
        r@ == cstr_lit(s@),
{
    let mut out = String::new();
    push_char(&mut out, '"');
    push_dbg_escaped(&mut out, s);
    push_char(&mut out, '\\');
    push_char(&mut out, '0');
    push_char(&mut out, '"');
    proof {
        assert(out@ =~= cstr_lit(s@));
    }
    out
}

/// Appends the array wrapper type name of a primitive element type.
fn push_array_class(out: &mut String, b: &BasicType)
    requires
        !(b@ is Void),
        !(b@ is Class),
    ensures
        final(out)@ == old(out)@ + array_class_text(b@),
{
    match b {
        BasicType::Boolean => push_str(out, "__jni_bindgen::BooleanArray"),
        BasicType::Byte => push_str(out, "__jni_bindgen::ByteArray"),
        BasicType::Char => push_str(out, "__jni_bindgen::CharArray"),
        BasicType::Short => push_str(out, "__jni_bindgen::ShortArray"),
        BasicType::Int => push_str(out, "__jni_bindgen::IntArray"),
        BasicType::Long => push_str(out, "__jni_bindgen::LongArray"),
        BasicType::Float => push_str(out, "__jni_bindgen::FloatArray"),
        BasicType::Double => push_str(out, "__jni_bindgen::DoubleArray"),
        BasicType::Void => assert(false),
        BasicType::Class(name) => assert(false),
    }
}

/// Maps one argument: appends its rejection reasons, its cell conversion to
/// the argument array, and its declaration to the parameter list.
fn push_arg(
    ctx: &EmitContext,
    f: &FieldType,
    idx: usize,
    reasons: &mut Vec<String>,
    params_array: &mut String,
    params_decl: &mut String,
)
    ensures
        set_views(final(reasons)@) == set_views(old(reasons)@) + arg_reasons(
            f@,
            *ctx,
            idx as nat,
        ),
        final(params_array)@ == old(params_array)@ + (if old(params_array)@.len() > 0 {
            ", "@
        } else {
            Seq::<char>::empty()
        }) + arg_cell_text(f@, idx as nat),
        final(params_decl)@ == old(params_decl)@ + (if old(params_decl)@.len() > 0 {
            ", "@
        } else {
            Seq::<char>::empty()
        }) + arg_decl_text(f@, *ctx, idx as nat),
{
    let ghost old_reasons = set_views(reasons@);
    let mut arg_type = String::new();
    let mut is_object = false;
    match f {
        FieldType::Single(b) => match b {
            BasicType::Void => {
                let mut msg = String::from_str("Void arguments aren't a thing: ");
                push_str(&mut msg, "arg");
                crate::text::push_decimal(&mut msg, idx);
                reasons.push(msg);
                push_str(&mut arg_type, "???");
            },
            BasicType::Boolean => push_str(&mut arg_type, "bool"),
            BasicType::Byte => push_str(&mut arg_type, "i8"),
            BasicType::Char => push_str(&mut arg_type, "__jni_bindgen::jchar"),
            BasicType::Short => push_str(&mut arg_type, "i16"),
            BasicType::Int => push_str(&mut arg_type, "i32"),
            BasicType::Long => push_str(&mut arg_type, "i64"),
            BasicType::Float => push_str(&mut arg_type, "f32"),
            BasicType::Double => push_str(&mut arg_type, "f64"),
            BasicType::Class(name) => {
                is_object = true;
                match ctx.java_to_rust_path(name.as_str()) {
                    Ok(path) => {
                        push_str(
                            &mut arg_type,
                            "impl __jni_bindgen::std::convert::Into<__jni_bindgen::std::option::Option<&'env ",
                        );
                        push_str(&mut arg_type, path.as_str());
                        push_str(&mut arg_type, ">>");
                    },
                    Err(_) => {
                        reasons.push(
                            String::from_str(
                                "Failed to resolve JNI path to Rust path for argument type",
                            ),
                        );
                        push_quoted(&mut arg_type, name.as_str());
                    },
                }
            },
        },
        FieldType::Array { levels, inner } => {
            if *levels == 1 && matches!(inner, BasicType::Void) {
                reasons.push(String::from_str("Accepting arrays of void isn't a thing"));
                push_str(&mut arg_type, "???");
            } else if *levels == 1 && !matches!(inner, BasicType::Class(_)) {
                is_object = true;
                push_str(
                    &mut arg_type,
                    "impl __jni_bindgen::std::convert::Into<__jni_bindgen::std::option::Option<&'env ",
                );
                push_array_class(&mut arg_type, inner);
                push_str(&mut arg_type, ">>");
            } else {
                is_object = true;
                reasons.push(
                    String::from_str("Passing in arrays of arrays/objects is not yet supported"),
                );
                let mut enc = String::new();
                crate::descriptor::field_type_string_into(&mut enc, f);
                push_quoted(&mut arg_type, enc.as_str());
            }
        },
    }
    proof {
        assert(arg_type@ =~= arg_type_text(f@, *ctx));
        assert(is_object == arg_is_object(f@));
        assert(set_views(reasons@) =~~= old_reasons + arg_reasons(f@, *ctx, idx as nat));
    }
    if !params_array.as_str().is_empty() {
        push_str(params_array, ", ");
    }
    push_str(params_array, "__jni_bindgen::AsJValue::as_jvalue(&");
    push_str(params_array, "arg");
    crate::text::push_decimal(params_array, idx);
    if is_object {
        push_str(params_array, ".into()");
    }
    push_str(params_array, ")");
    proof {
        assert(params_array@ =~= old(params_array)@ + (if old(params_array)@.len() > 0 {
            ", "@
        } else {
            Seq::<char>::empty()
        }) + arg_cell_text(f@, idx as nat));
    }
    if !params_decl.as_str().is_empty() {
        push_str(params_decl, ", ");
    }
    push_str(params_decl, "arg");
    crate::text::push_decimal(params_decl, idx);
    push_str(params_decl, ": ");
    push_str(params_decl, arg_type.as_str());
    proof {
        assert(params_decl@ =~= old(params_decl)@ + (if old(params_decl)@.len() > 0 {
            ", "@
        } else {
            Seq::<char>::empty()
        }) + arg_decl_text(f@, *ctx, idx as nat));
    }
}

/// Maps the return type: appends its rejection reasons and gives its
/// return-position type text.
fn ret_decl_exec(ctx: &EmitContext, f: &FieldType, reasons: &mut Vec<String>) -> (r: String)
    ensures
        r@ == ret_type_text(f@, *ctx),
        set_views(final(reasons)@) == set_views(old(reasons)@) + ret_reasons(f@, *ctx),
{
    let ghost old_reasons = set_views(reasons@);
    let mut out = String::new();
    match f {
        FieldType::Single(b) => match b {
            BasicType::Void => push_str(&mut out, "()"),
            BasicType::Boolean => push_str(&mut out, "bool"),
            BasicType::Byte => push_str(&mut out, "i8"),
            BasicType::Char => push_str(&mut out, "__jni_bindgen::jchar"),
            BasicType::Short => push_str(&mut out, "i16"),
            BasicType::Int => push_str(&mut out, "i32"),
            BasicType::Long => push_str(&mut out, "i64"),
            BasicType::Float => push_str(&mut out, "f32"),
            BasicType::Double => push_str(&mut out, "f64"),
            BasicType::Class(name) => {
                match ctx.java_to_rust_path(name.as_str()) {
                    Ok(path) => {
                        push_str(
                            &mut out,
                            "__jni_bindgen::std::option::Option<__jni_bindgen::Local<'env, ",
                        );
                        push_str(&mut out, path.as_str());
                        push_str(&mut out, ">>");
                    },
                    Err(_) => {
                        reasons.push(
                            String::from_str(
                                "Failed to resolve JNI path to Rust path for return type",
                            ),
                        );
                        push_quoted(&mut out, name.as_str());
                    },
                }
            },
        },
        FieldType::Array { levels, inner } => {
            if *levels == 1 && matches!(inner, BasicType::Void) {
                reasons.push(String::from_str("Returning arrays of void isn't a thing"));
                push_str(&mut out, "???");
            } else if *levels == 1 && !matches!(inner, BasicType::Class(_)) {
                push_str(
                    &mut out,
                    "__jni_bindgen::std::option::Option<__jni_bindgen::Local<'env, ",
                );
                push_array_class(&mut out, inner);
                push_str(&mut out, ">>");
            } else {
                reasons.push(
                    String::from_str("Returning arrays of objects or arrays not yet supported"),
                );
                let mut enc = String::new();
                crate::descriptor::field_type_string_into(&mut enc, f);
                push_quoted(&mut out, enc.as_str());
            }
        },
    }
    proof {
        assert(out@ =~= ret_type_text(f@, *ctx));
        assert(set_views(reasons@) =~~= old_reasons + ret_reasons(f@, *ctx));
    }
    out
}

/// The invocation entry-point fragment of a return type.
fn ret_fragment_exec(f: &FieldType) -> (r: &'static str)
    ensures
        r@ == ret_fragment(f@),
{
    match f {
        FieldType::Single(b) => match b {
            BasicType::Void => "void",
            BasicType::Boolean => "boolean",
            BasicType::Byte => "byte",
            BasicType::Char => "char",
            BasicType::Short => "short",
            BasicType::Int => "int",
            BasicType::Long => "long",
            BasicType::Float => "float",
            BasicType::Double => "double",
            BasicType::Class(name) => "object",
        },
        FieldType::Array { .. } => "object",
    }
}

/// One method's emission: the generated text, and every rejection reason
/// collected on the way (empty means the text is working code, not a
/// commented-out skeleton).
pub struct EmittedMethod {
    pub text: String,
    pub reject_reasons: Vec<String>,
}

/// The ingredients of one method's emission, gathered before the text is
/// assembled.
struct EmittedParts {
    reasons: Vec<String>,
    method_name: String,
    params_decl: String,
    params_array: String,
    ret_decl: String,
    frag: String,
}

/// Appends one rejection reason when its gate fails.
fn push_reason_if(reasons: &mut Vec<String>, cond: bool, msg: &str)
    ensures
        set_views(final(reasons)@) == set_views(old(reasons)@) + opt_reason(cond, msg@),
{
    if cond {
        reasons.push(msg.to_owned());
    }
    proof {
        assert(set_views(reasons@) =~~= set_views(old(reasons)@) + opt_reason(cond, msg@));
    }
}

impl Method {
    /// Gathers the policy rejection reasons and the leading parameter, and
    /// picks the name the wrapper is emitted under: the configured rename,
    /// else the mangled name, else the raw managed name (with a
    /// mangle-failure reason).
    #[verifier::rlimit(100)]
    #[verifier::spinoff_prover]
    fn gate_parts(&self, context: &EmitContext) -> (r: (Vec<String>, String, String))
        requires
            self.wf(),
        ensures
            set_views(r.0@) == gate_reasons(self@, *context) + env_reasons(self@, *context),
            r.1@ == chosen_name(self@, *context),
            r.2@ == params_decl_init(self@, *context),
    {
        let ghost m = self@;
        let ghost ctx = *context;
        let mut reasons: Vec<String> = Vec::new();

        let constructor = self.is_constructor();
        let static_init = self.is_static_init();
        let public = self.is_public();
        let static_ = self.is_static();
        let varargs = self.is_varargs();
        let bridge = self.is_bridge();

        let java_class = self.java_class();
        let java_name = self.java_name();
        let java_desc = self.java_desc();

        let key_cm = make_key2(java_class, java_name);
        let key_cms = make_key3(java_class, java_name, java_desc);

        let ignored = set_contains_exec(&context.config.ignore_classes, java_class)
            || set_contains_exec(&context.config.ignore_class_methods, key_cm.as_str())
            || set_contains_exec(&context.config.ignore_class_method_sigs, key_cms.as_str());
        assert(ignored == is_ignored(m, ctx));

        let renamed = match map_lookup_exec(&context.config.rename_classes, java_class) {
            Some(n) => Some(n),
            None => match map_lookup_exec(&context.config.rename_class_methods, key_cm.as_str()) {
                Some(n) => Some(n),
                None => map_lookup_exec(
                    &context.config.rename_class_method_sigs,
                    key_cms.as_str(),
                ),
            },
        };

        let mut mangle_failed = false;
        let method_name: String = match renamed {
            Some(n) => n,
            None => match self.rust_name() {
                Some(n) => n.to_owned(),
                None => {
                    mangle_failed = true;
                    java_name.to_owned()
                },
            },
        };
        assert(method_name@ == chosen_name(m, ctx));
        assert(mangle_failed == (renamed_to(m, ctx) is None && m.rust_name is None));
        push_reason_if(&mut reasons, mangle_failed, "Failed to mangle method name");
        push_reason_if(&mut reasons, !public, "Non-public method");
        push_reason_if(
            &mut reasons,
            varargs,
            "Marked as varargs - haven't decided on how I want to handle this.",
        );
        push_reason_if(&mut reasons, bridge, "Bridge method - type erasure");
        push_reason_if(
            &mut reasons,
            static_init,
            "Static class constructor - never needs to be called by Rust.",
        );
        push_reason_if(&mut reasons, ignored, "[[ignore]]d");
        let descriptor_ok = MethodDescriptor::parseable(java_desc);
        push_reason_if(&mut reasons, !descriptor_ok, "Invalid method descriptor");

        let mut params_decl = String::new();
        let mut implicit_env = false;
        if constructor || static_ {
            match context.config.codegen.static_env {
                StaticEnvStyle::Explicit => {
                    push_str(&mut params_decl, "__jni_env: &'env __jni_bindgen::Env");
                },
                StaticEnvStyle::Implicit => {
                    implicit_env = true;
                },
            }
        } else {
            push_str(&mut params_decl, "&'env self");
        }
        assert(implicit_env == (needs_static_env(m)
            && ctx.config.codegen.static_env is Implicit));
        push_reason_if(&mut reasons, implicit_env, "StaticEnvStyle::Implicit not yet implemented");
        proof {
            assert(params_decl@ == params_decl_init(m, ctx));
            assert(set_views(reasons@) == gate_reasons(m, ctx) + env_reasons(m, ctx));
        }
        (reasons, method_name, params_decl)
    }

    /// Gathers one method's emission ingredients: its collected rejection
    /// reasons, the name it is emitted under, the parameter declaration list,
    /// the argument-array contents, the emitted return type and the
    /// invocation fragment.
    #[verifier::rlimit(100)]
    #[verifier::spinoff_prover]
    fn emit_parts(&self, context: &EmitContext) -> (r: EmittedParts)
        requires
            self.wf(),
        ensures
            ({
                let eff = effective_descriptor(self@);
                &&& set_views(r.reasons@) == emit_reject_reasons(self@, *context)
                &&& r.method_name@ == chosen_name(self@, *context)
                &&& r.params_decl@ == params_decl_text(
                    eff.0,
                    *context,
                    params_decl_init(self@, *context),
                )
                &&& r.params_array@ == params_array_text(eff.0)
                &&& r.ret_decl@ == final_ret_decl(self@, *context, eff.1)
                &&& r.frag@ == final_fragment(self@, eff.1)
            }),
    {
        let ghost m = self@;
        let ghost ctx = *context;
        let ghost eff = effective_descriptor(m);

        let constructor = self.is_constructor();
        let java_class = self.java_class();
        let java_desc = self.java_desc();

        let parts = self.gate_parts(context);
        let mut reasons = parts.0;
        let method_name = parts.1;
        let mut params_decl = parts.2;

        let descriptor = match MethodDescriptor::parse(java_desc) {
            Ok(d) => d,
            Err(_) => MethodDescriptor::fallback(),
        };
        proof {
            assert(descriptor@.params =~= eff.0);
            assert(descriptor@.ret == eff.1);
        }

        let mut params_array = String::new();
        push_args(context, &descriptor.params, &mut reasons, &mut params_array, &mut params_decl);

        let mut ret_decl = ret_decl_exec(context, &descriptor.ret, &mut reasons);
        let mut frag: &str = ret_fragment_exec(&descriptor.ret);

        let is_void_ret = matches!(&descriptor.ret, FieldType::Single(BasicType::Void));
        assert(is_void_ret == (eff.1 == FieldTypeView::Single(BasicTypeView::Void)));
        if constructor {
            if is_void_ret {
                frag = "object";
                match context.java_to_rust_path(java_class) {
                    Ok(path) => {
                        let mut rd = String::new();
                        push_str(&mut rd, "__jni_bindgen::Local<'env, ");
                        push_str(&mut rd, path.as_str());
                        push_str(&mut rd, ">");
                        ret_decl = rd;
                    },
                    Err(_) => {
                        reasons.push(
                            String::from_str(
                                "Failed to resolve JNI path to Rust path for this type",
                            ),
                        );
                        let mut rd = String::new();
                        push_quoted(&mut rd, java_class);
                        ret_decl = rd;
                    },
                }
            } else {
                reasons.push(String::from_str("Constructor should've returned void"));
            }
        }
        proof {
            assert(ret_decl@ =~= final_ret_decl(m, ctx, eff.1));
            assert(frag@ == final_fragment(m, eff.1));
            assert(set_views(reasons@) =~~= emit_reject_reasons(m, ctx));
        }
        let frag = frag.to_owned();
        EmittedParts { reasons, method_name, params_decl, params_array, ret_decl, frag }
    }

    /// Emits the outbound wrapper for this method under a context: exactly
    /// the text of [`emit_method_text`], collecting exactly the reasons of
    /// [`emit_reject_reasons`].
    #[verifier::rlimit(100)]
    #[verifier::spinoff_prover]
    pub fn emit(&self, context: &EmitContext, indent: &str) -> (r: EmittedMethod)
        requires
            self.wf(),
        ensures
            r.text@ == emit_method_text(self@, *context, indent@),
            set_views(r.reject_reasons@) == emit_reject_reasons(self@, *context),
    {
        let ghost m = self@;
        let ghost ctx = *context;
        let ghost eff = effective_descriptor(m);

        let constructor = self.is_constructor();
        let public = self.is_public();
        let static_ = self.is_static();
        let java_class = self.java_class();
        let java_name = self.java_name();
        let java_desc = self.java_desc();

        let parts = self.emit_parts(context);
        let reasons = parts.reasons;
        let method_name = parts.method_name;
        let params_decl = parts.params_decl;
        let params_array = parts.params_array;
        let ret_decl = parts.ret_decl;
        let frag = parts.frag;

        let mut li = String::new();
        push_str(&mut li, indent);
        if reasons.len() > 0 {
            push_str(&mut li, "        // ");
        } else {
            push_str(&mut li, "        ");
        }
        proof {
            assert(set_views(reasons@).len() == reasons@.len());
            assert(li@ =~= line_prefix(m, ctx, indent@));
        }

        // Every composite line is built on its own, so the final text is the
        // plain concatenation of the pieces below.
        let ghost rs = emit_reject_reasons(m, ctx);
        let mut rl = String::new();
        let mut j: usize = 0;
        proof {
            assert(rs.take(0) =~= Seq::<Seq<char>>::empty());
            assert(rl@ =~= reasons_lines(rs.take(0), li@));
        }
        while j < reasons.len()
            invariant
                j <= reasons@.len(),
                set_views(reasons@) == rs,
                li@ == line_prefix(m, ctx, indent@),
                rl@ == reasons_lines(rs.take(j as int), li@),
            decreases reasons@.len() - j,
        {
            push_str(&mut rl, li.as_str());
            push_str(&mut rl, "// Not emitting: ");
            push_str(&mut rl, reasons[j].as_str());
            push_str(&mut rl, "\n");
            proof {
                assert(rs.take(j + 1 as int).drop_last() =~= rs.take(j as int));
                assert(rs.take(j + 1 as int).last() == reasons@[j as int]@);
                assert(rl@ =~= reasons_lines(rs.take(j + 1 as int), li@));
            }
            j += 1;
        }
        proof {
            assert(rs.take(reasons@.len() as int) =~= rs);
        }

        let mut dl = String::new();
        match context.known_docs_url(java_class, java_name, java_desc) {
            Some(d) => {
                push_str(&mut dl, li.as_str());
                push_str(&mut dl, "/// [");
                push_str(&mut dl, d.label.as_str());
                push_str(&mut dl, "](");
                push_str(&mut dl, d.url.as_str());
                push_str(&mut dl, ")\n");
            },
            None => {},
        }
        proof {
            assert(dl@ =~= doc_line(m, ctx, li@));
        }

        let mut hl = String::new();
        push_str(&mut hl, li.as_str());
        if public {
            push_str(&mut hl, "pub ");
        }
        push_str(&mut hl, "fn ");
        push_str(&mut hl, method_name.as_str());
        push_str(&mut hl, "<'env>(");
        push_str(&mut hl, params_decl.as_str());
        push_str(&mut hl, ") -> __jni_bindgen::Result<");
        push_str(&mut hl, ret_decl.as_str());
        push_str(&mut hl, "> {\n");
        proof {
            assert(hl@ =~= header_line(m, ctx, li@));
        }

        let mut pl = String::new();
        push_str(&mut pl, li.as_str());
        push_str(&mut pl, "    // class.name() == ");
        push_quoted(&mut pl, java_class);
        push_str(&mut pl, ", method.access_flags() == 0x");
        crate::mangling::push_hex4(&mut pl, self.access_flags().bits as u32);
        push_str(&mut pl, ", .name() == ");
        push_quoted(&mut pl, java_name);
        push_str(&mut pl, ", .descriptor() == ");
        push_quoted(&mut pl, java_desc);
        push_str(&mut pl, "\n");
        proof {
            assert(pl@ =~= provenance_line(m, li@));
        }

        let mut al = String::new();
        push_str(&mut al, li.as_str());
        push_str(&mut al, "        let __jni_args = [");
        push_str(&mut al, params_array.as_str());
        push_str(&mut al, "];\n");
        proof {
            assert(al@ =~= args_line(m, li@));
        }

        let mut el = String::new();
        if constructor || static_ {
            match context.config.codegen.static_env {
                StaticEnvStyle::Explicit => {},
                StaticEnvStyle::Implicit => {
                    push_str(&mut el, li.as_str());
                    push_str(&mut el, "    let __jni_env = ...?;\n");
                },
            }
        } else {
            push_str(&mut el, li.as_str());
            push_str(
                &mut el,
                "        let __jni_env = __jni_bindgen::Env::from_ptr(self.0.env);\n",
            );
        }
        proof {
            assert(el@ =~= env_line(m, ctx, li@));
        }

        let mut ll = String::new();
        push_str(&mut ll, li.as_str());
        push_str(&mut ll, "        let (__jni_class, __jni_method) = __jni_env.require_class_");
        if static_ {
            push_str(&mut ll, "static_");
        }
        push_str(&mut ll, "method(");
        let c0 = emit_cstr(java_class);
        push_str(&mut ll, c0.as_str());
        push_str(&mut ll, ", ");
        let c1 = emit_cstr(java_name);
        push_str(&mut ll, c1.as_str());
        push_str(&mut ll, ", ");
        let c2 = emit_cstr(java_desc);
        push_str(&mut ll, c2.as_str());
        push_str(&mut ll, ");\n");
        proof {
            assert(ll@ =~= lookup_line(m, li@));
        }

        let mut cl = String::new();
        if constructor {
            push_str(&mut cl, li.as_str());
            push_str(
                &mut cl,
                "        __jni_env.new_object_a(__jni_class, __jni_method, __jni_args.as_ptr())\n",
            );
        } else if static_ {
            push_str(&mut cl, li.as_str());
            push_str(&mut cl, "        __jni_env.call_static_");
            push_str(&mut cl, frag.as_str());
            push_str(&mut cl, "_method_a(__jni_class, __jni_method, __jni_args.as_ptr())\n");
        } else {
            push_str(&mut cl, li.as_str());
            push_str(&mut cl, "        __jni_env.call_");
            push_str(&mut cl, frag.as_str());
            push_str(&mut cl, "_method_a(self.0.object, __jni_method, __jni_args.as_ptr())\n");
        }
        proof {
            assert(cl@ =~= call_line(m, ctx, li@));
        }

        let mut out = String::new();
        push_str(&mut out, "\n");
        proof {
            assert(out@ =~= "\n"@);
        }
        push_str(&mut out, rl.as_str());
        push_str(&mut out, dl.as_str());
        push_str(&mut out, hl.as_str());
        push_str(&mut out, pl.as_str());
        push_str(&mut out, li.as_str());
        push_str(&mut out, "    unsafe {\n");
        push_str(&mut out, al.as_str());
        push_str(&mut out, el.as_str());
        push_str(&mut out, ll.as_str());
        push_str(&mut out, cl.as_str());
        push_str(&mut out, li.as_str());
        push_str(&mut out, "    }\n");
        push_str(&mut out, li.as_str());
        push_str(&mut out, "}\n");
        assert(out@ == emit_method_text(m, ctx, indent@));

        EmittedMethod { text: out, reject_reasons: reasons }
    }
}

/// Maps every argument in order: appends each one's rejection reasons, cell
/// conversion and declaration.
#[verifier::spinoff_prover]
fn push_args(
    ctx: &EmitContext,
    params: &Vec<FieldType>,
    reasons: &mut Vec<String>,
    params_array: &mut String,
    params_decl: &mut String,
)
    requires
        old(params_array)@.len() == 0,
    ensures
        set_views(final(reasons)@) == set_views(old(reasons)@) + args_reasons(
            field_views(params@),
            *ctx,
        ),
        final(params_array)@ == params_array_text(field_views(params@)),
        final(params_decl)@ == params_decl_text(field_views(params@), *ctx, old(params_decl)@),
{
    let ghost pviews = field_views(params@);
    let ghost base = set_views(reasons@);
    let ghost init = params_decl@;
    let mut i: usize = 0;
    proof {
        assert(pviews.take(0) =~= Seq::<FieldTypeView>::empty());
        assert(base + args_reasons(pviews.take(0), *ctx) =~~= base);
    }
    while i < params.len()
        invariant
            i <= params@.len(),
            pviews == field_views(params@),
            set_views(reasons@) == base + args_reasons(pviews.take(i as int), *ctx),
            params_array@ == params_array_text(pviews.take(i as int)),
            params_decl@ == params_decl_text(pviews.take(i as int), *ctx, init),
        decreases params@.len() - i,
    {
        push_arg(ctx, &params[i], i, reasons, params_array, params_decl);
        proof {
            assert(pviews.take(i + 1 as int).drop_last() =~= pviews.take(i as int));
            assert(pviews.take(i + 1 as int).last() == params@[i as int]@);
            assert(set_views(reasons@) =~~= base + args_reasons(pviews.take(i + 1 as int), *ctx));
            assert(params_array@ =~= params_array_text(pviews.take(i + 1 as int)));
            assert(params_decl@ =~= params_decl_text(pviews.take(i + 1 as int), *ctx, init));
        }
        i += 1;
    }
    proof {
        assert(pviews.take(params@.len() as int) =~= pviews);
    }
}


/// Membership carries through concatenation of reason lists.
proof fn lemma_contains_concat(a: Seq<Seq<char>>, b: Seq<Seq<char>>, x: Seq<char>)
    requires
        a.contains(x) || b.contains(x),
    ensures
        (a + b).contains(x),
{
    if a.contains(x) {
        let i = choose|i: int| 0 <= i < a.len() && a[i] == x;
        assert((a + b)[i] == x);
    } else {
        let i = choose|i: int| 0 <= i < b.len() && b[i] == x;
        assert((a + b)[a.len() + i] == x);
    }
}

/// Rejection is complete: every violated gate records its reason, not just
/// the first one, so a method failing several independent gates carries them
/// all.
pub proof fn lemma_rejection_completeness(m: MethodView, ctx: EmitContext)
    ensures
        renamed_to(m, ctx) is None && m.rust_name is None ==> emit_reject_reasons(
            m,
            ctx,
        ).contains("Failed to mangle method name"@),
        !flags_contain(m.access_flags, ACC_PUBLIC) ==> emit_reject_reasons(m, ctx).contains(
            "Non-public method"@,
        ),
        flags_contain(m.access_flags, ACC_VARARGS) ==> emit_reject_reasons(m, ctx).contains(
            "Marked as varargs - haven't decided on how I want to handle this."@,
        ),
        flags_contain(m.access_flags, ACC_BRIDGE) ==> emit_reject_reasons(m, ctx).contains(
            "Bridge method - type erasure"@,
        ),
        m.java_name == "<clinit>"@ ==> emit_reject_reasons(m, ctx).contains(
            "Static class constructor - never needs to be called by Rust."@,
        ),
        is_ignored(m, ctx) ==> emit_reject_reasons(m, ctx).contains("[[ignore]]d"@),
        parse_descriptor(m.java_desc) is None ==> emit_reject_reasons(m, ctx).contains(
            "Invalid method descriptor"@,
        ),
{
    let (ps, ret) = effective_descriptor(m);
    let o1 = opt_reason(
        renamed_to(m, ctx) is None && m.rust_name is None,
        "Failed to mangle method name"@,
    );
    let o2 = opt_reason(!flags_contain(m.access_flags, ACC_PUBLIC), "Non-public method"@);
    let o3 = opt_reason(
        flags_contain(m.access_flags, ACC_VARARGS),
        "Marked as varargs - haven't decided on how I want to handle this."@,
    );
    let o4 = opt_reason(flags_contain(m.access_flags, ACC_BRIDGE), "Bridge method - type erasure"@);
    let o5 = opt_reason(
        m.java_name == "<clinit>"@,
        "Static class constructor - never needs to be called by Rust."@,
    );
    let o6 = opt_reason(is_ignored(m, ctx), "[[ignore]]d"@);
    let o7 = opt_reason(parse_descriptor(m.java_desc) is None, "Invalid method descriptor"@);
    assert forall|x: Seq<char>|
        o1.contains(x) || o2.contains(x) || o3.contains(x) || o4.contains(x) || o5.contains(x)
            || o6.contains(x) || o7.contains(x) implies gate_reasons(m, ctx).contains(x) by {
        if o1.contains(x) || o2.contains(x) {
            lemma_contains_concat(o1, o2, x);
        }
        if (o1 + o2).contains(x) || o3.contains(x) {
            lemma_contains_concat(o1 + o2, o3, x);
        }
        if (o1 + o2 + o3).contains(x) || o4.contains(x) {
            lemma_contains_concat(o1 + o2 + o3, o4, x);
        }
        if (o1 + o2 + o3 + o4).contains(x) || o5.contains(x) {
            lemma_contains_concat(o1 + o2 + o3 + o4, o5, x);
        }
        if (o1 + o2 + o3 + o4 + o5).contains(x) || o6.contains(x) {
            lemma_contains_concat(o1 + o2 + o3 + o4 + o5, o6, x);
        }
        if (o1 + o2 + o3 + o4 + o5 + o6).contains(x) || o7.contains(x) {
            lemma_contains_concat(o1 + o2 + o3 + o4 + o5 + o6, o7, x);
        }
    }
    assert forall|x: Seq<char>| gate_reasons(m, ctx).contains(x) implies emit_reject_reasons(
        m,
        ctx,
    ).contains(x) by {
        lemma_contains_concat(gate_reasons(m, ctx), env_reasons(m, ctx), x);
        lemma_contains_concat(
            gate_reasons(m, ctx) + env_reasons(m, ctx),
            args_reasons(ps, ctx),
            x,
        );
        lemma_contains_concat(
            gate_reasons(m, ctx) + env_reasons(m, ctx) + args_reasons(ps, ctx),
            ret_reasons(ret, ctx),
            x,
        );
        lemma_contains_concat(
            gate_reasons(m, ctx) + env_reasons(m, ctx) + args_reasons(ps, ctx) + ret_reasons(
                ret,
                ctx,
            ),
            ctor_reasons(m, ctx, ret),
            x,
        );
    }
    if o1.len() > 0 {
        assert(o1[0] == "Failed to mangle method name"@);
        assert(o1.contains("Failed to mangle method name"@));
    }
    if o2.len() > 0 {
        assert(o2[0] == "Non-public method"@);
        assert(o2.contains("Non-public method"@));
    }
    if o3.len() > 0 {
        assert(o3.contains(
            "Marked as varargs - haven't decided on how I want to handle this."@,
        )) by {
            assert(o3[0] == "Marked as varargs - haven't decided on how I want to handle this."@);
        }
    }
    if o4.len() > 0 {
        assert(o4[0] == "Bridge method - type erasure"@);
        assert(o4.contains("Bridge method - type erasure"@));
    }
    if o5.len() > 0 {
        assert(o5.contains("Static class constructor - never needs to be called by Rust."@)) by {
            assert(o5[0] == "Static class constructor - never needs to be called by Rust."@);
        }
    }
    if o6.len() > 0 {
        assert(o6[0] == "[[ignore]]d"@);
        assert(o6.contains("[[ignore]]d"@));
    }
    if o7.len() > 0 {
        assert(o7[0] == "Invalid method descriptor"@);
        assert(o7.contains("Invalid method descriptor"@));
    }
}

/// A reason of some argument is a reason of the whole method.
proof fn lemma_args_reason_lifts(ps: Seq<FieldTypeView>, ctx: EmitContext, i: int, x: Seq<char>)
    requires
        0 <= i < ps.len(),
        arg_reasons(ps[i], ctx, i as nat).contains(x),
    ensures
        args_reasons(ps, ctx).contains(x),
    decreases ps.len(),
{
    if i == ps.len() - 1 {
        lemma_contains_concat(
            args_reasons(ps.drop_last(), ctx),
            arg_reasons(ps.last(), ctx, (ps.len() - 1) as nat),
            x,
        );
    } else {
        assert(ps.drop_last()[i] == ps[i]);
        lemma_args_reason_lifts(ps.drop_last(), ctx, i, x);
        lemma_contains_concat(
            args_reasons(ps.drop_last(), ctx),
            arg_reasons(ps.last(), ctx, (ps.len() - 1) as nat),
            x,
        );
    }
}

/// A `Void` in a parameter position is always rejected, with a reason naming
/// the offending argument index.
pub proof fn lemma_void_argument_rejection(m: MethodView, ctx: EmitContext, i: int)
    requires
        0 <= i < effective_descriptor(m).0.len(),
        effective_descriptor(m).0[i] == FieldTypeView::Single(BasicTypeView::Void),
    ensures
        emit_reject_reasons(m, ctx).contains(
            "Void arguments aren't a thing: "@ + arg_name(i as nat),
        ),
{
    let (ps, ret) = effective_descriptor(m);
    let x = "Void arguments aren't a thing: "@ + arg_name(i as nat);
    assert(arg_reasons(ps[i], ctx, i as nat)[0] == x);
    assert(arg_reasons(ps[i], ctx, i as nat).contains(x));
    lemma_args_reason_lifts(ps, ctx, i, x);
    lemma_contains_concat(gate_reasons(m, ctx) + env_reasons(m, ctx), args_reasons(ps, ctx), x);
    assert((gate_reasons(m, ctx) + env_reasons(m, ctx) + args_reasons(ps, ctx)).contains(x));
    lemma_contains_concat(
        gate_reasons(m, ctx) + env_reasons(m, ctx) + args_reasons(ps, ctx),
        ret_reasons(ret, ctx),
        x,
    );
    lemma_contains_concat(
        gate_reasons(m, ctx) + env_reasons(m, ctx) + args_reasons(ps, ctx) + ret_reasons(
            ret,
            ctx,
        ),
        ctor_reasons(m, ctx, ret),
        x,
    );
}

/// The constructor shape: a method named as a constructor whose descriptor
/// declares a non-`Void` return is rejected as malformed; one declaring
/// `Void` gets a wrapper whose return type is an owned reference to the
/// declaring class, when that class resolves.
pub proof fn lemma_constructor_shape(m: MethodView, ctx: EmitContext)
    requires
        is_constructor_name(m),
    ensures
        effective_descriptor(m).1 != FieldTypeView::Single(BasicTypeView::Void)
            ==> emit_reject_reasons(m, ctx).contains("Constructor should've returned void"@),
        forall|path: Seq<char>|
            map_lookup(map_views(ctx.rust_paths@), m.java_class) == Some(path)
                && effective_descriptor(m).1 == FieldTypeView::Single(BasicTypeView::Void)
                ==> final_ret_decl(m, ctx, effective_descriptor(m).1) == "__jni_bindgen::Local<'env, "@
                + path + ">"@,
{
    let (ps, ret) = effective_descriptor(m);
    if ret != FieldTypeView::Single(BasicTypeView::Void) {
        let x = "Constructor should've returned void"@;
        assert(ctor_reasons(m, ctx, ret)[0] == x);
        assert(ctor_reasons(m, ctx, ret).contains(x));
        lemma_contains_concat(
            gate_reasons(m, ctx) + env_reasons(m, ctx) + args_reasons(ps, ctx) + ret_reasons(
                ret,
                ctx,
            ),
            ctor_reasons(m, ctx, ret),
            x,
        );
    }
}

/// Identical metadata and configuration give byte-identical output: the
/// emitted text and the collected reasons are functions of the method view,
/// the context and the indent alone.
pub proof fn lemma_generation_deterministic(
    m1: MethodView,
    ctx1: EmitContext,
    indent1: Seq<char>,
    m2: MethodView,
    ctx2: EmitContext,
    indent2: Seq<char>,
)
    requires
        m1 == m2,
        ctx1 == ctx2,
        indent1 == indent2,
    ensures
        emit_method_text(m1, ctx1, indent1) == emit_method_text(m2, ctx2, indent2),
        emit_reject_reasons(m1, ctx1) == emit_reject_reasons(m2, ctx2),
{
}

} // verus!
