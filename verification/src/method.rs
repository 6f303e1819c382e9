//! One managed method's metadata: access flags, owning class, name,
//! descriptor string, and the derived mangled name. The mangled name and the
//! naming style are kept consistent by construction: they only change
//! together, so no caller can observe a mismatched pair.

use vstd::prelude::*;
use crate::config::EmitContext;
use crate::mangling::MethodManglingStyle;
use crate::mangling::mangle;
use crate::mangling::spec_mangle;
use crate::text::str_eq;

verus! {

/// The access-flag bit for a public method.
pub const ACC_PUBLIC: u16 = 0x0001;

/// The access-flag bit for a protected method.
pub const ACC_PROTECTED: u16 = 0x0004;

/// The access-flag bit for a static method.
pub const ACC_STATIC: u16 = 0x0008;

/// The access-flag bit for a bridge method.
pub const ACC_BRIDGE: u16 = 0x0040;

/// The access-flag bit for a variable-arity method.
pub const ACC_VARARGS: u16 = 0x0080;

/// A managed method's access-flag set, as the raw flag word.
#[derive(Clone, Copy, Debug, PartialEq, Eq, Structural)]
pub struct MethodAccessFlags {
    pub bits: u16,
}

/// Whether every bit of `mask` is set in `bits`.
pub open spec fn flags_contain(bits: u16, mask: u16) -> bool {
    bits & mask == mask
}

impl MethodAccessFlags {
    /// Whether every bit of `mask` is set.
    pub fn contains(self, mask: u16) -> (r: bool)
        ensures
            r == flags_contain(self.bits, mask),
    {
        self.bits & mask == mask
    }
}

/// One managed method's metadata and its derived mangled name.
pub struct Method {
    access_flags: MethodAccessFlags,
    java_class: String,
    java_name: String,
    java_desc: String,
    rust_name: Option<String>,
    mangling_style: MethodManglingStyle,
}

/// Mathematical model of a [`Method`].
pub ghost struct MethodView {
    pub access_flags: u16,
    pub java_class: Seq<char>,
    pub java_name: Seq<char>,
    pub java_desc: Seq<char>,
    pub rust_name: Option<Seq<char>>,
    pub mangling_style: MethodManglingStyle,
}

impl View for Method {
    type V = MethodView;

    closed spec fn view(&self) -> MethodView {
        MethodView {
            access_flags: self.access_flags.bits,
            java_class: self.java_class@,
            java_name: self.java_name@,
            java_desc: self.java_desc@,
            rust_name: match self.rust_name {
                Some(n) => Some(n@),
                None => None,
            },
            mangling_style: self.mangling_style,
        }
    }
}

/// A method value is well formed when its mangled name is exactly what its
/// naming style derives from its managed name and descriptor.
pub open spec fn method_wf(m: MethodView) -> bool {
    m.rust_name == spec_mangle(m.mangling_style, m.java_name, m.java_desc)
}

/// The style and the derived name only ever change together: any two
/// well-formed states of the same managed method that agree on the naming
/// style agree on the derived name, so reverting the style reproduces the
/// original name.
pub proof fn lemma_mangling_stability(m0: MethodView, m1: MethodView, m2: MethodView)
    requires
        method_wf(m0),
        method_wf(m1),
        method_wf(m2),
        m1.java_name == m0.java_name,
        m1.java_desc == m0.java_desc,
        m2.java_name == m1.java_name,
        m2.java_desc == m1.java_desc,
        m2.mangling_style == m0.mangling_style,
    ensures
        m2.rust_name == m0.rust_name,
{
}

impl Method {
    /// Whether the mangled name is consistent with the naming style.
    pub open spec fn wf(&self) -> bool {
        method_wf(self@)
    }

    /// Builds the metadata for one managed method, deriving the mangled name
    /// under the context's configured naming style.
    pub fn new(
        context: &EmitContext,
        class_name: &str,
        method_name: &str,
        method_desc: &str,
        access_flags: MethodAccessFlags,
    ) -> (r: Method)
        ensures
            r@.access_flags == access_flags.bits,
            r@.java_class == class_name@,
            r@.java_name == method_name@,
            r@.java_desc == method_desc@,
            r@.mangling_style == context.config.codegen.method_naming_style,
            r.wf(),
    {
        let style = context.config.codegen.method_naming_style;
        let mut result = Method {
            access_flags,
            java_class: class_name.to_owned(),
            java_name: method_name.to_owned(),
            java_desc: method_desc.to_owned(),
            rust_name: None,
            mangling_style: style,
        };
        result.set_mangling_style(style);
        result
    }

    /// The derived mangled name, absent when mangling failed.
    pub fn rust_name(&self) -> (r: Option<&str>)
        ensures
            match r {
                Some(n) => self@.rust_name == Some(n@),
                None => self@.rust_name is None,
            },
    {
        match &self.rust_name {
            Some(n) => Some(n.as_str()),
            None => None,
        }
    }

    /// The owning class's fully-qualified name.
    pub fn java_class(&self) -> (r: &str)
        ensures
            r@ == self@.java_class,
    {
        self.java_class.as_str()
    }

    /// The managed method name.
    pub fn java_name(&self) -> (r: &str)
        ensures
            r@ == self@.java_name,
    {
        self.java_name.as_str()
    }

    /// The managed descriptor string.
    pub fn java_desc(&self) -> (r: &str)
        ensures
            r@ == self@.java_desc,
    {
        self.java_desc.as_str()
    }

    /// The access flags.
    pub fn access_flags(&self) -> (r: MethodAccessFlags)
        ensures
            r.bits == self@.access_flags,
    {
        self.access_flags
    }

    /// Whether the method is a constructor (`<init>`).
    pub fn is_constructor(&self) -> (r: bool)
        ensures
            r == (self@.java_name == "<init>"@),
    {
        str_eq(self.java_name.as_str(), "<init>")
    }

    /// Whether the method is the static initializer (`<clinit>`).
    pub fn is_static_init(&self) -> (r: bool)
        ensures
            r == (self@.java_name == "<clinit>"@),
    {
        str_eq(self.java_name.as_str(), "<clinit>")
    }

    /// Whether the public access flag is set.
    pub fn is_public(&self) -> (r: bool)
        ensures
            r == flags_contain(self@.access_flags, ACC_PUBLIC),
    {
        self.access_flags.contains(ACC_PUBLIC)
    }

    /// Whether the protected access flag is set.
    pub fn is_protected(&self) -> (r: bool)
        ensures
            r == flags_contain(self@.access_flags, ACC_PROTECTED),
    {
        self.access_flags.contains(ACC_PROTECTED)
    }

    /// Whether the method is private: neither public nor protected.
    pub fn is_private(&self) -> (r: bool)
        ensures
            r == (!flags_contain(self@.access_flags, ACC_PUBLIC) && !flags_contain(
                self@.access_flags,
                ACC_PROTECTED,
            )),
    {
        !(self.is_public() || self.is_protected())
    }

    /// Whether the static flag is set.
    pub fn is_static(&self) -> (r: bool)
        ensures
            r == flags_contain(self@.access_flags, ACC_STATIC),
    {
        self.access_flags.contains(ACC_STATIC)
    }

    /// Whether the variable-arity flag is set.
    pub fn is_varargs(&self) -> (r: bool)
        ensures
            r == flags_contain(self@.access_flags, ACC_VARARGS),
    {
        self.access_flags.contains(ACC_VARARGS)
    }

    /// Whether the bridge flag is set.
    pub fn is_bridge(&self) -> (r: bool)
        ensures
            r == flags_contain(self@.access_flags, ACC_BRIDGE),
    {
        self.access_flags.contains(ACC_BRIDGE)
    }

    /// The current naming style.
    pub fn mangling_style(&self) -> (r: MethodManglingStyle)
        ensures
            r == self@.mangling_style,
    {
        self.mangling_style
    }

    /// Switches the naming style and re-derives the mangled name in the same
    /// step, so style and name never disagree.
    pub fn set_mangling_style(&mut self, style: MethodManglingStyle)
        ensures
            final(self)@.mangling_style == style,
            final(self)@.rust_name == spec_mangle(
                style,
                old(self)@.java_name,
                old(self)@.java_desc,
            ),
            final(self)@.access_flags == old(self)@.access_flags,
            final(self)@.java_class == old(self)@.java_class,
            final(self)@.java_name == old(self)@.java_name,
            final(self)@.java_desc == old(self)@.java_desc,
            final(self).wf(),
    {
        self.mangling_style = style;
        self.rust_name = match mangle(style, self.java_name.as_str(), self.java_desc.as_str()) {
            Ok(name) => Some(name),
            Err(_) => None,
        };
    }
}

} // verus!
