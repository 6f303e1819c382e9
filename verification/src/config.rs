//! Read-only generation configuration: ignore lists, rename maps (by class,
//! class+method, and class+method+signature), the naming style, and the
//! static-call environment style; and the generation context that adds the
//! class-path and documentation lookups.
//!
//! Lists are ordered, and every lookup returns the first match, so two runs
//! over the same configuration behave identically.

use vstd::prelude::*;
use crate::mangling::MethodManglingStyle;
use crate::text::push_char;
use crate::text::push_str;
use crate::text::str_eq;

verus! {

/// How a generated static or constructor call obtains its environment.
#[derive(Clone, Copy, Debug, PartialEq, Eq, Structural)]
pub enum StaticEnvStyle {
    /// An explicit environment parameter on the wrapper.
    Explicit,
    /// Implicitly acquired; recognized but not implemented, so methods under
    /// it are rejected rather than miscompiled.
    Implicit,
}

/// Code-generation switches.
#[derive(Clone, Copy, Debug, PartialEq, Eq, Structural)]
pub struct CodegenConfig {
    pub method_naming_style: MethodManglingStyle,
    pub static_env: StaticEnvStyle,
}

/// The separator joining the parts of a class+method or
/// class+method+signature key.
pub open spec fn key_sep() -> char {
    '\u{1f}'
}

/// The key for a class and method name.
pub open spec fn key2(class: Seq<char>, name: Seq<char>) -> Seq<char> {
    class + seq![key_sep()] + name
}

/// The key for a class, method name and descriptor.
pub open spec fn key3(class: Seq<char>, name: Seq<char>, desc: Seq<char>) -> Seq<char> {
    class + seq![key_sep()] + name + seq![key_sep()] + desc
}

/// Whether an ordered set of keys contains `key`.
pub open spec fn set_contains(set: Seq<Seq<char>>, key: Seq<char>) -> bool {
    exists|i: int| 0 <= i < set.len() && set[i] == key
}

/// The first value an ordered association list maps `key` to, if any.
pub open spec fn map_lookup(m: Seq<(Seq<char>, Seq<char>)>, key: Seq<char>) -> Option<Seq<char>>
    decreases m.len(),
{
    if m.len() == 0 {
        None
    } else if m[0].0 == key {
        Some(m[0].1)
    } else {
        map_lookup(m.drop_first(), key)
    }
}

/// The views of an ordered key set.
pub open spec fn set_views(v: Seq<String>) -> Seq<Seq<char>> {
    v.map_values(|s: String| s@)
}

/// The views of an ordered association list.
pub open spec fn map_views(v: Seq<(String, String)>) -> Seq<(Seq<char>, Seq<char>)> {
    v.map_values(|p: (String, String)| (p.0@, p.1@))
}

/// The project configuration: three ignore tiers, three rename tiers, and the
/// code-generation switches.
pub struct Config {
    pub ignore_classes: Vec<String>,
    pub ignore_class_methods: Vec<String>,
    pub ignore_class_method_sigs: Vec<String>,
    pub rename_classes: Vec<(String, String)>,
    pub rename_class_methods: Vec<(String, String)>,
    pub rename_class_method_sigs: Vec<(String, String)>,
    pub codegen: CodegenConfig,
}

impl Config {
    /// An empty configuration with the given switches.
    pub fn new(codegen: CodegenConfig) -> (r: Config)
        ensures
            r.ignore_classes@.len() == 0,
            r.ignore_class_methods@.len() == 0,
            r.ignore_class_method_sigs@.len() == 0,
            r.rename_classes@.len() == 0,
            r.rename_class_methods@.len() == 0,
            r.rename_class_method_sigs@.len() == 0,
            r.codegen == codegen,
    {
        Config {
            ignore_classes: Vec::new(),
            ignore_class_methods: Vec::new(),
            ignore_class_method_sigs: Vec::new(),
            rename_classes: Vec::new(),
            rename_class_methods: Vec::new(),
            rename_class_method_sigs: Vec::new(),
            codegen,
        }
    }
}

/// Builds the class+method key.
pub fn make_key2(class: &str, name: &str) -> (r: String)
    ensures
        r@ == key2(class@, name@),
{
    let mut out = String::new();
    push_str(&mut out, class);
    push_char(&mut out, '\u{1f}');
    push_str(&mut out, name);
    proof {
        assert(out@ =~= key2(class@, name@));
    }
    out
}

/// Builds the class+method+signature key.
pub fn make_key3(class: &str, name: &str, desc: &str) -> (r: String)
    ensures
        r@ == key3(class@, name@, desc@),
{
    let mut out = String::new();
    push_str(&mut out, class);
    push_char(&mut out, '\u{1f}');
    push_str(&mut out, name);
    push_char(&mut out, '\u{1f}');
    push_str(&mut out, desc);
    proof {
        assert(out@ =~= key3(class@, name@, desc@));
    }
    out
}

/// Whether an ordered key set contains `key`.
pub fn set_contains_exec(set: &Vec<String>, key: &str) -> (r: bool)
    ensures
        r == set_contains(set_views(set@), key@),
{
    let mut i: usize = 0;
    while i < set.len()
        invariant
            i <= set@.len(),
            forall|j: int| 0 <= j < i ==> set_views(set@)[j] != key@,
        decreases set@.len() - i,
    {
        if str_eq(set[i].as_str(), key) {
            assert(set_views(set@)[i as int] == key@);
            return true;
        }
        i += 1;
    }
    false
}

/// The first value an ordered association list maps `key` to, if any.
pub fn map_lookup_exec(m: &Vec<(String, String)>, key: &str) -> (r: Option<String>)
    ensures
        match r {
            Some(v) => map_lookup(map_views(m@), key@) == Some(v@),
            None => map_lookup(map_views(m@), key@) is None,
        },
{
    let ghost mv = map_views(m@);
    proof {
        assert(mv.skip(0) =~= mv);
    }
    let mut i: usize = 0;
    while i < m.len()
        invariant
            i <= m@.len(),
            mv == map_views(m@),
            map_lookup(mv, key@) == map_lookup(mv.skip(i as int), key@),
        decreases m@.len() - i,
    {
        if str_eq(m[i].0.as_str(), key) {
            proof {
                assert(mv.skip(i as int)[0] == mv[i as int]);
            }
            return Some(m[i].1.clone());
        }
        proof {
            assert(mv.skip(i as int)[0] == mv[i as int]);
            assert(mv.skip(i as int).drop_first() =~= mv.skip(i + 1));
        }
        i += 1;
    }
    proof {
        assert(mv.skip(i as int) =~= Seq::<(Seq<char>, Seq<char>)>::empty());
    }
    None
}

/// One known documentation reference for a method: the lookup key triple and
/// the label and URL to emit.
pub struct DocUrl {
    pub class: String,
    pub method: String,
    pub descriptor: String,
    pub label: String,
    pub url: String,
}

/// Mathematical model of a [`DocUrl`].
pub ghost struct DocUrlView {
    pub class: Seq<char>,
    pub method: Seq<char>,
    pub descriptor: Seq<char>,
    pub label: Seq<char>,
    pub url: Seq<char>,
}

impl View for DocUrl {
    type V = DocUrlView;

    open spec fn view(&self) -> DocUrlView {
        DocUrlView {
            class: self.class@,
            method: self.method@,
            descriptor: self.descriptor@,
            label: self.label@,
            url: self.url@,
        }
    }
}

/// The first documentation entry for a class, method and descriptor, if any.
pub open spec fn doc_lookup(
    docs: Seq<DocUrlView>,
    class: Seq<char>,
    name: Seq<char>,
    desc: Seq<char>,
) -> Option<DocUrlView>
    decreases docs.len(),
{
    if docs.len() == 0 {
        None
    } else if docs[0].class == class && docs[0].method == name && docs[0].descriptor == desc {
        Some(docs[0])
    } else {
        doc_lookup(docs.drop_first(), class, name, desc)
    }
}

/// The views of a documentation list.
pub open spec fn doc_views(v: Seq<DocUrl>) -> Seq<DocUrlView> {
    v.map_values(|d: DocUrl| d@)
}

/// The generation context: the configuration, the mapping from managed class
/// names to native type paths, and the known documentation references.
pub struct EmitContext {
    pub config: Config,
    pub rust_paths: Vec<(String, String)>,
    pub known_docs: Vec<DocUrl>,
}

/// The failure condition for a managed class name with no known native type
/// path.
#[derive(Debug, PartialEq, Eq)]
pub struct UnresolvedTypePath;

impl EmitContext {
    /// A context over a configuration, with no known class paths or
    /// documentation references.
    pub fn new(config: Config) -> (r: EmitContext)
        ensures
            r.config == config,
            r.rust_paths@.len() == 0,
            r.known_docs@.len() == 0,
    {
        EmitContext { config, rust_paths: Vec::new(), known_docs: Vec::new() }
    }

    /// Resolves a managed class name to its native type path: the first entry
    /// for it, or `UnresolvedTypePath` when none is known.
    pub fn java_to_rust_path(&self, class: &str) -> (r: Result<String, UnresolvedTypePath>)
        ensures
            match r {
                Ok(p) => map_lookup(map_views(self.rust_paths@), class@) == Some(p@),
                Err(_) => map_lookup(map_views(self.rust_paths@), class@) is None,
            },
    {
        match map_lookup_exec(&self.rust_paths, class) {
            Some(p) => Ok(p),
            None => Err(UnresolvedTypePath),
        }
    }

    /// The first known documentation reference for a method, if any; absence
    /// is not an error.
    pub fn known_docs_url(&self, class: &str, name: &str, desc: &str) -> (r: Option<&DocUrl>)
        ensures
            match r {
                Some(d) => doc_lookup(doc_views(self.known_docs@), class@, name@, desc@) == Some(
                    d@,
                ),
                None => doc_lookup(doc_views(self.known_docs@), class@, name@, desc@) is None,
            },
    {
        let ghost dv = doc_views(self.known_docs@);
        proof {
            assert(dv.skip(0) =~= dv);
        }
        let mut i: usize = 0;
        while i < self.known_docs.len()
            invariant
                i <= self.known_docs@.len(),
                dv == doc_views(self.known_docs@),
                doc_lookup(dv, class@, name@, desc@) == doc_lookup(
                    dv.skip(i as int),
                    class@,
                    name@,
                    desc@,
                ),
            decreases self.known_docs@.len() - i,
        {
            let d = &self.known_docs[i];
            if str_eq(d.class.as_str(), class) && str_eq(d.method.as_str(), name) && str_eq(
                d.descriptor.as_str(),
                desc,
            ) {
                proof {
                    assert(dv.skip(i as int)[0] == dv[i as int]);
                }
                return Some(d);
            }
            proof {
                assert(dv.skip(i as int)[0] == dv[i as int]);
                assert(dv.skip(i as int).drop_first() =~= dv.skip(i + 1));
            }
            i += 1;
        }
        proof {
            assert(dv.skip(i as int) =~= Seq::<DocUrlView>::empty());
        }
        None
    }
}

} // verus!
