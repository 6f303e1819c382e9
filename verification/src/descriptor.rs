//! Method type descriptors: the compact grammar `"(" paramTypes* ")" returnType`
//! that encodes a managed method's parameter and return types in one string.
//!
//! Parsing is total over well-formed inputs and is specified by a spec-level
//! parser over the character view; reconstruction of the descriptor string is
//! proved lossless in both directions.

use vstd::prelude::*;
use vstd::string::StrSliceExecFns;
use crate::text::push_char;
use crate::text::push_str;

verus! {

/// A single managed basic type, including a fully-qualified class reference
/// (package separators written with slashes).
#[derive(Debug, PartialEq, Eq)]
pub enum BasicType {
    Void,
    Boolean,
    Byte,
    Char,
    Short,
    Int,
    Long,
    Float,
    Double,
    Class(String),
}

/// Mathematical model of a [`BasicType`].
pub ghost enum BasicTypeView {
    Void,
    Boolean,
    Byte,
    Char,
    Short,
    Int,
    Long,
    Float,
    Double,
    Class(Seq<char>),
}

impl View for BasicType {
    type V = BasicTypeView;

    open spec fn view(&self) -> BasicTypeView {
        match self {
            BasicType::Void => BasicTypeView::Void,
            BasicType::Boolean => BasicTypeView::Boolean,
            BasicType::Byte => BasicTypeView::Byte,
            BasicType::Char => BasicTypeView::Char,
            BasicType::Short => BasicTypeView::Short,
            BasicType::Int => BasicTypeView::Int,
            BasicType::Long => BasicTypeView::Long,
            BasicType::Float => BasicTypeView::Float,
            BasicType::Double => BasicTypeView::Double,
            BasicType::Class(name) => BasicTypeView::Class(name@),
        }
    }
}

/// A field type: either a basic type, or an array of some nesting depth
/// wrapping a basic type. Depths above one are representable but mapped to an
/// unsupported shape downstream, not rejected at parse time.
#[derive(Debug, PartialEq, Eq)]
pub enum FieldType {
    Single(BasicType),
    Array { levels: usize, inner: BasicType },
}

/// Mathematical model of a [`FieldType`].
pub ghost enum FieldTypeView {
    Single(BasicTypeView),
    Array { levels: nat, inner: BasicTypeView },
}

impl View for FieldType {
    type V = FieldTypeView;

    open spec fn view(&self) -> FieldTypeView {
        match self {
            FieldType::Single(b) => FieldTypeView::Single(b@),
            FieldType::Array { levels, inner } => FieldTypeView::Array {
                levels: *levels as nat,
                inner: inner@,
            },
        }
    }
}

/// One element of a parsed descriptor: a parameter type or the return type.
#[derive(Debug, PartialEq, Eq)]
pub enum DescriptorSegment {
    Parameter(FieldType),
    Return(FieldType),
}

/// Mathematical model of a [`DescriptorSegment`].
pub ghost enum DescriptorSegmentView {
    Parameter(FieldTypeView),
    Return(FieldTypeView),
}

impl View for DescriptorSegment {
    type V = DescriptorSegmentView;

    open spec fn view(&self) -> DescriptorSegmentView {
        match self {
            DescriptorSegment::Parameter(f) => DescriptorSegmentView::Parameter(f@),
            DescriptorSegment::Return(f) => DescriptorSegmentView::Return(f@),
        }
    }
}

/// A parsed method descriptor: the ordered parameter types and the single
/// return type. The segment sequence it denotes always ends in exactly one
/// return segment.
#[derive(Debug, PartialEq, Eq)]
pub struct MethodDescriptor {
    pub params: Vec<FieldType>,
    pub ret: FieldType,
}

/// Mathematical model of a [`MethodDescriptor`].
pub ghost struct MethodDescriptorView {
    pub params: Seq<FieldTypeView>,
    pub ret: FieldTypeView,
}

impl View for MethodDescriptor {
    type V = MethodDescriptorView;

    open spec fn view(&self) -> MethodDescriptorView {
        MethodDescriptorView {
            params: self.params@.map_values(|f: FieldType| f@),
            ret: self.ret@,
        }
    }
}

/// The failure condition for a malformed descriptor string.
#[derive(Debug, PartialEq, Eq)]
pub struct InvalidDescriptor;

/// A class name is well formed when it contains no `';'`, the terminator of
/// its encoding.
pub open spec fn class_name_wf(name: Seq<char>) -> bool {
    forall|i: int| 0 <= i < name.len() ==> name[i] != ';'
}

/// Well-formedness of a basic type value.
pub open spec fn basic_type_wf(b: BasicTypeView) -> bool {
    match b {
        BasicTypeView::Class(name) => class_name_wf(name),
        _ => true,
    }
}

/// Well-formedness of a field type value: arrays have at least one level.
pub open spec fn field_type_wf(f: FieldTypeView) -> bool {
    match f {
        FieldTypeView::Single(b) => basic_type_wf(b),
        FieldTypeView::Array { levels, inner } => levels >= 1 && basic_type_wf(inner),
    }
}

/// Well-formedness of a whole descriptor value.
pub open spec fn descriptor_wf(d: MethodDescriptorView) -> bool {
    &&& forall|i: int| 0 <= i < d.params.len() ==> field_type_wf(#[trigger] d.params[i])
    &&& field_type_wf(d.ret)
}

/// The encoding of a basic type: its one type code character, or
/// `L<name>;` for a class reference.
pub open spec fn basic_type_chars(b: BasicTypeView) -> Seq<char> {
    match b {
        BasicTypeView::Void => seq!['V'],
        BasicTypeView::Boolean => seq!['Z'],
        BasicTypeView::Byte => seq!['B'],
        BasicTypeView::Char => seq!['C'],
        BasicTypeView::Short => seq!['S'],
        BasicTypeView::Int => seq!['I'],
        BasicTypeView::Long => seq!['J'],
        BasicTypeView::Float => seq!['F'],
        BasicTypeView::Double => seq!['D'],
        BasicTypeView::Class(name) => seq!['L'] + name + seq![';'],
    }
}

/// A run of `n` opening brackets.
pub open spec fn bracket_run(n: nat) -> Seq<char> {
    Seq::new(n, |i: int| '[')
}

/// The encoding of a field type: array bracket prefixes, then the basic type.
pub open spec fn field_type_chars(f: FieldTypeView) -> Seq<char> {
    match f {
        FieldTypeView::Single(b) => basic_type_chars(b),
        FieldTypeView::Array { levels, inner } => bracket_run(levels) + basic_type_chars(inner),
    }
}

/// The concatenated encodings of a sequence of field types.
pub open spec fn concat_field_chars(ps: Seq<FieldTypeView>) -> Seq<char>
    decreases ps.len(),
{
    if ps.len() == 0 {
        Seq::empty()
    } else {
        field_type_chars(ps[0]) + concat_field_chars(ps.drop_first())
    }
}

/// The full descriptor string of a parameter list and return type.
pub open spec fn descriptor_chars(ps: Seq<FieldTypeView>, ret: FieldTypeView) -> Seq<char> {
    seq!['('] + concat_field_chars(ps) + seq![')'] + field_type_chars(ret)
}

/// The position of the first `';'` at or after `from`, if any.
pub open spec fn find_semi(s: Seq<char>, from: int) -> Option<int>
    decreases s.len() - from,
{
    if !(0 <= from < s.len()) {
        None
    } else if s[from] == ';' {
        Some(from)
    } else {
        find_semi(s, from + 1)
    }
}

/// The number of consecutive `'['` characters at `from`.
pub open spec fn bracket_count(s: Seq<char>, from: int) -> nat
    decreases s.len() - from,
{
    if !(0 <= from < s.len()) {
        0
    } else if s[from] == '[' {
        1 + bracket_count(s, from + 1)
    } else {
        0
    }
}

/// Spec-level parse of one basic type starting at `from`; on success, the
/// parsed value and the position just past it.
pub open spec fn parse_basic_at(s: Seq<char>, from: int) -> Option<(BasicTypeView, int)> {
    if !(0 <= from < s.len()) {
        None
    } else {
        let c = s[from];
        if c == 'V' {
            Some((BasicTypeView::Void, from + 1))
        } else if c == 'Z' {
            Some((BasicTypeView::Boolean, from + 1))
        } else if c == 'B' {
            Some((BasicTypeView::Byte, from + 1))
        } else if c == 'C' {
            Some((BasicTypeView::Char, from + 1))
        } else if c == 'S' {
            Some((BasicTypeView::Short, from + 1))
        } else if c == 'I' {
            Some((BasicTypeView::Int, from + 1))
        } else if c == 'J' {
            Some((BasicTypeView::Long, from + 1))
        } else if c == 'F' {
            Some((BasicTypeView::Float, from + 1))
        } else if c == 'D' {
            Some((BasicTypeView::Double, from + 1))
        } else if c == 'L' {
            match find_semi(s, from + 1) {
                Some(j) => Some((BasicTypeView::Class(s.subrange(from + 1, j)), j + 1)),
                None => None,
            }
        } else {
            None
        }
    }
}

/// Spec-level parse of one field type (bracket prefixes, then a basic type)
/// starting at `from`.
pub open spec fn parse_field_at(s: Seq<char>, from: int) -> Option<(FieldTypeView, int)> {
    let n = bracket_count(s, from);
    match parse_basic_at(s, from + n) {
        Some((b, j)) => if n == 0 {
            Some((FieldTypeView::Single(b), j))
        } else {
            Some((FieldTypeView::Array { levels: n, inner: b }, j))
        },
        None => None,
    }
}

/// Spec-level parse of the parameter list starting at `from` (just after the
/// opening parenthesis), up to and including the closing parenthesis.
pub open spec fn parse_params_at(s: Seq<char>, from: int) -> Option<(Seq<FieldTypeView>, int)>
    decreases s.len() - from,
{
    if !(0 <= from < s.len()) {
        None
    } else if s[from] == ')' {
        Some((Seq::empty(), from + 1))
    } else {
        match parse_field_at(s, from) {
            Some((f, j)) => if from < j <= s.len() {
                match parse_params_at(s, j) {
                    Some((rest, k)) => Some((seq![f] + rest, k)),
                    None => None,
                }
            } else {
                None
            },
            None => None,
        }
    }
}

/// Spec-level parse of a whole method descriptor string. `Some` exactly on
/// well-formed descriptor strings.
pub open spec fn parse_descriptor(s: Seq<char>) -> Option<(Seq<FieldTypeView>, FieldTypeView)> {
    if s.len() == 0 || s[0] != '(' {
        None
    } else {
        match parse_params_at(s, 1) {
            Some((ps, j)) => match parse_field_at(s, j) {
                Some((ret, k)) => if k == s.len() {
                    Some((ps, ret))
                } else {
                    None
                },
                None => None,
            },
            None => None,
        }
    }
}

/// Position of the first `';'` at or after `from`, as [`find_semi`] gives it.
fn exec_find_semi(s: &str, from: usize) -> (r: Option<usize>)
    requires
        from <= s@.len(),
    ensures
        match r {
            Some(j) => find_semi(s@, from as int) == Some(j as int),
            None => find_semi(s@, from as int) is None,
        },
{
    let len = s.unicode_len();
    let mut k = from;
    while k < len
        invariant
            from <= k <= len,
            len == s@.len(),
            find_semi(s@, from as int) == find_semi(s@, k as int),
        decreases len - k,
    {
        if s.get_char(k) == ';' {
            return Some(k);
        }
        k += 1;
    }
    None
}

/// Parses one basic type starting at `from`, as [`parse_basic_at`] gives it.
fn parse_basic_from(s: &str, from: usize) -> (r: Option<(BasicType, usize)>)
    requires
        from <= s@.len(),
    ensures
        match r {
            Some((b, j)) => {
                &&& parse_basic_at(s@, from as int) == Some((b@, j as int))
                &&& from < j <= s@.len()
                &&& basic_type_wf(b@)
            },
            None => parse_basic_at(s@, from as int) is None,
        },
{
    let len = s.unicode_len();
    if from >= len {
        return None;
    }
    let c = s.get_char(from);
    match c {
        'V' => Some((BasicType::Void, from + 1)),
        'Z' => Some((BasicType::Boolean, from + 1)),
        'B' => Some((BasicType::Byte, from + 1)),
        'C' => Some((BasicType::Char, from + 1)),
        'S' => Some((BasicType::Short, from + 1)),
        'I' => Some((BasicType::Int, from + 1)),
        'J' => Some((BasicType::Long, from + 1)),
        'F' => Some((BasicType::Float, from + 1)),
        'D' => Some((BasicType::Double, from + 1)),
        'L' => {
            match exec_find_semi(s, from + 1) {
                Some(j) => {
                    proof {
                        lemma_find_semi(s@, from + 1 as int);
                    }
                    let name = s.substring_char(from + 1, j).to_owned();
                    Some((BasicType::Class(name), j + 1))
                },
                None => None,
            }
        },
        _ => None,
    }
}

/// Parses one field type starting at `from`, as [`parse_field_at`] gives it.
fn parse_field_from(s: &str, from: usize) -> (r: Option<(FieldType, usize)>)
    requires
        from <= s@.len(),
    ensures
        match r {
            Some((f, j)) => {
                &&& parse_field_at(s@, from as int) == Some((f@, j as int))
                &&& from < j <= s@.len()
                &&& field_type_wf(f@)
            },
            None => parse_field_at(s@, from as int) is None,
        },
{
    let len = s.unicode_len();
    let mut k = from;
    while k < len && s.get_char(k) == '['
        invariant
            from <= k <= len,
            len == s@.len(),
            bracket_count(s@, from as int) == (k - from) + bracket_count(s@, k as int),
        decreases len - k,
    {
        k += 1;
    }
    proof {
        assert(bracket_count(s@, k as int) == 0);
        assert(bracket_count(s@, from as int) == k - from);
    }
    match parse_basic_from(s, k) {
        Some((b, j)) => {
            if k == from {
                Some((FieldType::Single(b), j))
            } else {
                Some((FieldType::Array { levels: k - from, inner: b }, j))
            }
        },
        None => None,
    }
}

/// First position at or after `from` holding `';'`, with nothing but
/// non-`';'` characters before it; `None` when no `';'` follows.
pub proof fn lemma_find_semi(s: Seq<char>, from: int)
    requires
        0 <= from <= s.len(),
    ensures
        match find_semi(s, from) {
            Some(j) => {
                &&& from <= j < s.len()
                &&& s[j] == ';'
                &&& forall|m: int| from <= m < j ==> s[m] != ';'
            },
            None => forall|m: int| from <= m < s.len() ==> s[m] != ';',
        },
    decreases s.len() - from,
{
    if from < s.len() && s[from] != ';' {
        lemma_find_semi(s, from + 1);
    }
}

/// The views of a sequence of field types.
pub open spec fn field_views(v: Seq<FieldType>) -> Seq<FieldTypeView> {
    v.map_values(|f: FieldType| f@)
}

impl MethodDescriptor {
    /// Whether every field type held by this descriptor is well formed.
    pub open spec fn wf(&self) -> bool {
        descriptor_wf(self@)
    }

    /// Parses a descriptor string. Returns `Ok` exactly when the spec-level
    /// parse succeeds, and then the parsed value is the spec-level parse.
    pub fn parse(s: &str) -> (r: Result<MethodDescriptor, InvalidDescriptor>)
        ensures
            match r {
                Ok(d) => parse_descriptor(s@) == Some((d@.params, d@.ret)) && d.wf(),
                Err(_) => parse_descriptor(s@) is None,
            },
    {
        let len = s.unicode_len();
        if len == 0 || s.get_char(0) != '(' {
            return Err(InvalidDescriptor);
        }
        let mut params: Vec<FieldType> = Vec::new();
        let mut k: usize = 1;
        loop
            invariant_except_break
                1 <= k <= len,
                len == s@.len(),
                s@.len() > 0 && s@[0] == '(',
                forall|i: int| 0 <= i < params@.len() ==> field_type_wf(#[trigger] params@[i]@),
                ({
                    let tail = parse_params_at(s@, k as int);
                    let whole = parse_params_at(s@, 1);
                    match tail {
                        Some(rj) => whole == Some((field_views(params@) + rj.0, rj.1)),
                        None => whole is None,
                    }
                }),
            ensures
                1 <= k <= len,
                len == s@.len(),
                forall|i: int| 0 <= i < params@.len() ==> field_type_wf(#[trigger] params@[i]@),
                parse_params_at(s@, 1) == Some((field_views(params@), k as int)),
            decreases len - k,
        {
            if k >= len {
                assert(parse_params_at(s@, k as int) is None);
                return Err(InvalidDescriptor);
            }
            if s.get_char(k) == ')' {
                k += 1;
                proof {
                    assert(field_views(params@) + Seq::<FieldTypeView>::empty() =~= field_views(
                        params@,
                    ));
                }
                break;
            }
            let r = parse_field_from(s, k);
            match r {
                Some((f, j)) => {
                    let ghost old_params = params@;
                    params.push(f);
                    proof {
                        assert(field_views(params@) =~= field_views(old_params) + seq![f@]);
                        let tail = parse_params_at(s@, j as int);
                        if tail is Some {
                            assert(field_views(old_params) + (seq![f@] + tail->Some_0.0)
                                =~= field_views(params@) + tail->Some_0.0);
                        }
                    }
                    k = j;
                },
                None => {
                    return Err(InvalidDescriptor);
                },
            }
        }
        let ret = match parse_field_from(s, k) {
            Some((f, j)) => {
                if j != len {
                    return Err(InvalidDescriptor);
                }
                f
            },
            None => {
                return Err(InvalidDescriptor);
            },
        };
        let d = MethodDescriptor { params, ret };
        proof {
            assert(d@.params =~= field_views(params@));
        }
        Ok(d)
    }
}

impl Clone for BasicType {
    fn clone(&self) -> (r: Self)
        ensures
            r@ == self@,
    {
        match self {
            BasicType::Void => BasicType::Void,
            BasicType::Boolean => BasicType::Boolean,
            BasicType::Byte => BasicType::Byte,
            BasicType::Char => BasicType::Char,
            BasicType::Short => BasicType::Short,
            BasicType::Int => BasicType::Int,
            BasicType::Long => BasicType::Long,
            BasicType::Float => BasicType::Float,
            BasicType::Double => BasicType::Double,
            BasicType::Class(name) => BasicType::Class(name.clone()),
        }
    }
}

impl Clone for FieldType {
    fn clone(&self) -> (r: Self)
        ensures
            r@ == self@,
    {
        match self {
            FieldType::Single(b) => FieldType::Single(b.clone()),
            FieldType::Array { levels, inner } => FieldType::Array {
                levels: *levels,
                inner: inner.clone(),
            },
        }
    }
}

impl Clone for MethodDescriptor {
    fn clone(&self) -> (r: Self)
        ensures
            r@ == self@,
    {
        let mut params: Vec<FieldType> = Vec::new();
        let mut i: usize = 0;
        while i < self.params.len()
            invariant
                i <= self.params@.len(),
                params@.len() == i,
                forall|j: int| 0 <= j < i ==> params@[j]@ == self.params@[j]@,
            decreases self.params@.len() - i,
        {
            params.push(self.params[i].clone());
            i += 1;
        }
        let r = MethodDescriptor { params, ret: self.ret.clone() };
        proof {
            assert(r@.params =~= self@.params);
        }
        r
    }
}

/// Appends the encoding of one basic type.
fn basic_type_string_into(out: &mut String, b: &BasicType)
    ensures
        final(out)@ == old(out)@ + basic_type_chars(b@),
{
    match b {
        BasicType::Void => push_char(out, 'V'),
        BasicType::Boolean => push_char(out, 'Z'),
        BasicType::Byte => push_char(out, 'B'),
        BasicType::Char => push_char(out, 'C'),
        BasicType::Short => push_char(out, 'S'),
        BasicType::Int => push_char(out, 'I'),
        BasicType::Long => push_char(out, 'J'),
        BasicType::Float => push_char(out, 'F'),
        BasicType::Double => push_char(out, 'D'),
        BasicType::Class(name) => {
            push_char(out, 'L');
            push_str(out, name.as_str());
            push_char(out, ';');
            proof {
                assert(out@ =~= old(out)@ + basic_type_chars(b@));
            }
        },
    }
}

/// Appends the encoding of one field type.
pub(crate) fn field_type_string_into(out: &mut String, f: &FieldType)
    ensures
        final(out)@ == old(out)@ + field_type_chars(f@),
{
    match f {
        FieldType::Single(b) => basic_type_string_into(out, b),
        FieldType::Array { levels, inner } => {
            let n = *levels;
            let mut i: usize = 0;
            while i < n
                invariant
                    i <= n,
                    out@ == old(out)@ + bracket_run(i as nat),
                decreases n - i,
            {
                push_char(out, '[');
                proof {
                    assert(out@ =~= old(out)@ + bracket_run((i + 1) as nat));
                }
                i += 1;
            }
            basic_type_string_into(out, inner);
            proof {
                assert(out@ =~= old(out)@ + field_type_chars(f@));
            }
        },
    }
}

/// The segment sequence a descriptor denotes: each parameter in order, then
/// the single return segment.
pub open spec fn segments_of(ps: Seq<FieldTypeView>, ret: FieldTypeView) -> Seq<
    DescriptorSegmentView,
> {
    ps.map_values(|f: FieldTypeView| DescriptorSegmentView::Parameter(f)).push(
        DescriptorSegmentView::Return(ret),
    )
}

/// The segment sequence of any descriptor consists of its parameter segments
/// in their original order, followed by exactly one return segment, which is
/// always last.
pub proof fn lemma_segments_shape(ps: Seq<FieldTypeView>, ret: FieldTypeView)
    ensures
        segments_of(ps, ret).len() == ps.len() + 1,
        segments_of(ps, ret).last() == DescriptorSegmentView::Return(ret),
        forall|i: int|
            0 <= i < ps.len() ==> segments_of(ps, ret)[i] == DescriptorSegmentView::Parameter(
                ps[i],
            ),
        forall|i: int|
            0 <= i < segments_of(ps, ret).len() ==> ((segments_of(ps, ret)[i] is Return) <==> i
                == ps.len()),
{
}

impl MethodDescriptor {
    /// The descriptor with no parameters and a `Void` return: the trivial
    /// fallback callers substitute when parsing fails.
    pub fn fallback() -> (r: MethodDescriptor)
        ensures
            r@.params.len() == 0,
            r@.ret == FieldTypeView::Single(BasicTypeView::Void),
            r.wf(),
    {
        let r = MethodDescriptor { params: Vec::new(), ret: FieldType::Single(BasicType::Void) };
        proof {
            assert(r@.params =~= Seq::<FieldTypeView>::empty());
        }
        r
    }

    /// Whether a descriptor string is well formed, that is, whether parsing
    /// it succeeds.
    pub fn parseable(s: &str) -> (r: bool)
        ensures
            r == (parse_descriptor(s@) is Some),
    {
        match MethodDescriptor::parse(s) {
            Ok(_) => true,
            Err(_) => false,
        }
    }

    /// The one-pass segment sequence: parameters in order, then the return.
    pub fn segments(&self) -> (r: Vec<DescriptorSegment>)
        ensures
            r@.map_values(|g: DescriptorSegment| g@) == segments_of(self@.params, self@.ret),
    {
        let mut r: Vec<DescriptorSegment> = Vec::new();
        let mut i: usize = 0;
        while i < self.params.len()
            invariant
                i <= self.params@.len(),
                r@.len() == i,
                forall|j: int|
                    0 <= j < i ==> r@[j]@ == DescriptorSegmentView::Parameter(self.params@[j]@),
            decreases self.params@.len() - i,
        {
            r.push(DescriptorSegment::Parameter(self.params[i].clone()));
            i += 1;
        }
        r.push(DescriptorSegment::Return(self.ret.clone()));
        proof {
            assert(r@.map_values(|g: DescriptorSegment| g@) =~= segments_of(
                self@.params,
                self@.ret,
            ));
        }
        r
    }

    /// Reconstructs the descriptor string this value encodes.
    pub fn descriptor_string(&self) -> (r: String)
        ensures
            r@ == descriptor_chars(self@.params, self@.ret),
    {
        let mut out = String::new();
        push_char(&mut out, '(');
        let mut i: usize = 0;
        while i < self.params.len()
            invariant
                i <= self.params@.len(),
                out@ == seq!['('] + concat_field_chars(self@.params.take(i as int)),
            decreases self.params@.len() - i,
        {
            let ghost prefix = self@.params.take(i as int);
            field_type_string_into(&mut out, &self.params[i]);
            proof {
                lemma_concat_snoc(self@.params.take(i + 1 as int));
                assert(self@.params.take(i + 1 as int).drop_last() =~= prefix);
                assert(self@.params.take(i + 1 as int).last() == self.params@[i as int]@);
                assert(out@ =~= seq!['('] + concat_field_chars(self@.params.take(i + 1 as int)));
            }
            i += 1;
        }
        proof {
            assert(self@.params.take(i as int) =~= self@.params);
        }
        push_char(&mut out, ')');
        field_type_string_into(&mut out, &self.ret);
        proof {
            assert(out@ =~= descriptor_chars(self@.params, self@.ret));
        }
        out
    }
}

/// A successful basic-type parse covers exactly the characters of the parsed
/// value's encoding.
proof fn lemma_parse_basic_chars(s: Seq<char>, from: int)
    requires
        parse_basic_at(s, from) is Some,
    ensures
        ({
            let (b, j) = parse_basic_at(s, from)->Some_0;
            &&& from < j <= s.len()
            &&& basic_type_chars(b) == s.subrange(from, j)
            &&& basic_type_wf(b)
        }),
{
    let (b, j) = parse_basic_at(s, from)->Some_0;
    if s[from] == 'L' {
        lemma_find_semi(s, from + 1);
        let semi = find_semi(s, from + 1)->Some_0;
        assert(basic_type_chars(b) =~= s.subrange(from, j));
    } else {
        assert(basic_type_chars(b) =~= s.subrange(from, j));
    }
}

/// The bracket count delimits a maximal run of `'['` characters.
proof fn lemma_bracket_count_chars(s: Seq<char>, from: int)
    requires
        0 <= from <= s.len(),
    ensures
        from + bracket_count(s, from) <= s.len(),
        forall|m: int| from <= m < from + bracket_count(s, from) ==> s[m] == '[',
        from + bracket_count(s, from) == s.len() || s[from + bracket_count(s, from)] != '[',
    decreases s.len() - from,
{
    if from < s.len() && s[from] == '[' {
        lemma_bracket_count_chars(s, from + 1);
    }
}

/// A successful field-type parse covers exactly the characters of the parsed
/// value's encoding.
proof fn lemma_parse_field_chars(s: Seq<char>, from: int)
    requires
        0 <= from <= s.len(),
        parse_field_at(s, from) is Some,
    ensures
        ({
            let (f, j) = parse_field_at(s, from)->Some_0;
            &&& from < j <= s.len()
            &&& field_type_chars(f) == s.subrange(from, j)
            &&& field_type_wf(f)
        }),
{
    let (f, j) = parse_field_at(s, from)->Some_0;
    let n = bracket_count(s, from);
    lemma_bracket_count_chars(s, from);
    lemma_parse_basic_chars(s, from + n);
    let (b, jb) = parse_basic_at(s, from + n)->Some_0;
    assert(s.subrange(from, from + n) =~= bracket_run(n));
    assert(s.subrange(from, jb) =~= s.subrange(from, from + n) + s.subrange(from + n, jb));
    if n != 0 {
        assert(field_type_chars(f) =~= s.subrange(from, j));
    }
}

/// A successful parameter-list parse covers exactly the concatenated
/// encodings followed by the closing parenthesis.
proof fn lemma_parse_params_chars(s: Seq<char>, from: int)
    requires
        0 <= from,
        parse_params_at(s, from) is Some,
    ensures
        ({
            let (ps, k) = parse_params_at(s, from)->Some_0;
            &&& from < k <= s.len()
            &&& s.subrange(from, k) == concat_field_chars(ps) + seq![')']
            &&& forall|i: int| 0 <= i < ps.len() ==> field_type_wf(#[trigger] ps[i])
        }),
    decreases s.len() - from,
{
    let (ps, k) = parse_params_at(s, from)->Some_0;
    if s[from] == ')' {
        assert(s.subrange(from, k) =~= concat_field_chars(ps) + seq![')']);
    } else {
        let (f, j) = parse_field_at(s, from)->Some_0;
        lemma_parse_field_chars(s, from);
        lemma_parse_params_chars(s, j);
        let (rest, k2) = parse_params_at(s, j)->Some_0;
        assert(ps == seq![f] + rest);
        assert(ps[0] == f);
        assert(ps.drop_first() =~= rest);
        assert(s.subrange(from, k) =~= s.subrange(from, j) + s.subrange(j, k));
        assert(s.subrange(from, k) =~= concat_field_chars(ps) + seq![')']);
    }
}

/// Parsing is lossless: reconstructing the descriptor string from any
/// successful parse gives back the very input, whose parsed fields are all
/// well formed.
pub proof fn lemma_descriptor_round_trip(s: Seq<char>)
    requires
        parse_descriptor(s) is Some,
    ensures
        ({
            let (ps, ret) = parse_descriptor(s)->Some_0;
            &&& descriptor_chars(ps, ret) == s
            &&& forall|i: int| 0 <= i < ps.len() ==> field_type_wf(#[trigger] ps[i])
            &&& field_type_wf(ret)
        }),
{
    let (ps, ret) = parse_descriptor(s)->Some_0;
    let (ps0, k) = parse_params_at(s, 1)->Some_0;
    lemma_parse_params_chars(s, 1);
    lemma_parse_field_chars(s, k);
    assert(s =~= seq![s[0]] + s.subrange(1, k) + s.subrange(k, s.len() as int));
    assert(descriptor_chars(ps, ret) =~= s);
}

/// `find_semi` finds a `';'` whose earlier positions are known clear.
proof fn lemma_find_semi_exact(s: Seq<char>, from: int, j: int)
    requires
        0 <= from <= j < s.len(),
        s[j] == ';',
        forall|m: int| from <= m < j ==> s[m] != ';',
    ensures
        find_semi(s, from) == Some(j),
    decreases j - from,
{
    if from < j {
        lemma_find_semi_exact(s, from + 1, j);
    }
}

/// `bracket_count` counts a known maximal bracket run.
proof fn lemma_bracket_count_exact(s: Seq<char>, from: int, n: nat)
    requires
        0 <= from,
        from + n <= s.len(),
        forall|m: int| from <= m < from + n ==> s[m] == '[',
        from + n == s.len() || s[from + n] != '[',
    ensures
        bracket_count(s, from) == n,
    decreases n,
{
    if n > 0 {
        lemma_bracket_count_exact(s, from + 1, (n - 1) as nat);
    }
}

/// The first character of a basic type's encoding is its type code, never a
/// bracket or parenthesis.
proof fn lemma_basic_first_char(b: BasicTypeView)
    ensures
        basic_type_chars(b).len() >= 1,
        basic_type_chars(b)[0] != '[',
        basic_type_chars(b)[0] != ')',
{
}

/// The encoding of a well-formed basic type parses back to that value, in any
/// surrounding context.
proof fn lemma_parse_basic_exact(s: Seq<char>, from: int, b: BasicTypeView)
    requires
        0 <= from,
        from + basic_type_chars(b).len() <= s.len(),
        s.subrange(from, from + basic_type_chars(b).len()) == basic_type_chars(b),
        basic_type_wf(b),
    ensures
        parse_basic_at(s, from) == Some((b, from + basic_type_chars(b).len())),
{
    let len = basic_type_chars(b).len() as int;
    assert(forall|m: int| from <= m < from + len ==> s[m] == basic_type_chars(b)[m - from]) by {
        assert(forall|m: int|
            from <= m < from + len ==> s[m] == s.subrange(from, from + len)[m - from]);
    }
    match b {
        BasicTypeView::Class(name) => {
            assert(s[from] == 'L');
            let semi = from + 1 + name.len();
            assert(s[semi] == ';') by {
                assert(basic_type_chars(b)[len - 1] == ';');
            }
            assert(forall|m: int| from + 1 <= m < semi ==> s[m] == name[m - from - 1]);
            lemma_find_semi_exact(s, from + 1, semi);
            assert(s.subrange(from + 1, semi) =~= name);
        },
        _ => {
            assert(s[from] == basic_type_chars(b)[0]);
        },
    }
}

/// The encoding of a well-formed field type parses back to that value, in any
/// surrounding context.
proof fn lemma_parse_field_exact(s: Seq<char>, from: int, f: FieldTypeView)
    requires
        0 <= from,
        from + field_type_chars(f).len() <= s.len(),
        s.subrange(from, from + field_type_chars(f).len()) == field_type_chars(f),
        field_type_wf(f),
    ensures
        parse_field_at(s, from) == Some((f, from + field_type_chars(f).len())),
{
    let len = field_type_chars(f).len() as int;
    assert(forall|m: int| from <= m < from + len ==> s[m] == field_type_chars(f)[m - from]) by {
        assert(forall|m: int|
            from <= m < from + len ==> s[m] == s.subrange(from, from + len)[m - from]);
    }
    match f {
        FieldTypeView::Single(b) => {
            lemma_basic_first_char(b);
            lemma_bracket_count_exact(s, from, 0);
            lemma_parse_basic_exact(s, from, b);
        },
        FieldTypeView::Array { levels, inner } => {
            lemma_basic_first_char(inner);
            assert(forall|m: int| from <= m < from + levels ==> s[m] == '[');
            assert(s[from + levels] == basic_type_chars(inner)[0]);
            lemma_bracket_count_exact(s, from, levels);
            assert(s.subrange(from + levels, from + len) =~= basic_type_chars(inner));
            lemma_parse_basic_exact(s, from + levels, inner);
        },
    }
}

/// The first character of a field type's encoding is never `')'`.
proof fn lemma_field_first_char(f: FieldTypeView)
    requires
        field_type_wf(f),
    ensures
        field_type_chars(f).len() >= 1,
        field_type_chars(f)[0] != ')',
{
    match f {
        FieldTypeView::Single(b) => lemma_basic_first_char(b),
        FieldTypeView::Array { levels, inner } => {
            lemma_basic_first_char(inner);
        },
    }
}

/// The concatenated encodings of well-formed parameter types, closed by
/// `')'`, parse back to those types, in any surrounding context.
proof fn lemma_parse_params_exact(s: Seq<char>, from: int, ps: Seq<FieldTypeView>)
    requires
        0 <= from,
        from + concat_field_chars(ps).len() + 1 <= s.len(),
        s.subrange(from, from + concat_field_chars(ps).len() + 1) == concat_field_chars(ps)
            + seq![')'],
        forall|i: int| 0 <= i < ps.len() ==> field_type_wf(#[trigger] ps[i]),
    ensures
        parse_params_at(s, from) == Some((ps, from + concat_field_chars(ps).len() + 1)),
    decreases ps.len(),
{
    let clen = concat_field_chars(ps).len() as int;
    assert(forall|m: int|
        from <= m < from + clen + 1 ==> s[m] == (concat_field_chars(ps) + seq![')'])[m - from])
        by {
        assert(forall|m: int|
            from <= m < from + clen + 1 ==> s[m] == s.subrange(from, from + clen + 1)[m - from]);
    }
    if ps.len() == 0 {
        assert(s[from] == ')');
    } else {
        let f = ps[0];
        let flen = field_type_chars(f).len() as int;
        lemma_field_first_char(f);
        assert(s[from] == field_type_chars(f)[0]);
        assert(s.subrange(from, from + flen) =~= field_type_chars(f));
        lemma_parse_field_exact(s, from, f);
        let rest = ps.drop_first();
        assert(concat_field_chars(rest).len() == clen - flen);
        assert(s.subrange(from + flen, from + clen + 1) =~= concat_field_chars(rest) + seq![')']);
        assert(forall|i: int| 0 <= i < rest.len() ==> field_type_wf(#[trigger] rest[i]));
        lemma_parse_params_exact(s, from + flen, rest);
        assert(seq![f] + rest =~= ps);
    }
}

/// Any well-formed descriptor value, rendered to its descriptor string,
/// parses back to exactly that value.
pub proof fn lemma_descriptor_unparse_parse(ps: Seq<FieldTypeView>, ret: FieldTypeView)
    requires
        forall|i: int| 0 <= i < ps.len() ==> field_type_wf(#[trigger] ps[i]),
        field_type_wf(ret),
    ensures
        parse_descriptor(descriptor_chars(ps, ret)) == Some((ps, ret)),
{
    let s = descriptor_chars(ps, ret);
    let clen = concat_field_chars(ps).len() as int;
    let rlen = field_type_chars(ret).len() as int;
    lemma_field_first_char(ret);
    assert(s.len() == 1 + clen + 1 + rlen);
    assert(s[0] == '(');
    assert(s.subrange(1, 1 + clen + 1) =~= concat_field_chars(ps) + seq![')']);
    lemma_parse_params_exact(s, 1, ps);
    assert(s.subrange(1 + clen + 1, s.len() as int) =~= field_type_chars(ret));
    lemma_parse_field_exact(s, 1 + clen + 1, ret);
}

/// Splitting the last element off a nonempty concatenation.
pub proof fn lemma_concat_snoc(ps: Seq<FieldTypeView>)
    requires
        ps.len() > 0,
    ensures
        concat_field_chars(ps) == concat_field_chars(ps.drop_last()) + field_type_chars(ps.last()),
    decreases ps.len(),
{
    if ps.len() == 1 {
        assert(ps.drop_last() =~= Seq::<FieldTypeView>::empty());
        assert(concat_field_chars(ps.drop_first()) =~= Seq::<char>::empty());
        assert(concat_field_chars(ps) =~= concat_field_chars(ps.drop_last()) + field_type_chars(
            ps.last(),
        ));
    } else {
        lemma_concat_snoc(ps.drop_first());
        assert(ps.drop_first().drop_last() =~= ps.drop_last().drop_first());
        assert(ps.drop_first().last() == ps.last());
        assert(ps.drop_last()[0] == ps[0]);
        assert(concat_field_chars(ps) =~= concat_field_chars(ps.drop_last()) + field_type_chars(
            ps.last(),
        ));
    }
}

} // verus!
