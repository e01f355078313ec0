//! The values of the resource table, and how the text of a declaration is
//! read as a plain string, a reference or an interpolation.
use vstd::prelude::*;
use crate::text::{
    alphanumeric, chars_of, contains_char, find_from, first_index_from, is_alphanumeric, str_eq,
    string_of_range, texts,
};

verus! {

/// The type requested by `<number type="...">`.
#[derive(Debug, Clone, Copy, PartialEq, Eq, Structural)]
pub enum NumberType {
    I8,
    I16,
    I32,
    I64,
    U8,
    U16,
    U32,
    U64,
    F32,
    F64,
}

/// The name of the type in generated code.
pub open spec fn number_type_name(ty: NumberType) -> Seq<char> {
    match ty {
        NumberType::I8 => "i8"@,
        NumberType::I16 => "i16"@,
        NumberType::I32 => "i32"@,
        NumberType::I64 => "i64"@,
        NumberType::U8 => "u8"@,
        NumberType::U16 => "u16"@,
        NumberType::U32 => "u32"@,
        NumberType::U64 => "u64"@,
        NumberType::F32 => "f32"@,
        NumberType::F64 => "f64"@,
    }
}

impl NumberType {
    #[must_use]
    pub fn as_str(&self) -> (r: &'static str)
        ensures
            r@ == number_type_name(*self),
    {
        match self {
            NumberType::I8 => "i8",
            NumberType::I16 => "i16",
            NumberType::I32 => "i32",
            NumberType::I64 => "i64",
            NumberType::U8 => "u8",
            NumberType::U16 => "u16",
            NumberType::U32 => "u32",
            NumberType::U64 => "u64",
            NumberType::F32 => "f32",
            NumberType::F64 => "f64",
        }
    }
}

/// A classified numeric literal.
#[derive(Debug, Clone, PartialEq, Eq)]
pub enum NumberValue {
    /// An untyped integer that fits 64 signed bits.
    Int(i64),
    /// An untyped literal with a fraction or exponent, in canonical
    /// notation: it always holds a decimal point.
    Float(String),
    /// A literal that needs arbitrary precision, as written.
    BigDecimal(String),
    /// A literal of an explicitly requested type, in canonical notation.
    Typed { literal: String, ty: NumberType },
}

/// The mathematical value of a `NumberValue`.
pub enum NumberView {
    Int(i64),
    Float(Seq<char>),
    BigDecimal(Seq<char>),
    Typed { literal: Seq<char>, ty: NumberType },
}

impl View for NumberValue {
    type V = NumberView;

    open spec fn view(&self) -> NumberView {
        match self {
            NumberValue::Int(i) => NumberView::Int(*i),
            NumberValue::Float(s) => NumberView::Float(s@),
            NumberValue::BigDecimal(s) => NumberView::BigDecimal(s@),
            NumberValue::Typed { literal, ty } => NumberView::Typed { literal: literal@, ty: *ty },
        }
    }
}

/// One part of an interpolated string.
#[derive(Debug, Clone, PartialEq, Eq)]
pub enum InterpolationPart {
    /// Literal text.
    Text(String),
    /// A reference to another resource.
    Reference { resource_type: String, key: String },
}

/// The mathematical value of an `InterpolationPart`.
pub enum PartView {
    Text(Seq<char>),
    Reference { resource_type: Seq<char>, key: Seq<char> },
}

impl View for InterpolationPart {
    type V = PartView;

    open spec fn view(&self) -> PartView {
        match self {
            InterpolationPart::Text(t) => PartView::Text(t@),
            InterpolationPart::Reference { resource_type, key } => PartView::Reference {
                resource_type: resource_type@,
                key: key@,
            },
        }
    }
}

/// The views of a list of parts.
pub open spec fn parts_view(ps: Seq<InterpolationPart>) -> Seq<PartView> {
    Seq::new(ps.len(), |i: int| ps[i]@)
}

/// The type of a template parameter.
#[derive(Debug, Clone, Copy, PartialEq, Eq, Structural)]
pub enum TemplateParameterType {
    String,
    Int,
    Float,
    Bool,
}

/// A parameter of a template.
#[derive(Debug, Clone)]
pub struct TemplateParameter {
    pub name: String,
    pub param_type: TemplateParameterType,
}

/// The mathematical value of a `TemplateParameter`.
pub struct ParameterView {
    pub name: Seq<char>,
    pub param_type: TemplateParameterType,
}

impl View for TemplateParameter {
    type V = ParameterView;

    open spec fn view(&self) -> ParameterView {
        ParameterView { name: self.name@, param_type: self.param_type }
    }
}

/// The views of a list of parameters.
pub open spec fn parameters_view(ps: Seq<TemplateParameter>) -> Seq<ParameterView> {
    Seq::new(ps.len(), |i: int| ps[i]@)
}

/// A string with `{name}` placeholders and its parameters, in the order of
/// the generated function's signature.
#[derive(Debug, Clone)]
pub struct Template {
    pub template: String,
    pub parameters: Vec<TemplateParameter>,
}

/// The mathematical value of a `Template`.
pub struct TemplateView {
    pub template: Seq<char>,
    pub parameters: Seq<ParameterView>,
}

impl View for Template {
    type V = TemplateView;

    open spec fn view(&self) -> TemplateView {
        TemplateView { template: self.template@, parameters: parameters_view(self.parameters@) }
    }
}

/// The value of a resource in the table.
#[derive(Debug, Clone)]
pub enum ResourceValue {
    String(String),
    Number(NumberValue),
    Bool(bool),
    /// A color such as `#FF5722` or `#AAFF5722`.
    Color(String),
    Url(String),
    /// A dimension with its unit, such as `16dp`.
    Dimension(String),
    /// An array: the kind of its elements, the numeric subtype where one
    /// was given, and the items as written.
    Array { element_type: String, spec: Option<String>, items: Vec<String> },
    /// A value that is wholly an alias of another resource.
    Reference { resource_type: String, key: String },
    /// Text with references to other resources in it.
    InterpolatedString(Vec<InterpolationPart>),
    Template(Template),
}

/// The mathematical value of a `ResourceValue`.
pub enum ValueView {
    String(Seq<char>),
    Number(NumberView),
    Bool(bool),
    Color(Seq<char>),
    Url(Seq<char>),
    Dimension(Seq<char>),
    Array { element_type: Seq<char>, spec: Option<Seq<char>>, items: Seq<Seq<char>> },
    Reference { resource_type: Seq<char>, key: Seq<char> },
    InterpolatedString(Seq<PartView>),
    Template(TemplateView),
}

impl View for ResourceValue {
    type V = ValueView;

    open spec fn view(&self) -> ValueView {
        match self {
            ResourceValue::String(s) => ValueView::String(s@),
            ResourceValue::Number(n) => ValueView::Number(n@),
            ResourceValue::Bool(b) => ValueView::Bool(*b),
            ResourceValue::Color(s) => ValueView::Color(s@),
            ResourceValue::Url(s) => ValueView::Url(s@),
            ResourceValue::Dimension(s) => ValueView::Dimension(s@),
            ResourceValue::Array { element_type, spec, items } => ValueView::Array {
                element_type: element_type@,
                spec: crate::utils::opt_text(*spec),
                items: texts(items@),
            },
            ResourceValue::Reference { resource_type, key } => ValueView::Reference {
                resource_type: resource_type@,
                key: key@,
            },
            ResourceValue::InterpolatedString(parts) => ValueView::InterpolatedString(
                parts_view(parts@),
            ),
            ResourceValue::Template(t) => ValueView::Template(t@),
        }
    }
}

/// The kind under which a value of this shape is filed by default.
pub open spec fn value_type_name(v: ValueView) -> Seq<char> {
    match v {
        ValueView::String(_) => "string"@,
        ValueView::Number(_) => "number"@,
        ValueView::Bool(_) => "bool"@,
        ValueView::Color(_) => "color"@,
        ValueView::Url(_) => "url"@,
        ValueView::Dimension(_) => "dimension"@,
        ValueView::Array { .. } => "array"@,
        ValueView::Reference { resource_type, .. } => resource_type,
        ValueView::InterpolatedString(_) => "string"@,
        ValueView::Template(_) => "string"@,
    }
}

/// The canonical kind for a kind name as written: `int` and `float` both
/// mean `number`.
pub open spec fn canonical_type(t: Seq<char>) -> Seq<char> {
    if t == "int"@ || t == "float"@ {
        "number"@
    } else {
        t
    }
}

/// A canonical kind is its own canonical kind, and is neither `int` nor
/// `float`: after canonicalising, every number is filed and found under
/// `number`, whatever tag declared it.
pub proof fn lemma_canonical_type_is_canonical(t: Seq<char>)
    ensures
        canonical_type(canonical_type(t)) == canonical_type(t),
        canonical_type(t) != "int"@,
        canonical_type(t) != "float"@,
{
    reveal_strlit("int");
    reveal_strlit("float");
    reveal_strlit("number");
    assert("number"@.len() == 6);
    assert("int"@.len() == 3);
    assert("float"@.len() == 5);
}

pub fn canonicalize_resource_type(resource_type: &str) -> (r: String)
    ensures
        r@ == canonical_type(resource_type@),
{
    if str_eq(resource_type, "int") || str_eq(resource_type, "float") {
        "number".to_string()
    } else {
        resource_type.to_string()
    }
}

/// What a text that is wholly one reference refers to: it starts with `@`,
/// holds no space and no second `@`, and has a `/`; the kind stands between
/// the `@` and the first `/`, the key after it, and neither is empty.
pub open spec fn pure_reference(s: Seq<char>) -> Option<(Seq<char>, Seq<char>)> {
    if s.len() > 0 && s[0] == '@' && !s.contains(' ') && first_index_from(s, '@', 1).is_none() {
        match first_index_from(s, '/', 1) {
            Some(i) => if 1 < i && i + 1 < s.len() {
                Some((canonical_type(s.subrange(1, i)), s.subrange(i + 1, s.len() as int)))
            } else {
                None
            },
            None => None,
        }
    } else {
        None
    }
}

/// Whether the text is wholly one reference, and to what.
pub fn is_pure_reference(s: &str) -> (r: Option<(String, String)>)
    ensures
        match pure_reference(s@) {
            Some((t, k)) => r.is_some() && r.unwrap().0@ == t && r.unwrap().1@ == k,
            None => r.is_none(),
        },
{
    let v = chars_of(s);
    if v.len() == 0 || v[0] != '@' || contains_char(s, ' ') {
        return None;
    }
    if find_from(&v, '@', 1).is_some() {
        return None;
    }
    match find_from(&v, '/', 1) {
        Some(i) => {
            if i <= 1 || i + 1 >= v.len() {
                return None;
            }
            let t = string_of_range(&v, 1, i);
            let key = string_of_range(&v, i + 1, v.len());
            Some((canonicalize_resource_type(t.as_str()), key))
        },
        None => None,
    }
}

/// Whether a character can stand in the key of an embedded reference.
pub open spec fn is_key_char(c: char) -> bool {
    alphanumeric(c) || c == '_' || c == '/'
}

/// The first position at or after `i` that holds no key character.
pub open spec fn key_end(s: Seq<char>, i: int) -> int
    decreases s.len() - i,
{
    if i < 0 || i >= s.len() {
        i
    } else if is_key_char(s[i]) {
        key_end(s, i + 1)
    } else {
        i
    }
}

/// Whether a character can stand in the kind of an embedded reference.
pub open spec fn is_kind_char(c: char) -> bool {
    alphanumeric(c) || c == '_'
}

/// The first position at or after `i` that holds no kind character.
pub open spec fn kind_end(s: Seq<char>, i: int) -> int
    decreases s.len() - i,
{
    if i < 0 || i >= s.len() {
        i
    } else if is_kind_char(s[i]) {
        kind_end(s, i + 1)
    } else {
        i
    }
}

/// The reference written right after an `@`, where `start` is the position
/// after the `@`: its canonical kind, its key, and the position after it.
///
/// The kind is a run of letters, digits and underscores, the key the run
/// of key characters after the `/` that follows the kind; one trailing `/`
/// belongs neither to the key nor to the reference. Where the kind or the
/// key is empty, or no `/` follows the kind, there is no reference, and
/// the `@` is text.
pub open spec fn reference_at(s: Seq<char>, start: int) -> Option<(Seq<char>, Seq<char>, int)> {
    let slash = kind_end(s, start);
    if start < slash < s.len() && s[slash] == '/' {
        let end = key_end(s, slash + 1);
        let trailing = end > slash + 1 && s[end - 1] == '/';
        let stop = if trailing {
            end - 1
        } else {
            end
        };
        if stop > slash + 1 {
            Some((canonical_type(s.subrange(start, slash)), s.subrange(slash + 1, stop), stop))
        } else {
            None
        }
    } else {
        None
    }
}

/// Reads the reference that starts after an `@` at position `start`.
pub fn parse_ref_after_at(v: &Vec<char>, start: usize) -> (r: Option<(String, String, usize)>)
    ensures
        match reference_at(v@, start as int) {
            Some((t, k, next)) => r.is_some() && r.unwrap().0@ == t && r.unwrap().1@ == k
                && r.unwrap().2 == next && start < next <= v@.len(),
            None => r.is_none(),
        },
{
    let n = v.len();
    if start >= n {
        return None;
    }
    let mut slash: usize = start;
    while slash < n && (is_alphanumeric(v[slash]) || v[slash] == '_')
        invariant
            n == v@.len(),
            start <= slash <= n,
            kind_end(v@, start as int) == kind_end(v@, slash as int),
        decreases n - slash,
    {
        slash = slash + 1;
    }
    if slash == start || slash >= n || v[slash] != '/' {
        return None;
    }
    let mut end: usize = slash + 1;
    while end < n && (is_alphanumeric(v[end]) || v[end] == '_' || v[end] == '/')
        invariant
            n == v@.len(),
            slash < end <= v@.len(),
            key_end(v@, slash + 1) == key_end(v@, end as int),
        decreases v@.len() - end,
    {
        end = end + 1;
    }
    let stop = if end > slash + 1 && v[end - 1] == '/' {
        end - 1
    } else {
        end
    };
    if stop <= slash + 1 {
        return None;
    }
    let t = string_of_range(v, start, slash);
    let key = string_of_range(v, slash + 1, stop);
    Some((canonicalize_resource_type(t.as_str()), key, stop))
}

/// A stretch of literal text as a part; an empty stretch is no part.
pub open spec fn text_part(t: Seq<char>) -> Seq<PartView> {
    if t.len() > 0 {
        seq![PartView::Text(t)]
    } else {
        Seq::empty()
    }
}

/// The parts of `s` from position `pos` on: literal text up to the next
/// `@`, then the reference after it, or a lone `@` as text where none can
/// be read, and so on to the end.
pub open spec fn parts_from(s: Seq<char>, pos: int) -> Seq<PartView>
    decreases s.len() - pos,
{
    if pos < 0 || pos >= s.len() {
        Seq::empty()
    } else {
        match first_index_from(s, '@', pos) {
            None => text_part(s.subrange(pos, s.len() as int)),
            Some(at) => if at < pos || at >= s.len() {
                Seq::empty()
            } else {
                text_part(s.subrange(pos, at)) + match reference_at(s, at + 1) {
                    Some((t, k, next)) => if next <= at || next > s.len() {
                        Seq::empty()
                    } else {
                        seq![PartView::Reference { resource_type: t, key: k }] + parts_from(s, next)
                    },
                    None => seq![PartView::Text("@"@)] + parts_from(s, at + 1),
                }
            },
        }
    }
}

/// The parts of a text with embedded references; a text without any `@` has
/// none.
pub open spec fn interpolated_parts(s: Seq<char>) -> Option<Seq<PartView>> {
    if !s.contains('@') || parts_from(s, 0).len() == 0 {
        None
    } else {
        Some(parts_from(s, 0))
    }
}

/// Appends `v[start..end]` as a text part, unless it is empty.
pub fn push_text_part(v: &Vec<char>, start: usize, end: usize, parts: &mut Vec<InterpolationPart>)
    requires
        start <= end <= v@.len(),
    ensures
        parts_view(final(parts)@) == parts_view(old(parts)@) + text_part(
            v@.subrange(start as int, end as int),
        ),
{
    if end > start {
        let text = string_of_range(v, start, end);
        parts.push(InterpolationPart::Text(text));
        assert(parts_view(parts@) =~= parts_view(old(parts)@) + text_part(
            v@.subrange(start as int, end as int),
        ));
    } else {
        assert(parts_view(parts@) =~= parts_view(old(parts)@) + text_part(
            v@.subrange(start as int, end as int),
        ));
    }
}

/// Splits a text with embedded `@kind/key` references into its parts.
pub fn parse_interpolated_parts(s: &str) -> (r: Option<Vec<InterpolationPart>>)
    ensures
        match interpolated_parts(s@) {
            Some(ps) => r.is_some() && parts_view(r.unwrap()@) == ps,
            None => r.is_none(),
        },
{
    if !contains_char(s, '@') {
        return None;
    }
    let v = chars_of(s);
    let mut parts: Vec<InterpolationPart> = Vec::new();
    let mut pos: usize = 0;
    assert(parts_view(parts@) + parts_from(v@, 0) =~= parts_from(v@, 0));
    while pos < v.len()
        invariant
            v@ == s@,
            pos <= v@.len(),
            parts_view(parts@) + parts_from(v@, pos as int) == parts_from(v@, 0),
        decreases v@.len() - pos,
    {
        let ghost done = parts_view(parts@);
        match find_from(&v, '@', pos) {
            Some(at) => {
                push_text_part(&v, pos, at, &mut parts);
                let ghost lead = text_part(v@.subrange(pos as int, at as int));
                match parse_ref_after_at(&v, at + 1) {
                    Some((resource_type, key, next)) => {
                        let part = InterpolationPart::Reference { resource_type, key };
                        parts.push(part);
                        proof {
                            assert(parts_view(parts@) =~= done + lead + seq![part@]);
                            assert(done + (lead + (seq![part@] + parts_from(v@, next as int)))
                                =~= (done + lead + seq![part@]) + parts_from(v@, next as int));
                        }
                        pos = next;
                    },
                    None => {
                        let part = InterpolationPart::Text("@".to_string());
                        parts.push(part);
                        proof {
                            assert(parts_view(parts@) =~= done + lead + seq![part@]);
                            assert(done + (lead + (seq![part@] + parts_from(v@, at + 1))) =~= (done
                                + lead + seq![part@]) + parts_from(v@, at + 1));
                        }
                        pos = at + 1;
                    },
                }
            },
            None => {
                push_text_part(&v, pos, v.len(), &mut parts);
                pos = v.len();
                assert(parts_view(parts@) + parts_from(v@, pos as int) =~= parts_view(parts@));
            },
        }
    }
    assert(parts_view(parts@) + parts_from(v@, pos as int) =~= parts_view(parts@));
    if parts.len() == 0 {
        None
    } else {
        Some(parts)
    }
}

/// How the text of a declaration is read: as a reference where it is
/// wholly one, as an interpolation where it holds an `@`, as a plain string
/// otherwise.
pub open spec fn string_value(s: Seq<char>) -> ValueView {
    match pure_reference(s) {
        Some((t, k)) => ValueView::Reference { resource_type: t, key: k },
        None => match interpolated_parts(s) {
            Some(ps) => ValueView::InterpolatedString(ps),
            None => ValueView::String(s),
        },
    }
}

impl ResourceValue {
    /// The kind under which the value is filed by default.
    pub fn kind_name(&self) -> (r: String)
        ensures
            r@ == value_type_name(self@),
    {
        match self {
            ResourceValue::String(_) => "string".to_string(),
            ResourceValue::Number(_) => "number".to_string(),
            ResourceValue::Bool(_) => "bool".to_string(),
            ResourceValue::Color(_) => "color".to_string(),
            ResourceValue::Url(_) => "url".to_string(),
            ResourceValue::Dimension(_) => "dimension".to_string(),
            ResourceValue::Array { .. } => "array".to_string(),
            ResourceValue::Reference { resource_type, .. } => resource_type.clone(),
            ResourceValue::InterpolatedString(_) => "string".to_string(),
            ResourceValue::Template(_) => "string".to_string(),
        }
    }

    /// Reads the text of a declaration, detecting references and
    /// interpolations.
    pub fn parse_string_value(s: &str) -> (r: Self)
        ensures
            r@ == string_value(s@),
    {
        match is_pure_reference(s) {
            Some((resource_type, key)) => {
                return ResourceValue::Reference { resource_type, key };
            },
            None => {},
        }
        match parse_interpolated_parts(s) {
            Some(parts) => {
                return ResourceValue::InterpolatedString(parts);
            },
            None => {},
        }
        ResourceValue::String(s.to_string())
    }
}

} // verus!
