//! What the reader produces for each declaration of a resource file.
use vstd::prelude::*;
use crate::text::str_eq;
use crate::utils::opt_text;

verus! {

/// The kind of tag a declaration was written with.
#[derive(Debug, Clone, Copy, PartialEq, Eq, Structural)]
pub enum ResourceKind {
    String,
    Number,
    Bool,
    Color,
    Url,
    Dimension,
    Template,
    Array,
    /// A `<ns>` grouping tag.
    Namespace,
    /// An `<item>` inside an array.
    Item,
    /// A `<doc>` block.
    Doc,
}

/// The kind that a tag name stands for. `int` and `float` are other names
/// for `number`; an unknown tag is read as a string declaration.
pub open spec fn kind_of_tag(tag: Seq<char>) -> ResourceKind {
    if tag == "ns"@ {
        ResourceKind::Namespace
    } else if tag == "template"@ {
        ResourceKind::Template
    } else if tag == "array"@ {
        ResourceKind::Array
    } else if tag == "string"@ {
        ResourceKind::String
    } else if tag == "number"@ || tag == "int"@ || tag == "float"@ {
        ResourceKind::Number
    } else if tag == "bool"@ {
        ResourceKind::Bool
    } else if tag == "color"@ {
        ResourceKind::Color
    } else if tag == "url"@ {
        ResourceKind::Url
    } else if tag == "dimension"@ {
        ResourceKind::Dimension
    } else if tag == "item"@ {
        ResourceKind::Item
    } else if tag == "doc"@ {
        ResourceKind::Doc
    } else {
        ResourceKind::String
    }
}

impl ResourceKind {
    /// Converts a tag name to a `ResourceKind`.
    pub fn from_str(tag: &str) -> (k: ResourceKind)
        ensures
            k == kind_of_tag(tag@),
    {
        if str_eq(tag, "ns") {
            ResourceKind::Namespace
        } else if str_eq(tag, "template") {
            ResourceKind::Template
        } else if str_eq(tag, "array") {
            ResourceKind::Array
        } else if str_eq(tag, "string") {
            ResourceKind::String
        } else if str_eq(tag, "number") || str_eq(tag, "int") || str_eq(tag, "float") {
            ResourceKind::Number
        } else if str_eq(tag, "bool") {
            ResourceKind::Bool
        } else if str_eq(tag, "color") {
            ResourceKind::Color
        } else if str_eq(tag, "url") {
            ResourceKind::Url
        } else if str_eq(tag, "dimension") {
            ResourceKind::Dimension
        } else if str_eq(tag, "item") {
            ResourceKind::Item
        } else if str_eq(tag, "doc") {
            ResourceKind::Doc
        } else {
            ResourceKind::String
        }
    }
}

/// A parameter declared inside a template.
#[derive(Debug, PartialEq, Eq)]
pub struct TemplateParam {
    pub name: String,
    pub value: ScalarValue,
}

/// The payload of a parsed declaration.
#[derive(Debug, PartialEq, Eq)]
pub enum ScalarValue {
    Text(String),
    Number { value: String, explicit_type: Option<String> },
    Bool(bool),
    Color(String),
    Template { text: String, params: Vec<TemplateParam> },
    Array { element_type: String, spec: Option<String>, items: Vec<String> },
}

/// The mathematical value of a `TemplateParam`.
pub struct ParamView {
    pub name: Seq<char>,
    pub value: ScalarView,
}

/// The mathematical value of a `ScalarValue`.
pub enum ScalarView {
    Text(Seq<char>),
    Number { value: Seq<char>, explicit_type: Option<Seq<char>> },
    Bool(bool),
    Color(Seq<char>),
    Template { text: Seq<char>, params: Seq<ParamView> },
    Array { element_type: Seq<char>, spec: Option<Seq<char>>, items: Seq<Seq<char>> },
}

pub open spec fn param_view(p: TemplateParam) -> ParamView
    decreases p,
{
    ParamView { name: p.name@, value: scalar_view(p.value) }
}

pub open spec fn params_view(ps: Seq<TemplateParam>) -> Seq<ParamView>
    decreases ps,
{
    Seq::new(ps.len(), |i: int| if 0 <= i < ps.len() { param_view(ps[i]) } else { arbitrary() })
}

pub open spec fn scalar_view(v: ScalarValue) -> ScalarView
    decreases v,
{
    match v {
        ScalarValue::Text(t) => ScalarView::Text(t@),
        ScalarValue::Number { value, explicit_type } => ScalarView::Number {
            value: value@,
            explicit_type: opt_text(explicit_type),
        },
        ScalarValue::Bool(b) => ScalarView::Bool(b),
        ScalarValue::Color(c) => ScalarView::Color(c@),
        ScalarValue::Template { text, params } => ScalarView::Template {
            text: text@,
            params: params_view(params@),
        },
        ScalarValue::Array { element_type, spec, items } => ScalarView::Array {
            element_type: element_type@,
            spec: opt_text(spec),
            items: crate::text::texts(items@),
        },
    }
}

impl View for TemplateParam {
    type V = ParamView;

    open spec fn view(&self) -> ParamView {
        param_view(*self)
    }
}

impl View for ScalarValue {
    type V = ScalarView;

    open spec fn view(&self) -> ScalarView {
        scalar_view(*self)
    }
}


/// A copy of an optional string.
pub fn clone_opt(o: &Option<String>) -> (r: Option<String>)
    ensures
        opt_text(r) == opt_text(*o),
{
    match o {
        Some(s) => Some(s.clone()),
        None => None,
    }
}

/// A copy of a list of strings.
pub fn clone_strings(v: &Vec<String>) -> (r: Vec<String>)
    ensures
        crate::text::texts(r@) == crate::text::texts(v@),
{
    let mut out: Vec<String> = Vec::new();
    let mut i: usize = 0;
    while i < v.len()
        invariant
            i <= v@.len(),
            out@.len() == i,
            forall|j: int| 0 <= j < i ==> out@[j]@ == v@[j]@,
        decreases v@.len() - i,
    {
        out.push(v[i].clone());
        i = i + 1;
    }
    assert(crate::text::texts(out@) =~= crate::text::texts(v@));
    out
}

#[verifier::loop_isolation(false)]
fn clone_scalar(v: &ScalarValue) -> (r: ScalarValue)
    ensures
        r@ == v@,
    decreases v,
{
    match v {
        ScalarValue::Text(t) => ScalarValue::Text(t.clone()),
        ScalarValue::Number { value, explicit_type } => ScalarValue::Number {
            value: value.clone(),
            explicit_type: clone_opt(explicit_type),
        },
        ScalarValue::Bool(b) => ScalarValue::Bool(*b),
        ScalarValue::Color(c) => ScalarValue::Color(c.clone()),
        ScalarValue::Template { text, params } => {
            let mut out: Vec<TemplateParam> = Vec::new();
            let mut i: usize = 0;
            while i < params.len()
                invariant
                    i <= params@.len(),
                    out@.len() == i,
                    forall|j: int| 0 <= j < i ==> out@[j]@ == params@[j]@,
                decreases params@.len() - i,
            {
                let p = &params[i];
                proof {
                    vstd::std_specs::vec::axiom_vec_index_decreases(*params, i as int);
                }
                let value = clone_scalar(&p.value);
                out.push(TemplateParam { name: p.name.clone(), value });
                i = i + 1;
            }
            assert(params_view(out@) =~= params_view(params@));
            ScalarValue::Template { text: text.clone(), params: out }
        },
        ScalarValue::Array { element_type, spec, items } => ScalarValue::Array {
            element_type: element_type.clone(),
            spec: clone_opt(spec),
            items: clone_strings(items),
        },
    }
}

impl Clone for ScalarValue {
    fn clone(&self) -> (r: Self)
        ensures
            r@ == self@,
    {
        clone_scalar(self)
    }
}

impl Clone for TemplateParam {
    fn clone(&self) -> (r: Self)
        ensures
            r@ == self@,
    {
        TemplateParam { name: self.name.clone(), value: clone_scalar(&self.value) }
    }
}

/// A copy of a list of template parameters.
pub fn clone_params(params: &Vec<TemplateParam>) -> (r: Vec<TemplateParam>)
    ensures
        params_view(r@) == params_view(params@),
{
    let mut out: Vec<TemplateParam> = Vec::new();
    let mut i: usize = 0;
    while i < params.len()
        invariant
            i <= params@.len(),
            out@.len() == i,
            forall|j: int| 0 <= j < i ==> out@[j]@ == params@[j]@,
        decreases params@.len() - i,
    {
        out.push(params[i].clone());
        i = i + 1;
    }
    assert(params_view(out@) =~= params_view(params@));
    out
}


impl ScalarValue {
    /// The text of a string, number or template value.
    pub fn as_text(&self) -> (r: Option<&str>)
        ensures
            match self@ {
                ScalarView::Text(t) => r.is_some() && r.unwrap()@ == t,
                ScalarView::Number { value, .. } => r.is_some() && r.unwrap()@ == value,
                ScalarView::Template { text, .. } => r.is_some() && r.unwrap()@ == text,
                _ => r.is_none(),
            },
    {
        match self {
            ScalarValue::Text(value) => Some(value.as_str()),
            ScalarValue::Number { value, .. } => Some(value.as_str()),
            ScalarValue::Bool(_) => None,
            ScalarValue::Color(_) => None,
            ScalarValue::Template { text, .. } => Some(text.as_str()),
            ScalarValue::Array { .. } => None,
        }
    }

    /// The literal of a number value.
    pub fn as_number(&self) -> (r: Option<&str>)
        ensures
            match self@ {
                ScalarView::Number { value, .. } => r.is_some() && r.unwrap()@ == value,
                _ => r.is_none(),
            },
    {
        match self {
            ScalarValue::Number { value, .. } => Some(value.as_str()),
            _ => None,
        }
    }

    /// The explicit type of a number value, where one was given.
    pub fn number_explicit_type(&self) -> (r: Option<&str>)
        ensures
            match self@ {
                ScalarView::Number { explicit_type: Some(t), .. } => r.is_some() && r.unwrap()@
                    == t,
                _ => r.is_none(),
            },
    {
        match self {
            ScalarValue::Number { explicit_type, .. } => match explicit_type {
                Some(t) => Some(t.as_str()),
                None => None,
            },
            _ => None,
        }
    }

    /// The text of a color value.
    pub fn as_color(&self) -> (r: Option<&str>)
        ensures
            match self@ {
                ScalarView::Color(c) => r.is_some() && r.unwrap()@ == c,
                _ => r.is_none(),
            },
    {
        match self {
            ScalarValue::Color(value) => Some(value.as_str()),
            _ => None,
        }
    }

    /// The value of a boolean.
    pub fn as_bool(&self) -> (r: Option<bool>)
        ensures
            match self@ {
                ScalarView::Bool(b) => r == Some(b),
                _ => r.is_none(),
            },
    {
        match self {
            ScalarValue::Bool(value) => Some(*value),
            _ => None,
        }
    }
}

/// One declaration read from a resource file.
#[derive(Debug, PartialEq, Eq)]
pub struct ParsedResource {
    /// The name, prefixed by the enclosing namespaces joined with `/`.
    pub name: String,
    pub kind: ResourceKind,
    pub value: ScalarValue,
    /// The documentation block that preceded the declaration.
    pub doc: Option<String>,
}

/// The mathematical value of a `ParsedResource`.
pub struct ParsedResourceView {
    pub name: Seq<char>,
    pub kind: ResourceKind,
    pub value: ScalarView,
    pub doc: Option<Seq<char>>,
}

impl View for ParsedResource {
    type V = ParsedResourceView;

    open spec fn view(&self) -> ParsedResourceView {
        ParsedResourceView {
            name: self.name@,
            kind: self.kind,
            value: self.value@,
            doc: opt_text(self.doc),
        }
    }
}

impl Clone for ParsedResource {
    fn clone(&self) -> (r: Self)
        ensures
            r@ == self@,
    {
        ParsedResource {
            name: self.name.clone(),
            kind: self.kind,
            value: self.value.clone(),
            doc: clone_opt(&self.doc),
        }
    }
}

impl ParsedResource {
    /// A string declaration without documentation.
    pub fn string(name: &str, value: &str) -> (r: Self)
        ensures
            r@ == (ParsedResourceView {
                name: name@,
                kind: ResourceKind::String,
                value: ScalarView::Text(value@),
                doc: None,
            }),
    {
        ParsedResource {
            name: name.to_string(),
            kind: ResourceKind::String,
            value: ScalarValue::Text(value.to_string()),
            doc: None,
        }
    }

    /// A number declaration without documentation.
    pub fn number(name: &str, value: &str, explicit_type: Option<String>) -> (r: Self)
        ensures
            r@ == (ParsedResourceView {
                name: name@,
                kind: ResourceKind::Number,
                value: ScalarView::Number { value: value@, explicit_type: opt_text(explicit_type) },
                doc: None,
            }),
    {
        ParsedResource {
            name: name.to_string(),
            kind: ResourceKind::Number,
            value: ScalarValue::Number { value: value.to_string(), explicit_type },
            doc: None,
        }
    }

    /// A boolean declaration without documentation.
    pub fn bool(name: &str, value: bool) -> (r: Self)
        ensures
            r@ == (ParsedResourceView {
                name: name@,
                kind: ResourceKind::Bool,
                value: ScalarView::Bool(value),
                doc: None,
            }),
    {
        ParsedResource {
            name: name.to_string(),
            kind: ResourceKind::Bool,
            value: ScalarValue::Bool(value),
            doc: None,
        }
    }
}

/// The views of a list of parsed resources.
pub open spec fn resources_view(rs: Seq<ParsedResource>) -> Seq<ParsedResourceView> {
    Seq::new(rs.len(), |i: int| rs[i]@)
}

/// The declarations of one resource file, in the order in which they were
/// read.
#[derive(Debug)]
pub struct ParsedResourceFile {
    pub path: String,
    pub is_test: bool,
    pub resources: Vec<ParsedResource>,
}

impl ParsedResourceFile {
    pub fn new(path: String, is_test: bool, resources: Vec<ParsedResource>) -> (r: Self)
        ensures
            r.path == path,
            r.is_test == is_test,
            r.resources == resources,
    {
        ParsedResourceFile { path, is_test, resources }
    }
}

} // verus!
