//! The intermediate representation of single resources, and the handlers
//! that build and emit the two kinds that carry documentation through to
//! the generated code: strings and arrays.
use vstd::prelude::*;
use crate::arrays::{array_text, emit_array};
use crate::ast::{clone_opt, clone_strings, ParsedResource, ScalarView};
use crate::emit::string_constant;
use crate::references::constant_name;
use crate::text::{pad, spaces, to_uppercase};
use crate::types::{ResourceValue, ValueView};
use crate::utils::{doc_comment, format_doc, opt_text, sanitize_identifier};

verus! {

/// The semantic kind of a resource.
#[derive(Debug, Clone, PartialEq, Eq)]
pub enum ResourceKind {
    String,
    Number,
    Bool,
    Color,
    Url,
    Dimension,
    Template,
    /// An array, with the kind of its elements.
    Array(String),
    Reference,
}

/// Where a resource was declared.
#[derive(Debug, Clone, PartialEq, Eq)]
pub struct ResourceOrigin {
    pub path: String,
    pub is_test: bool,
}

impl ResourceOrigin {
    pub fn new(path: String, is_test: bool) -> (r: Self)
        ensures
            r.path == path,
            r.is_test == is_test,
    {
        ResourceOrigin { path, is_test }
    }
}

/// What identifies a resource within its kind: the namespaces around it
/// and its own name.
#[derive(Debug, Clone, PartialEq, Eq)]
pub struct ResourceKey {
    pub namespace: Vec<String>,
    pub name: String,
}

/// A resource of the intermediate representation.
#[derive(Debug, Clone)]
pub struct ResourceNode {
    pub kind: ResourceKind,
    pub value: ResourceValue,
    pub origin: ResourceOrigin,
    pub doc: Option<String>,
}

/// The handler for string resources.
pub struct StringType;

/// The handler for array resources.
pub struct ArrayType;

impl StringType {
    pub fn name(&self) -> (r: &'static str)
        ensures
            r@ == "string"@,
    {
        "string"
    }

    pub fn xml_tags(&self) -> (r: Vec<&'static str>)
        ensures
            r@.len() == 1,
            r@[0]@ == "string"@,
    {
        let mut tags: Vec<&'static str> = Vec::new();
        tags.push("string");
        tags
    }

    pub fn resource_kind(&self) -> (r: ResourceKind)
        ensures
            r is String,
    {
        ResourceKind::String
    }

    /// The node for a parsed string declaration; other declarations have
    /// none.
    pub fn build_node(&self, parsed: &ParsedResource, origin: ResourceOrigin) -> (r: Option<
        ResourceNode,
    >)
        ensures
            match parsed@.value {
                ScalarView::Text(t) => r.is_some() && r.unwrap().kind is String && r.unwrap().value@
                    == ValueView::String(t) && r.unwrap().origin == origin && opt_text(
                    r.unwrap().doc,
                ) == parsed@.doc,
                _ => r.is_none(),
            },
    {
        match &parsed.value {
            crate::ast::ScalarValue::Text(value) => Some(
                ResourceNode {
                    kind: ResourceKind::String,
                    value: ResourceValue::String(value.clone()),
                    origin,
                    doc: clone_opt(&parsed.doc),
                },
            ),
            _ => None,
        }
    }

    /// The documented string constant for a string node; other nodes have
    /// none.
    pub fn emit_rust(&self, key: &ResourceKey, node: &ResourceNode, indent: usize) -> (r: Option<
        String,
    >)
        ensures
            opt_text(r) == match node.value@ {
                ValueView::String(v) => Some(
                    doc_comment(opt_text(node.doc), indent as nat) + string_constant(
                        spaces(indent as nat),
                        constant_name(key.name@),
                        v,
                    ),
                ),
                _ => None,
            },
    {
        match &node.value {
            ResourceValue::String(value) => {
                let p = pad(indent);
                let const_name = to_uppercase(sanitize_identifier(key.name.as_str()).as_str());
                let mut out = format_doc(&node.doc, indent);
                crate::emit::emit_string_constant(
                    &mut out,
                    p.as_str(),
                    const_name.as_str(),
                    value.as_str(),
                );
                Some(out)
            },
            _ => None,
        }
    }
}

impl ArrayType {
    pub fn name(&self) -> (r: &'static str)
        ensures
            r@ == "array"@,
    {
        "array"
    }

    pub fn xml_tags(&self) -> (r: Vec<&'static str>)
        ensures
            r@.len() == 1,
            r@[0]@ == "array"@,
    {
        let mut tags: Vec<&'static str> = Vec::new();
        tags.push("array");
        tags
    }

    /// The kind of arrays in general: the element kind is known only from
    /// a value.
    pub fn resource_kind(&self) -> (r: ResourceKind)
        ensures
            r matches ResourceKind::Array(e) && e@ == Seq::<char>::empty(),
    {
        ResourceKind::Array(String::new())
    }

    /// The node for a parsed array declaration; other declarations have
    /// none.
    pub fn build_node(&self, parsed: &ParsedResource, origin: ResourceOrigin) -> (r: Option<
        ResourceNode,
    >)
        ensures
            match parsed@.value {
                ScalarView::Array { element_type, spec, items } => r.is_some() && (
                r.unwrap().kind matches ResourceKind::Array(e) && e@ == element_type)
                    && r.unwrap().value@ == (ValueView::Array { element_type, spec, items })
                    && r.unwrap().origin == origin && opt_text(r.unwrap().doc) == parsed@.doc,
                _ => r.is_none(),
            },
    {
        match &parsed.value {
            crate::ast::ScalarValue::Array { element_type, spec, items } => Some(
                ResourceNode {
                    kind: ResourceKind::Array(element_type.clone()),
                    value: ResourceValue::Array {
                        element_type: element_type.clone(),
                        spec: clone_opt(spec),
                        items: clone_strings(items),
                    },
                    origin,
                    doc: clone_opt(&parsed.doc),
                },
            ),
            _ => None,
        }
    }

    /// The documented declaration for an array node. A node that is no
    /// array, or whose elements are of an unknown kind, has none. An item
    /// of a number array that is no number of its type is an error that
    /// names the item and the type.
    pub fn emit_rust(&self, key: &ResourceKey, node: &ResourceNode, indent: usize) -> (r: Result<
        Option<String>,
        String,
    >)
        ensures
            crate::arrays::array_result(r) == match node.value@ {
                ValueView::Array { element_type, spec, items } => array_text(
                    element_type,
                    spec,
                    items,
                    doc_comment(opt_text(node.doc), indent as nat),
                    spaces(indent as nat),
                    constant_name(key.name@),
                ),
                _ => Ok(None),
            },
    {
        match &node.value {
            ResourceValue::Array { element_type, spec, items } => {
                let p = pad(indent);
                let const_name = to_uppercase(sanitize_identifier(key.name.as_str()).as_str());
                let doc_str = format_doc(&node.doc, indent);
                emit_array(
                    element_type.as_str(),
                    spec,
                    items,
                    doc_str.as_str(),
                    p.as_str(),
                    const_name.as_str(),
                )
            },
            _ => Ok(None),
        }
    }
}

} // verus!
