//! What a closing tag does to the reader's state, and the declaration it
//! may complete.
use vstd::prelude::*;
use crate::ast::{
    clone_opt, clone_params, clone_strings, kind_of_tag, params_view, ParsedResource,
    ParsedResourceView, ResourceKind, ScalarValue, ScalarView,
};
use crate::reader::mid::opt_resource;
use crate::reader::state::{ParseState, StateView};
use crate::text::{texts, trim, trimmed};

verus! {

/// Leaving a namespace group: the innermost name leaves the stack.
pub open spec fn ns_end(s: StateView) -> StateView {
    StateView {
        namespace_stack: if s.namespace_stack.len() > 0 {
            s.namespace_stack.drop_last()
        } else {
            s.namespace_stack
        },
        ..s
    }
}

pub fn handle_ns_end(state: &mut ParseState)
    ensures
        final(state)@ == ns_end(old(state)@),
{
    if state.namespace_stack.len() > 0 {
        state.namespace_stack.pop();
        assert(texts(state.namespace_stack@) =~= texts(old(state).namespace_stack@).drop_last());
    }
}

/// Leaving a documentation block: its trimmed text, where it is not empty,
/// waits for the next declaration.
pub open spec fn doc_end(s: StateView) -> StateView {
    let doc = trimmed(s.doc_text);
    StateView {
        pending_doc: if doc.len() == 0 {
            None
        } else {
            Some(doc)
        },
        in_doc: false,
        doc_text: Seq::empty(),
        ..s
    }
}

pub fn handle_doc_end(state: &mut ParseState)
    ensures
        final(state)@ == doc_end(old(state)@),
{
    let doc = trim(state.doc_text.as_str());
    state.pending_doc = if doc.as_str().unicode_len() == 0 {
        None
    } else {
        Some(doc)
    };
    state.in_doc = false;
    state.doc_text = String::new();
}

/// Leaving an array. With a current name the array is produced, with the
/// element type given at its opening tag (`string` where none was given),
/// its subtype, its items and the pending documentation. Without a name
/// nothing is produced, and the documentation goes on waiting. Either way
/// the array state is reset, so that what follows is read as ordinary
/// declarations again.
pub open spec fn array_end(s: StateView) -> (StateView, Option<ParsedResourceView>) {
    match s.current_name {
        None => (
            StateView {
                in_array: false,
                array_type: None,
                array_spec: None,
                array_items: Seq::empty(),
                ..s
            },
            None,
        ),
        Some(name) => (
            StateView {
                in_array: false,
                array_type: None,
                array_spec: None,
                array_items: Seq::empty(),
                current_name: None,
                pending_doc: None,
                ..s
            },
            Some(
                ParsedResourceView {
                    name,
                    kind: ResourceKind::Array,
                    value: ScalarView::Array {
                        element_type: match s.array_type {
                            Some(t) => t,
                            None => "string"@,
                        },
                        spec: s.array_spec,
                        items: s.array_items,
                    },
                    doc: s.pending_doc,
                },
            ),
        ),
    }
}

pub fn handle_array_end(state: &mut ParseState) -> (r: Option<ParsedResource>)
    ensures
        (final(state)@, opt_resource(r)) == array_end(old(state)@),
{
    let name = match &state.current_name {
        Some(n) => n.clone(),
        None => {
            state.in_array = false;
            state.array_type = None;
            state.array_spec = None;
            state.array_items = Vec::new();
            assert(texts(state.array_items@) =~= Seq::empty());
            return None;
        },
    };
    let element_type = match &state.array_type {
        Some(t) => t.clone(),
        None => "string".to_string(),
    };
    let spec = clone_opt(&state.array_spec);
    let items = clone_strings(&state.array_items);
    state.in_array = false;
    state.array_type = None;
    state.array_spec = None;
    state.array_items = Vec::new();
    state.current_name = None;
    assert(texts(state.array_items@) =~= Seq::empty());
    let doc = clone_opt(&state.pending_doc);
    state.pending_doc = None;
    Some(
        ParsedResource {
            name,
            kind: ResourceKind::Array,
            value: ScalarValue::Array { element_type, spec, items },
            doc,
        },
    )
}

/// The name under which a template that ends is produced: the name given
/// at its opening tag, or else the current name.
pub open spec fn ending_template_name(s: StateView) -> Option<Seq<char>> {
    match s.template_name {
        Some(n) => Some(n),
        None => s.current_name,
    }
}

/// Leaving a template. Where it has a name, the template is produced with
/// its trimmed text, its parameters and the pending documentation. Without
/// a name nothing is produced, and the documentation goes on waiting.
/// Either way the template state is reset.
pub open spec fn template_end(s: StateView) -> (StateView, Option<ParsedResourceView>) {
    match ending_template_name(s) {
        None => (
            StateView {
                in_template: false,
                template_params: Seq::empty(),
                template_text: Seq::empty(),
                ..s
            },
            None,
        ),
        Some(name) => (
            StateView {
                in_template: false,
                template_params: Seq::empty(),
                template_text: Seq::empty(),
                template_name: None,
                current_name: None,
                pending_doc: None,
                ..s
            },
            Some(
                ParsedResourceView {
                    name,
                    kind: ResourceKind::Template,
                    value: ScalarView::Template {
                        text: trimmed(s.template_text),
                        params: s.template_params,
                    },
                    doc: s.pending_doc,
                },
            ),
        ),
    }
}

pub fn handle_template_end(state: &mut ParseState) -> (r: Option<ParsedResource>)
    ensures
        (final(state)@, opt_resource(r)) == template_end(old(state)@),
{
    let given = match &state.template_name {
        Some(n) => Some(n.clone()),
        None => clone_opt(&state.current_name),
    };
    let name = match given {
        Some(n) => n,
        None => {
            state.in_template = false;
            state.template_params = Vec::new();
            state.template_text = String::new();
            assert(params_view(state.template_params@) =~= Seq::empty());
            return None;
        },
    };
    let text = trim(state.template_text.as_str());
    let params = clone_params(&state.template_params);
    let doc = clone_opt(&state.pending_doc);
    state.pending_doc = None;
    state.in_template = false;
    state.template_params = Vec::new();
    state.template_text = String::new();
    state.template_name = None;
    state.current_name = None;
    assert(params_view(state.template_params@) =~= Seq::empty());
    Some(
        ParsedResource {
            name,
            kind: ResourceKind::Template,
            value: ScalarValue::Template { text, params },
            doc,
        },
    )
}

/// Whether a declaration of this kind holds its value as plain text
/// between its tags.
pub open spec fn is_scalar_kind(kind: ResourceKind) -> bool {
    is_param_kind(kind) || kind == ResourceKind::Url || kind == ResourceKind::Dimension
}

/// Whether a declaration of this kind can be a template parameter.
pub open spec fn is_param_kind(kind: ResourceKind) -> bool {
    kind == ResourceKind::String || kind == ResourceKind::Number || kind == ResourceKind::Bool
        || kind == ResourceKind::Color
}

/// The closing tag of a parameter inside a template: no declaration is
/// being read any more.
pub open spec fn template_param_end(s: StateView, kind: ResourceKind) -> (StateView, bool) {
    if s.in_template && is_param_kind(kind) {
        (StateView { current_name: None, ..s }, true)
    } else {
        (s, false)
    }
}

pub fn handle_template_param_end(state: &mut ParseState, kind: &ResourceKind) -> (handled: bool)
    ensures
        (final(state)@, handled) == template_param_end(old(state)@, *kind),
{
    if !state.in_template {
        return false;
    }
    if *kind == ResourceKind::String || *kind == ResourceKind::Number || *kind
        == ResourceKind::Bool || *kind == ResourceKind::Color {
        state.current_name = None;
        return true;
    }
    false
}

/// The closing tag of an item: text is no longer attributed to any tag.
pub open spec fn item_end(s: StateView) -> StateView {
    StateView { current_tag: Seq::empty(), ..s }
}

pub fn handle_item_end(state: &mut ParseState)
    ensures
        final(state)@ == item_end(old(state)@),
{
    state.current_tag = String::new();
}

/// The closing tag of an ordinary declaration: name and number type are
/// forgotten as far as the kind had set them, and text is no longer
/// attributed to any tag.
pub open spec fn normal_end(s: StateView, kind: ResourceKind) -> StateView {
    StateView {
        current_name: if is_scalar_kind(kind) || kind == ResourceKind::Template || kind
            == ResourceKind::Array {
            None
        } else {
            s.current_name
        },
        current_number_type: if kind == ResourceKind::Number {
            None
        } else {
            s.current_number_type
        },
        current_tag: Seq::empty(),
        ..s
    }
}

pub fn handle_normal_resource_end(state: &mut ParseState, kind: &ResourceKind)
    ensures
        final(state)@ == normal_end(old(state)@, *kind),
{
    if *kind == ResourceKind::String || *kind == ResourceKind::Number || *kind
        == ResourceKind::Bool || *kind == ResourceKind::Color || *kind == ResourceKind::Url
        || *kind == ResourceKind::Dimension || *kind == ResourceKind::Template || *kind
        == ResourceKind::Array {
        state.current_name = None;
    }
    if *kind == ResourceKind::Number {
        state.current_number_type = None;
    }
    state.current_tag = String::new();
}

/// What a closing tag does to the state, and the declaration it may
/// complete: only an array or a template is completed by its closing tag.
pub open spec fn end_step(s: StateView, tag: Seq<char>) -> (StateView, Option<ParsedResourceView>) {
    let kind = kind_of_tag(tag);
    match kind {
        ResourceKind::Namespace => (ns_end(s), None),
        ResourceKind::Array => array_end(s),
        ResourceKind::Template => template_end(s),
        ResourceKind::Item => (item_end(s), None),
        ResourceKind::Doc => (doc_end(s), None),
        _ => {
            let (s1, handled) = template_param_end(s, kind);
            if handled {
                (s1, None)
            } else {
                (normal_end(s, kind), None)
            }
        },
    }
}

pub fn handle_end(state: &mut ParseState, tag: &str) -> (r: Option<ParsedResource>)
    ensures
        (final(state)@, opt_resource(r)) == end_step(old(state)@, tag@),
{
    let kind = ResourceKind::from_str(tag);
    match kind {
        ResourceKind::Namespace => {
            handle_ns_end(state);
            return None;
        },
        ResourceKind::Array => {
            return handle_array_end(state);
        },
        ResourceKind::Template => {
            return handle_template_end(state);
        },
        ResourceKind::Item => {
            handle_item_end(state);
            return None;
        },
        ResourceKind::Doc => {
            handle_doc_end(state);
            return None;
        },
        _ => {},
    }
    if state.in_template {
        if handle_template_param_end(state, &kind) {
            return None;
        }
    }
    handle_normal_resource_end(state, &kind);
    None
}

} // verus!
