//! What character data does to the reader's state, and the declaration it
//! may complete.
use vstd::prelude::*;
use crate::ast::{
    clone_opt, kind_of_tag, ParsedResource, ParsedResourceView, ResourceKind, ScalarValue,
    ScalarView,
};
use crate::reader::state::{ParseState, StateView};
use crate::text::{push_char, str_eq, texts, trim, trimmed};
use crate::utils::opt_text;

verus! {

/// The view of an optional declaration.
pub open spec fn opt_resource(r: Option<ParsedResource>) -> Option<ParsedResourceView> {
    match r {
        Some(p) => Some(p@),
        None => None,
    }
}

/// Text inside a documentation block: the trimmed text, where it is not
/// empty, is appended to the block's text after a separating space.
pub open spec fn doc_text_step(s: StateView, text: Seq<char>, kind: ResourceKind) -> StateView {
    let t = trimmed(text);
    if kind == ResourceKind::Doc && t.len() > 0 {
        StateView {
            doc_text: if s.doc_text.len() > 0 {
                s.doc_text.push(' ') + t
            } else {
                s.doc_text + t
            },
            ..s
        }
    } else {
        s
    }
}

pub fn handle_doc_text(state: &mut ParseState, text: &str, kind: ResourceKind) -> (r: Option<
    ParsedResource,
>)
    ensures
        r.is_none(),
        final(state)@ == doc_text_step(old(state)@, text@, kind),
{
    if kind == ResourceKind::Doc {
        let t = trim(text);
        if t.as_str().unicode_len() > 0 {
            if state.doc_text.as_str().unicode_len() > 0 {
                push_char(&mut state.doc_text, ' ');
            }
            state.doc_text.append(t.as_str());
        }
    }
    None
}

/// Text inside an array: the trimmed text of an item, where it is not
/// empty, is appended to the items.
pub open spec fn array_item_step(s: StateView, text: Seq<char>, kind: ResourceKind) -> StateView {
    let t = trimmed(text);
    if kind == ResourceKind::Item && t.len() > 0 {
        StateView { array_items: s.array_items.push(t), ..s }
    } else {
        s
    }
}

pub fn handle_array_item(state: &mut ParseState, text: &str, kind: ResourceKind) -> (r: Option<
    ParsedResource,
>)
    ensures
        r.is_none(),
        final(state)@ == array_item_step(old(state)@, text@, kind),
{
    if kind == ResourceKind::Item {
        let t = trim(text);
        if t.as_str().unicode_len() > 0 {
            state.array_items.push(t);
            assert(texts(state.array_items@) =~= texts(old(state).array_items@).push(t@));
        }
    }
    None
}

/// Text inside a template: the trimmed text, where it is not empty, and a
/// space are appended to the template's text.
pub open spec fn template_text_step(s: StateView, text: Seq<char>, kind: ResourceKind)
    -> StateView {
    let t = trimmed(text);
    if kind == ResourceKind::Template && t.len() > 0 {
        StateView { template_text: (s.template_text + t).push(' '), ..s }
    } else {
        s
    }
}

pub fn handle_template_text(state: &mut ParseState, text: &str, kind: ResourceKind) -> (r: Option<
    ParsedResource,
>)
    ensures
        r.is_none(),
        final(state)@ == template_text_step(old(state)@, text@, kind),
{
    if kind == ResourceKind::Template {
        let t = trim(text);
        if t.as_str().unicode_len() > 0 {
            state.template_text.append(t.as_str());
            push_char(&mut state.template_text, ' ');
        }
    }
    None
}

/// The boolean that a text denotes: exactly `true` or `false`.
pub open spec fn bool_of(t: Seq<char>) -> Option<bool> {
    if t == "true"@ {
        Some(true)
    } else if t == "false"@ {
        Some(false)
    } else {
        None
    }
}

pub fn handle_string(name: &str, value: String, doc: Option<String>) -> (r: Option<ParsedResource>)
    ensures
        opt_resource(r) == Some(
            ParsedResourceView {
                name: name@,
                kind: ResourceKind::String,
                value: ScalarView::Text(value@),
                doc: opt_text(doc),
            },
        ),
{
    Some(
        ParsedResource {
            name: name.to_string(),
            kind: ResourceKind::String,
            value: ScalarValue::Text(value),
            doc,
        },
    )
}

pub fn handle_number(
    name: &str,
    value: String,
    explicit_type: &Option<String>,
    doc: Option<String>,
) -> (r: Option<ParsedResource>)
    ensures
        opt_resource(r) == Some(
            ParsedResourceView {
                name: name@,
                kind: ResourceKind::Number,
                value: ScalarView::Number { value: value@, explicit_type: opt_text(*explicit_type) },
                doc: opt_text(doc),
            },
        ),
{
    Some(
        ParsedResource {
            name: name.to_string(),
            kind: ResourceKind::Number,
            value: ScalarValue::Number { value, explicit_type: clone_opt(explicit_type) },
            doc,
        },
    )
}

pub fn handle_bool(name: &str, value: String, doc: Option<String>) -> (r: Option<ParsedResource>)
    ensures
        opt_resource(r) == match bool_of(value@) {
            Some(b) => Some(
                ParsedResourceView {
                    name: name@,
                    kind: ResourceKind::Bool,
                    value: ScalarView::Bool(b),
                    doc: opt_text(doc),
                },
            ),
            None => None,
        },
{
    let b = if str_eq(value.as_str(), "true") {
        true
    } else if str_eq(value.as_str(), "false") {
        false
    } else {
        return None;
    };
    Some(
        ParsedResource {
            name: name.to_string(),
            kind: ResourceKind::Bool,
            value: ScalarValue::Bool(b),
            doc,
        },
    )
}

pub fn handle_color(name: &str, value: String, doc: Option<String>) -> (r: Option<ParsedResource>)
    ensures
        opt_resource(r) == Some(
            ParsedResourceView {
                name: name@,
                kind: ResourceKind::Color,
                value: ScalarView::Color(value@),
                doc: opt_text(doc),
            },
        ),
{
    Some(
        ParsedResource {
            name: name.to_string(),
            kind: ResourceKind::Color,
            value: ScalarValue::Color(value),
            doc,
        },
    )
}

/// Text of an ordinary declaration. Without a current name, or with only
/// whitespace, nothing happens. For a string, number, boolean, color, URL
/// or dimension the trimmed text is the value, and the name is given up,
/// so that only the first text inside a tag counts. The declaration that
/// is produced takes the pending documentation with it; where none is
/// produced (text that is no boolean, or a tag of another kind), the
/// documentation goes on waiting for the next one.
pub open spec fn normal_step(s: StateView, text: Seq<char>, kind: ResourceKind) -> (
    StateView,
    Option<ParsedResourceView>,
) {
    let t = trimmed(text);
    match s.current_name {
        None => (s, None),
        Some(name) => if t.len() == 0 {
            (s, None)
        } else {
            let doc = s.pending_doc;
            let dropped = StateView { current_name: None, ..s };
            let done = StateView { current_name: None, pending_doc: None, ..s };
            match kind {
                ResourceKind::String => (
                    done,
                    Some(ParsedResourceView { name, kind, value: ScalarView::Text(t), doc }),
                ),
                ResourceKind::Number => (
                    done,
                    Some(
                        ParsedResourceView {
                            name,
                            kind,
                            value: ScalarView::Number {
                                value: t,
                                explicit_type: s.current_number_type,
                            },
                            doc,
                        },
                    ),
                ),
                ResourceKind::Bool => match bool_of(t) {
                    Some(b) => (
                        done,
                        Some(ParsedResourceView { name, kind, value: ScalarView::Bool(b), doc }),
                    ),
                    None => (dropped, None),
                },
                ResourceKind::Color => (
                    done,
                    Some(ParsedResourceView { name, kind, value: ScalarView::Color(t), doc }),
                ),
                ResourceKind::Url => (
                    done,
                    Some(ParsedResourceView { name, kind, value: ScalarView::Text(t), doc }),
                ),
                ResourceKind::Dimension => (
                    done,
                    Some(ParsedResourceView { name, kind, value: ScalarView::Text(t), doc }),
                ),
                ResourceKind::Template => (
                    StateView { template_text: (s.template_text + t).push(' '), ..s },
                    None,
                ),
                _ => (s, None),
            }
        },
    }
}

pub fn handle_normal_resource(state: &mut ParseState, text: &str, kind: ResourceKind) -> (r:
    Option<ParsedResource>)
    ensures
        (final(state)@, opt_resource(r)) == normal_step(old(state)@, text@, kind),
{
    let name = match &state.current_name {
        Some(n) => n.clone(),
        None => {
            return None;
        },
    };
    let t = trim(text);
    if t.as_str().unicode_len() == 0 {
        return None;
    }
    let doc = clone_opt(&state.pending_doc);
    let produced_now = match kind {
        ResourceKind::String => handle_string(name.as_str(), t, doc),
        ResourceKind::Number => handle_number(name.as_str(), t, &state.current_number_type, doc),
        ResourceKind::Bool => handle_bool(name.as_str(), t, doc),
        ResourceKind::Color => handle_color(name.as_str(), t, doc),
        ResourceKind::Url => Some(ParsedResource { name, kind, value: ScalarValue::Text(t), doc }),
        ResourceKind::Dimension => Some(
            ParsedResource { name, kind, value: ScalarValue::Text(t), doc },
        ),
        ResourceKind::Template => {
            state.template_text.append(t.as_str());
            push_char(&mut state.template_text, ' ');
            return None;
        },
        _ => {
            return None;
        },
    };
    state.current_name = None;
    if produced_now.is_some() {
        state.pending_doc = None;
    }
    produced_now
}

/// What character data does to the state, and the declaration it may
/// complete: inside a documentation block, an array or a template the text
/// is gathered; elsewhere it is the value of the declaration being read.
pub open spec fn mid_step(s: StateView, text: Seq<char>) -> (StateView, Option<ParsedResourceView>) {
    let kind = kind_of_tag(s.current_tag);
    if s.in_doc {
        (doc_text_step(s, text, kind), None)
    } else if s.in_array {
        (array_item_step(s, text, kind), None)
    } else if s.in_template {
        (template_text_step(s, text, kind), None)
    } else {
        normal_step(s, text, kind)
    }
}

pub fn handle_mid(state: &mut ParseState, text: &str) -> (r: Option<ParsedResource>)
    ensures
        (final(state)@, opt_resource(r)) == mid_step(old(state)@, text@),
{
    let kind = ResourceKind::from_str(state.current_tag.as_str());
    if state.in_doc {
        return handle_doc_text(state, text, kind);
    }
    if state.in_array {
        return handle_array_item(state, text, kind);
    }
    if state.in_template {
        return handle_template_text(state, text, kind);
    }
    handle_normal_resource(state, text, kind)
}

} // verus!
