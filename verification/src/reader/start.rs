//! What an opening or self-closing tag does to the reader's state.
use vstd::prelude::*;
use crate::ast::{
    clone_opt, kind_of_tag, params_view, ParamView, ResourceKind, ScalarValue, ScalarView,
    TemplateParam,
};
use crate::reader::state::{ParseState, StateView};
use crate::reader::xml::attrs_view;
use crate::text::{join, join_strings, str_eq, texts};
use crate::utils::opt_text;

verus! {

/// The value of the first attribute with the given key.
pub open spec fn attr_of(attrs: Seq<(Seq<char>, Seq<char>)>, key: Seq<char>) -> Option<Seq<char>>
    decreases attrs.len(),
{
    if attrs.len() == 0 {
        None
    } else if attrs[0].0 == key {
        Some(attrs[0].1)
    } else {
        attr_of(attrs.skip(1), key)
    }
}

/// Looks up the first attribute with the given key.
pub fn attr_value(attrs: &Vec<(String, String)>, key: &str) -> (r: Option<String>)
    ensures
        opt_text(r) == attr_of(attrs_view(attrs@), key@),
{
    let mut i: usize = 0;
    assert(attrs_view(attrs@).skip(0) =~= attrs_view(attrs@));
    while i < attrs.len()
        invariant
            i <= attrs@.len(),
            attr_of(attrs_view(attrs@), key@) == attr_of(attrs_view(attrs@).skip(i as int), key@),
        decreases attrs@.len() - i,
    {
        let ghost rest = attrs_view(attrs@).skip(i as int);
        assert(rest[0] == attrs_view(attrs@)[i as int]);
        assert(rest.skip(1) =~= attrs_view(attrs@).skip(i + 1));
        if str_eq(attrs[i].0.as_str(), key) {
            return Some(attrs[i].1.clone());
        }
        i = i + 1;
    }
    None
}

/// A declaration's name, prefixed by the enclosing namespaces: the stack
/// joined with `/`, one more `/`, and the name. No name gives none.
pub open spec fn qualified_name(stack: Seq<Seq<char>>, name: Option<Seq<char>>) -> Option<
    Seq<char>,
> {
    match name {
        None => None,
        Some(n) => if stack.len() == 0 {
            Some(n)
        } else {
            Some(join(stack, "/"@) + "/"@ + n)
        },
    }
}

/// The qualified name of the declaration whose tag has these attributes.
pub fn build_resource_name(state: &ParseState, attrs: &Vec<(String, String)>) -> (r: Option<
    String,
>)
    ensures
        opt_text(r) == qualified_name(state@.namespace_stack, attr_of(attrs_view(attrs@), "name"@)),
{
    match attr_value(attrs, "name") {
        None => None,
        Some(name_attr) => {
            if state.namespace_stack.len() == 0 {
                Some(name_attr)
            } else {
                let mut path = join_strings(&state.namespace_stack, "/");
                path.append("/");
                path.append(name_attr.as_str());
                Some(path)
            }
        },
    }
}

/// Entering a namespace group: its name goes on the stack, and no
/// declaration is being read.
pub open spec fn ns_start(s: StateView, attrs: Seq<(Seq<char>, Seq<char>)>) -> StateView {
    StateView {
        namespace_stack: match attr_of(attrs, "name"@) {
            Some(n) => s.namespace_stack.push(n),
            None => s.namespace_stack,
        },
        current_name: None,
        ..s
    }
}

pub fn handle_ns(state: &mut ParseState, attrs: &Vec<(String, String)>)
    ensures
        final(state)@ == ns_start(old(state)@, attrs_view(attrs@)),
{
    match attr_value(attrs, "name") {
        Some(ns_name) => {
            state.namespace_stack.push(ns_name);
            assert(texts(state.namespace_stack@) =~= texts(old(state).namespace_stack@).push(
                ns_name@,
            ));
        },
        None => {},
    }
    state.current_name = None;
}

/// Entering a template: its parameters and text start empty.
pub open spec fn template_start(s: StateView) -> StateView {
    StateView {
        in_template: true,
        template_params: Seq::empty(),
        template_text: Seq::empty(),
        ..s
    }
}

pub fn handle_template(state: &mut ParseState)
    ensures
        final(state)@ == template_start(old(state)@),
{
    state.in_template = true;
    state.template_params = Vec::new();
    state.template_text = String::new();
    assert(params_view(state.template_params@) =~= Seq::empty());
}

/// Entering an array: element type and subtype are taken from the tag, the
/// items start empty, and the array's qualified name is being read.
pub open spec fn array_start(s: StateView, attrs: Seq<(Seq<char>, Seq<char>)>) -> StateView {
    StateView {
        in_array: true,
        array_type: attr_of(attrs, "type"@),
        array_spec: attr_of(attrs, "spec"@),
        array_items: Seq::empty(),
        current_name: qualified_name(s.namespace_stack, attr_of(attrs, "name"@)),
        ..s
    }
}

pub fn handle_array(state: &mut ParseState, attrs: &Vec<(String, String)>)
    ensures
        final(state)@ == array_start(old(state)@, attrs_view(attrs@)),
{
    state.in_array = true;
    state.array_type = attr_value(attrs, "type");
    state.array_spec = attr_value(attrs, "spec");
    state.array_items = Vec::new();
    assert(texts(state.array_items@) =~= Seq::empty());
    let param_name = build_resource_name(state, attrs);
    state.current_name = param_name;
}

/// Entering a documentation block: its text starts empty.
pub open spec fn doc_start(s: StateView) -> StateView {
    StateView { in_doc: true, doc_text: Seq::empty(), ..s }
}

pub fn handle_doc(state: &mut ParseState)
    ensures
        final(state)@ == doc_start(old(state)@),
{
    state.in_doc = true;
    state.doc_text = String::new();
}

/// The placeholder value that records a template parameter of the given
/// kind; only strings, numbers, booleans and colors can be parameters.
pub open spec fn param_value(kind: ResourceKind, number_type: Option<Seq<char>>) -> Option<
    ScalarView,
> {
    match kind {
        ResourceKind::String => Some(ScalarView::Text(Seq::empty())),
        ResourceKind::Number => Some(
            ScalarView::Number { value: Seq::empty(), explicit_type: number_type },
        ),
        ResourceKind::Bool => Some(ScalarView::Bool(false)),
        ResourceKind::Color => Some(ScalarView::Color(Seq::empty())),
        _ => None,
    }
}

/// A typed declaration inside a template: where it has a name and a kind
/// that can be a parameter, it is appended to the parameters and text goes
/// on being attributed to the template.
pub open spec fn template_param_step(
    s: StateView,
    kind: ResourceKind,
    param_name: Option<Seq<char>>,
    number_type: Option<Seq<char>>,
) -> (StateView, bool) {
    match (param_name, param_value(kind, number_type)) {
        (Some(n), Some(v)) => (
            StateView {
                template_params: s.template_params.push(ParamView { name: n, value: v }),
                current_tag: "template"@,
                ..s
            },
            true,
        ),
        _ => (s, false),
    }
}

pub fn handle_template_param(
    state: &mut ParseState,
    kind: ResourceKind,
    param_name: &Option<String>,
    number_type: &Option<String>,
) -> (handled: bool)
    ensures
        (final(state)@, handled) == template_param_step(
            old(state)@,
            kind,
            opt_text(*param_name),
            opt_text(*number_type),
        ),
{
    let name = match param_name {
        Some(n) => n,
        None => {
            return false;
        },
    };
    let value = match kind {
        ResourceKind::String => ScalarValue::Text(String::new()),
        ResourceKind::Number => ScalarValue::Number {
            value: String::new(),
            explicit_type: clone_opt(number_type),
        },
        ResourceKind::Bool => ScalarValue::Bool(false),
        ResourceKind::Color => ScalarValue::Color(String::new()),
        _ => {
            return false;
        },
    };
    let param = TemplateParam { name: name.clone(), value };
    state.template_params.push(param);
    assert(params_view(state.template_params@) =~= params_view(old(state).template_params@).push(
        param@,
    ));
    state.current_tag = "template".to_string();
    true
}

/// What an opening or self-closing tag does to the state.
///
/// The tag becomes the current tag. A namespace, array, item or
/// documentation tag is handled by its own rule. Any other tag names a
/// declaration: inside a template it is recorded as a parameter, under its
/// own name, where it can be one; otherwise its qualified name, and for a
/// number its `type` attribute, are remembered for the text to come. The
/// name of a template is remembered until the template ends, whatever is
/// declared inside it.
pub open spec fn start_step(s: StateView, tag: Seq<char>, attrs: Seq<(Seq<char>, Seq<char>)>)
    -> StateView {
    let s1 = StateView { current_tag: tag, ..s };
    let kind = kind_of_tag(tag);
    match kind {
        ResourceKind::Namespace => ns_start(s1, attrs),
        ResourceKind::Array => array_start(s1, attrs),
        ResourceKind::Item => s1,
        ResourceKind::Doc => doc_start(s1),
        _ => {
            let s2 = if kind == ResourceKind::Template {
                template_start(s1)
            } else {
                s1
            };
            let number_type = if kind == ResourceKind::Number {
                attr_of(attrs, "type"@)
            } else {
                None
            };
            let name = qualified_name(s2.namespace_stack, attr_of(attrs, "name"@));
            let (s3, handled) = if s2.in_template && kind != ResourceKind::Template {
                template_param_step(s2, kind, attr_of(attrs, "name"@), number_type)
            } else {
                (s2, false)
            };
            if handled {
                s3
            } else if kind == ResourceKind::Template {
                StateView {
                    current_number_type: number_type,
                    current_name: name,
                    template_name: name,
                    ..s2
                }
            } else {
                StateView { current_number_type: number_type, current_name: name, ..s2 }
            }
        },
    }
}

pub fn handle_start(state: &mut ParseState, tag: &str, attrs: &Vec<(String, String)>)
    ensures
        final(state)@ == start_step(old(state)@, tag@, attrs_view(attrs@)),
{
    state.current_tag = tag.to_string();
    let kind = ResourceKind::from_str(tag);
    match kind {
        ResourceKind::Namespace => {
            handle_ns(state, attrs);
            return ;
        },
        ResourceKind::Template => {
            handle_template(state);
        },
        ResourceKind::Array => {
            handle_array(state, attrs);
            return ;
        },
        ResourceKind::Item => {
            return ;
        },
        ResourceKind::Doc => {
            handle_doc(state);
            return ;
        },
        _ => {},
    }
    let number_type = if kind == ResourceKind::Number {
        attr_value(attrs, "type")
    } else {
        None
    };
    if state.in_template && kind != ResourceKind::Template {
        let param_name = attr_value(attrs, "name");
        if handle_template_param(state, kind, &param_name, &number_type) {
            return ;
        }
    }
    state.current_number_type = number_type;
    state.current_name = build_resource_name(state, attrs);
    if kind == ResourceKind::Template {
        state.template_name = clone_opt(&state.current_name);
    }
}

} // verus!
