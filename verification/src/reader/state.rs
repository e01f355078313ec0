//! The state that the reader carries from one markup event to the next.
use vstd::prelude::*;
use crate::ast::{params_view, ParamView, TemplateParam};
use crate::text::texts;
use crate::utils::opt_text;

verus! {

/// The reader's state between two events.
#[derive(Debug)]
pub struct ParseState {
    /// The tag that text is currently attributed to.
    pub current_tag: String,
    /// The qualified name of the declaration being read.
    pub current_name: Option<String>,
    /// The names of the enclosing `<ns>` groups, outermost first.
    pub namespace_stack: Vec<String>,
    /// The `type` attribute of the number being read.
    pub current_number_type: Option<String>,
    /// The parameters of the template being read, in order.
    pub template_params: Vec<TemplateParam>,
    /// The text of the template being read.
    pub template_text: String,
    /// The qualified name of the template being read.
    pub template_name: Option<String>,
    pub in_template: bool,
    pub in_array: bool,
    /// The `type` attribute of the array being read.
    pub array_type: Option<String>,
    /// The `spec` attribute of the array being read.
    pub array_spec: Option<String>,
    /// The items of the array being read, in order.
    pub array_items: Vec<String>,
    /// Documentation waiting for the next declaration.
    pub pending_doc: Option<String>,
    pub in_doc: bool,
    /// The text of the documentation block being read.
    pub doc_text: String,
}

/// The mathematical value of a `ParseState`.
pub struct StateView {
    pub current_tag: Seq<char>,
    pub current_name: Option<Seq<char>>,
    pub namespace_stack: Seq<Seq<char>>,
    pub current_number_type: Option<Seq<char>>,
    pub template_params: Seq<ParamView>,
    pub template_text: Seq<char>,
    pub template_name: Option<Seq<char>>,
    pub in_template: bool,
    pub in_array: bool,
    pub array_type: Option<Seq<char>>,
    pub array_spec: Option<Seq<char>>,
    pub array_items: Seq<Seq<char>>,
    pub pending_doc: Option<Seq<char>>,
    pub in_doc: bool,
    pub doc_text: Seq<char>,
}

impl View for ParseState {
    type V = StateView;

    open spec fn view(&self) -> StateView {
        StateView {
            current_tag: self.current_tag@,
            current_name: opt_text(self.current_name),
            namespace_stack: texts(self.namespace_stack@),
            current_number_type: opt_text(self.current_number_type),
            template_params: params_view(self.template_params@),
            template_text: self.template_text@,
            template_name: opt_text(self.template_name),
            in_template: self.in_template,
            in_array: self.in_array,
            array_type: opt_text(self.array_type),
            array_spec: opt_text(self.array_spec),
            array_items: texts(self.array_items@),
            pending_doc: opt_text(self.pending_doc),
            in_doc: self.in_doc,
            doc_text: self.doc_text@,
        }
    }
}

/// The state before the first event: nothing open, nothing pending.
pub open spec fn initial_state() -> StateView {
    StateView {
        current_tag: Seq::empty(),
        current_name: None,
        namespace_stack: Seq::empty(),
        current_number_type: None,
        template_params: Seq::empty(),
        template_text: Seq::empty(),
        template_name: None,
        in_template: false,
        in_array: false,
        array_type: None,
        array_spec: None,
        array_items: Seq::empty(),
        pending_doc: None,
        in_doc: false,
        doc_text: Seq::empty(),
    }
}

impl Default for ParseState {
    fn default() -> (s: Self)
        ensures
            s@ == initial_state(),
    {
        let s = ParseState {
            current_tag: String::new(),
            current_name: None,
            namespace_stack: Vec::new(),
            current_number_type: None,
            template_params: Vec::new(),
            template_text: String::new(),
            template_name: None,
            in_template: false,
            in_array: false,
            array_type: None,
            array_spec: None,
            array_items: Vec::new(),
            pending_doc: None,
            in_doc: false,
            doc_text: String::new(),
        };
        assert(s@.namespace_stack =~= Seq::empty());
        assert(s@.template_params =~= Seq::empty());
        assert(s@.array_items =~= Seq::empty());
        s
    }
}

} // verus!
