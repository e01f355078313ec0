//! From parsed declarations to the resource table: every declaration is
//! filed under its canonical kind with the value that its text denotes.
use vstd::prelude::*;
use crate::ast::{
    clone_opt, clone_strings, params_view, resources_view, ParamView, ParsedResource,
    ParsedResourceView, ResourceKind, ScalarValue, ScalarView, TemplateParam,
};
use crate::numbers::{number_type_of, number_value, parse_number_value};
use crate::reader::{parse_events, parsed};
use crate::reader::xml::{document_events, read_events};
use crate::table::{pushed, GroupView, ResourceTable};
use crate::text::{
    ascii_lower, nat_text, push_nat, str_eq, texts, to_ascii_lowercase, trim, trimmed,
};
use crate::types::{
    is_pure_reference, parameters_view, pure_reference, string_value, NumberType, ParameterView,
    ResourceValue, Template, TemplateParameter, TemplateParameterType, TemplateView, ValueView,
};

verus! {

/// Files a string declaration: a plain string, a reference or an
/// interpolation, as its text says.
pub fn handle_string(text: &str, current_name: &str, resources: &mut ResourceTable)
    ensures
        final(resources)@ == pushed(old(resources)@, "string"@, current_name@, string_value(text@)),
{
    let value = ResourceValue::parse_string_value(text);
    resources.push("string", current_name.to_string(), value);
}

/// The value of a number declaration: an alias where the text is wholly a
/// reference, the classified literal otherwise.
pub open spec fn number_entry(text: Seq<char>, explicit_type: Option<Seq<char>>) -> Result<
    ValueView,
    Seq<char>,
> {
    match pure_reference(text) {
        Some((t, k)) => Ok(ValueView::Reference { resource_type: t, key: k }),
        None => match number_value(text, explicit_type) {
            Ok(n) => Ok(ValueView::Number(n)),
            Err(m) => Err(m),
        },
    }
}

/// Files a number declaration. A literal that cannot be classified is an
/// error that names it, and leaves the table as it was.
pub fn handle_number(
    text: &str,
    current_name: &str,
    explicit_type: Option<&str>,
    resources: &mut ResourceTable,
) -> (r: Result<(), String>)
    ensures
        match number_entry(
            text@,
            match explicit_type {
                Some(h) => Some(h@),
                None => None,
            },
        ) {
            Ok(v) => r.is_ok() && final(resources)@ == pushed(
                old(resources)@,
                "number"@,
                current_name@,
                v,
            ),
            Err(m) => r.is_err() && r.unwrap_err()@ == m && final(resources)@ == old(resources)@,
        },
{
    match is_pure_reference(text) {
        Some((resource_type, key)) => {
            resources.push(
                "number",
                current_name.to_string(),
                ResourceValue::Reference { resource_type, key },
            );
            return Ok(());
        },
        None => {},
    }
    match parse_number_value(text, explicit_type) {
        Ok(number) => {
            resources.push("number", current_name.to_string(), ResourceValue::Number(number));
            Ok(())
        },
        Err(m) => Err(m),
    }
}

/// Files a boolean declaration; text that is neither `true` nor `false` is
/// passed over.
pub fn handle_bool(text: &str, current_name: &str, resources: &mut ResourceTable)
    ensures
        final(resources)@ == match crate::reader::mid::bool_of(text@) {
            Some(b) => pushed(old(resources)@, "bool"@, current_name@, ValueView::Bool(b)),
            None => old(resources)@,
        },
{
    if str_eq(text, "true") {
        resources.push("bool", current_name.to_string(), ResourceValue::Bool(true));
    } else if str_eq(text, "false") {
        resources.push("bool", current_name.to_string(), ResourceValue::Bool(false));
    }
}

/// The value of a color declaration: an alias where the text is wholly a
/// reference, the color as written otherwise.
pub open spec fn color_entry(text: Seq<char>) -> ValueView {
    match pure_reference(text) {
        Some((t, k)) => ValueView::Reference { resource_type: t, key: k },
        None => ValueView::Color(text),
    }
}

/// Files a color declaration.
pub fn handle_color(text: &str, current_name: &str, resources: &mut ResourceTable)
    ensures
        final(resources)@ == pushed(old(resources)@, "color"@, current_name@, color_entry(text@)),
{
    let value = match is_pure_reference(text) {
        Some((resource_type, key)) => ResourceValue::Reference { resource_type, key },
        None => ResourceValue::Color(text.to_string()),
    };
    resources.push("color", current_name.to_string(), value);
}

/// The value of a URL declaration: an alias where the text is wholly a
/// reference, the URL as written otherwise.
pub open spec fn url_entry(text: Seq<char>) -> ValueView {
    match pure_reference(text) {
        Some((t, k)) => ValueView::Reference { resource_type: t, key: k },
        None => ValueView::Url(text),
    }
}

/// Files a URL declaration.
pub fn handle_url(text: &str, current_name: &str, resources: &mut ResourceTable)
    ensures
        final(resources)@ == pushed(old(resources)@, "url"@, current_name@, url_entry(text@)),
{
    let value = match is_pure_reference(text) {
        Some((resource_type, key)) => ResourceValue::Reference { resource_type, key },
        None => ResourceValue::Url(text.to_string()),
    };
    resources.push("url", current_name.to_string(), value);
}

/// The value of a dimension declaration: an alias where the text is wholly
/// a reference, the dimension as written otherwise.
pub open spec fn dimension_entry(text: Seq<char>) -> ValueView {
    match pure_reference(text) {
        Some((t, k)) => ValueView::Reference { resource_type: t, key: k },
        None => ValueView::Dimension(text),
    }
}

/// Files a dimension declaration.
pub fn handle_dimension(text: &str, current_name: &str, resources: &mut ResourceTable)
    ensures
        final(resources)@ == pushed(
            old(resources)@,
            "dimension"@,
            current_name@,
            dimension_entry(text@),
        ),
{
    let value = match is_pure_reference(text) {
        Some((resource_type, key)) => ResourceValue::Reference { resource_type, key },
        None => ResourceValue::Dimension(text.to_string()),
    };
    resources.push("dimension", current_name.to_string(), value);
}

/// The items that are integers of 64 signed bits among the first `n`, each
/// in decimal notation.
pub open spec fn kept_integers(items: Seq<Seq<char>>, n: int) -> Seq<Seq<char>>
    decreases n,
{
    if n <= 0 || n > items.len() {
        Seq::empty()
    } else {
        match crate::numbers::integer_in(
            items[n - 1],
            true,
            -0x8000_0000_0000_0000,
            0x7fff_ffff_ffff_ffff,
        ) {
            Some(v) => kept_integers(items, n - 1).push(crate::text::int_text(v)),
            None => kept_integers(items, n - 1),
        }
    }
}

/// The items that are floating-point literals among the first `n`, each in
/// canonical notation.
pub open spec fn kept_floats(items: Seq<Seq<char>>, n: int) -> Seq<Seq<char>>
    decreases n,
{
    if n <= 0 || n > items.len() {
        Seq::empty()
    } else {
        match crate::numbers::float_literal_text(items[n - 1]) {
            Some(t) => kept_floats(items, n - 1).push(t),
            None => kept_floats(items, n - 1),
        }
    }
}

/// The kind and value of an array written with one of the typed array
/// tags: `string-array` keeps its items, `int-array` and `float-array`
/// keep the items that are numbers of their type. Other tags are no
/// arrays.
pub open spec fn typed_array(tag: Seq<char>, items: Seq<Seq<char>>) -> Option<
    (Seq<char>, ValueView),
> {
    if tag == "string-array"@ {
        Some(
            ("string_array"@, ValueView::Array { element_type: "string"@, spec: None, items }),
        )
    } else if tag == "int-array"@ {
        Some(
            (
                "int_array"@,
                ValueView::Array {
                    element_type: "number"@,
                    spec: Some("i64"@),
                    items: kept_integers(items, items.len() as int),
                },
            ),
        )
    } else if tag == "float-array"@ {
        Some(
            (
                "float_array"@,
                ValueView::Array {
                    element_type: "number"@,
                    spec: Some("f64"@),
                    items: kept_floats(items, items.len() as int),
                },
            ),
        )
    } else {
        None
    }
}

fn keep_integers(items: &Vec<String>) -> (r: Vec<String>)
    ensures
        texts(r@) == kept_integers(texts(items@), items@.len() as int),
{
    let ghost its = texts(items@);
    let mut out: Vec<String> = Vec::new();
    let mut i: usize = 0;
    assert(texts(out@) =~= kept_integers(its, 0));
    while i < items.len()
        invariant
            i <= items@.len(),
            its == texts(items@),
            texts(out@) == kept_integers(its, i as int),
        decreases items@.len() - i,
    {
        let ghost before = texts(out@);
        assert(its[i as int] == items@[i as int]@);
        let v = crate::text::chars_of(items[i].as_str());
        match crate::numbers::parse_integer(
            &v,
            true,
            -0x8000_0000_0000_0000,
            0x7fff_ffff_ffff_ffff,
        ) {
            Some(value) => {
                let s = crate::text::int_to_string(value as i64);
                out.push(s);
                assert(texts(out@) =~= before.push(s@));
            },
            None => {},
        }
        i = i + 1;
    }
    out
}

fn keep_floats(items: &Vec<String>) -> (r: Vec<String>)
    ensures
        texts(r@) == kept_floats(texts(items@), items@.len() as int),
{
    let ghost its = texts(items@);
    let mut out: Vec<String> = Vec::new();
    let mut i: usize = 0;
    assert(texts(out@) =~= kept_floats(its, 0));
    while i < items.len()
        invariant
            i <= items@.len(),
            its == texts(items@),
            texts(out@) == kept_floats(its, i as int),
        decreases items@.len() - i,
    {
        let ghost before = texts(out@);
        assert(its[i as int] == items@[i as int]@);
        match crate::numbers::canonical_float(items[i].as_str()) {
            Some(s) => {
                out.push(s);
                assert(texts(out@) =~= before.push(s@));
            },
            None => {},
        }
        i = i + 1;
    }
    out
}

/// Files the array that ends with the closing tag of a typed array tag;
/// any other tag leaves the table as it was.
pub fn handle_array_end(
    tag_name: &str,
    current_name: &str,
    array_items: &Vec<String>,
    resources: &mut ResourceTable,
)
    ensures
        final(resources)@ == match typed_array(tag_name@, texts(array_items@)) {
            Some((kind, value)) => pushed(old(resources)@, kind, current_name@, value),
            None => old(resources)@,
        },
{
    if str_eq(tag_name, "string-array") {
        resources.push(
            "string_array",
            current_name.to_string(),
            ResourceValue::Array {
                element_type: "string".to_string(),
                spec: None,
                items: clone_strings(array_items),
            },
        );
    } else if str_eq(tag_name, "int-array") {
        resources.push(
            "int_array",
            current_name.to_string(),
            ResourceValue::Array {
                element_type: "number".to_string(),
                spec: Some("i64".to_string()),
                items: keep_integers(array_items),
            },
        );
    } else if str_eq(tag_name, "float-array") {
        resources.push(
            "float_array",
            current_name.to_string(),
            ResourceValue::Array {
                element_type: "number".to_string(),
                spec: Some("f64".to_string()),
                items: keep_floats(array_items),
            },
        );
    }
}

/// The type of the template parameter that a declaration inside a template
/// stands for: a number is an integer unless its explicit type is a
/// floating-point type, a boolean is a boolean, anything else a string.
pub open spec fn parameter_type(v: ScalarView) -> TemplateParameterType {
    match v {
        ScalarView::Number { explicit_type: Some(t), .. } => match number_type_of(
            ascii_lower(trimmed(t)),
        ) {
            Some(NumberType::F32) => TemplateParameterType::Float,
            Some(NumberType::F64) => TemplateParameterType::Float,
            _ => TemplateParameterType::Int,
        },
        ScalarView::Number { explicit_type: None, .. } => TemplateParameterType::Int,
        ScalarView::Bool(_) => TemplateParameterType::Bool,
        _ => TemplateParameterType::String,
    }
}

/// The parameters of a template, in declaration order.
pub open spec fn template_parameters(ps: Seq<ParamView>) -> Seq<ParameterView> {
    Seq::new(
        ps.len(),
        |i: int| ParameterView { name: ps[i].name, param_type: parameter_type(ps[i].value) },
    )
}

fn parameter_type_of(value: &ScalarValue) -> (r: TemplateParameterType)
    ensures
        r == parameter_type(value@),
{
    match value {
        ScalarValue::Number { explicit_type, .. } => match explicit_type {
            Some(t) => {
                let name = to_ascii_lowercase(trim(t.as_str()).as_str());
                match crate::numbers::number_type_from_name(name.as_str()) {
                    Some(NumberType::F32) => TemplateParameterType::Float,
                    Some(NumberType::F64) => TemplateParameterType::Float,
                    _ => TemplateParameterType::Int,
                }
            },
            None => TemplateParameterType::Int,
        },
        ScalarValue::Bool(_) => TemplateParameterType::Bool,
        _ => TemplateParameterType::String,
    }
}

fn convert_parameters(params: &Vec<TemplateParam>) -> (r: Vec<TemplateParameter>)
    ensures
        parameters_view(r@) == template_parameters(params_view(params@)),
{
    let mut out: Vec<TemplateParameter> = Vec::new();
    let mut i: usize = 0;
    while i < params.len()
        invariant
            i <= params@.len(),
            out@.len() == i,
            forall|j: int|
                0 <= j < i ==> out@[j]@ == (ParameterView {
                    name: params@[j].name@,
                    param_type: parameter_type(params@[j].value@),
                }),
        decreases params@.len() - i,
    {
        out.push(
            TemplateParameter {
                name: params[i].name.clone(),
                param_type: parameter_type_of(&params[i].value),
            },
        );
        i = i + 1;
    }
    assert(parameters_view(out@) =~= template_parameters(params_view(params@)));
    out
}

/// The view of a result that is a text or a message.
pub open spec fn text_result(r: Result<String, String>) -> Result<Seq<char>, Seq<char>> {
    match r {
        Ok(t) => Ok(t@),
        Err(m) => Err(m@),
    }
}

/// The table after filing one declaration, or the message of the number
/// that could not be classified.
///
/// Strings and templates are filed under `string`, numbers under `number`,
/// booleans under `bool`, colors under `color`, arrays under `array`, and
/// the text of a URL or dimension declaration under `url` or `dimension`.
/// A number, alone or as an item of a number array, must be a number of
/// its type.
pub open spec fn added(t: Seq<GroupView>, p: ParsedResourceView) -> Result<
    Seq<GroupView>,
    Seq<char>,
> {
    match p.value {
        ScalarView::Text(text) => match p.kind {
            ResourceKind::Url => Ok(pushed(t, "url"@, p.name, url_entry(text))),
            ResourceKind::Dimension => Ok(pushed(t, "dimension"@, p.name, dimension_entry(text))),
            _ => Ok(pushed(t, "string"@, p.name, string_value(text))),
        },
        ScalarView::Number { value, explicit_type } => match number_entry(value, explicit_type) {
            Ok(v) => Ok(pushed(t, "number"@, p.name, v)),
            Err(m) => Err(m),
        },
        ScalarView::Bool(b) => Ok(pushed(t, "bool"@, p.name, ValueView::Bool(b))),
        ScalarView::Color(c) => Ok(pushed(t, "color"@, p.name, color_entry(c))),
        ScalarView::Template { text, params } => Ok(
            pushed(
                t,
                "string"@,
                p.name,
                ValueView::Template(
                    TemplateView { template: text, parameters: template_parameters(params) },
                ),
            ),
        ),
        ScalarView::Array { element_type, spec, items } => match crate::arrays::array_error(
            element_type,
            spec,
            items,
        ) {
            Some(m) => Err(m),
            None => Ok(pushed(t, "array"@, p.name, ValueView::Array { element_type, spec, items })),
        },
    }
}

/// Files one parsed declaration in the table.
pub fn add_resource(resources: &mut ResourceTable, parsed: &ParsedResource) -> (r: Result<
    (),
    String,
>)
    ensures
        match added(old(resources)@, parsed@) {
            Ok(t) => r.is_ok() && final(resources)@ == t,
            Err(m) => r.is_err() && r.unwrap_err()@ == m && final(resources)@ == old(resources)@,
        },
{
    let name = parsed.name.as_str();
    match &parsed.value {
        ScalarValue::Text(text) => {
            match parsed.kind {
                ResourceKind::Url => handle_url(text.as_str(), name, resources),
                ResourceKind::Dimension => handle_dimension(text.as_str(), name, resources),
                _ => handle_string(text.as_str(), name, resources),
            }
            Ok(())
        },
        ScalarValue::Number { value, explicit_type } => {
            let hint: Option<&str> = match explicit_type {
                Some(t) => Some(t.as_str()),
                None => None,
            };
            handle_number(value.as_str(), name, hint, resources)
        },
        ScalarValue::Bool(b) => {
            resources.push("bool", name.to_string(), ResourceValue::Bool(*b));
            Ok(())
        },
        ScalarValue::Color(c) => {
            handle_color(c.as_str(), name, resources);
            Ok(())
        },
        ScalarValue::Template { text, params } => {
            let template = Template {
                template: text.clone(),
                parameters: convert_parameters(params),
            };
            resources.push("string", name.to_string(), ResourceValue::Template(template));
            Ok(())
        },
        ScalarValue::Array { element_type, spec, items } => {
            match crate::arrays::check_array(element_type.as_str(), spec, items) {
                Some(m) => {
                    return Err(m);
                },
                None => {},
            }
            resources.push(
                "array",
                name.to_string(),
                ResourceValue::Array {
                    element_type: element_type.clone(),
                    spec: clone_opt(spec),
                    items: clone_strings(items),
                },
            );
            Ok(())
        },
    }
}

/// The table after filing the declarations from position `i` on, in order;
/// the first number that cannot be classified fails the whole.
pub open spec fn added_from(t: Seq<GroupView>, rs: Seq<ParsedResourceView>, i: int) -> Result<
    Seq<GroupView>,
    Seq<char>,
>
    decreases rs.len() - i,
{
    if i < 0 || i >= rs.len() {
        Ok(t)
    } else {
        match added(t, rs[i]) {
            Ok(t1) => added_from(t1, rs, i + 1),
            Err(m) => Err(m),
        }
    }
}

/// The table after filing all the declarations, in order.
pub open spec fn added_all(t: Seq<GroupView>, rs: Seq<ParsedResourceView>) -> Result<
    Seq<GroupView>,
    Seq<char>,
> {
    added_from(t, rs, 0)
}

/// Files the declarations of one file in the table: later files append to
/// what earlier ones filed, and nothing is deduplicated.
pub fn add_resources(resources: &mut ResourceTable, parsed: &Vec<ParsedResource>) -> (r: Result<
    (),
    String,
>)
    ensures
        match added_all(old(resources)@, resources_view(parsed@)) {
            Ok(t) => r.is_ok() && final(resources)@ == t,
            Err(m) => r.is_err() && r.unwrap_err()@ == m,
        },
{
    let ghost rs = resources_view(parsed@);
    let ghost start = resources@;
    let mut i: usize = 0;
    while i < parsed.len()
        invariant
            i <= parsed@.len(),
            rs == resources_view(parsed@),
            start == old(resources)@,
            added_all(start, rs) == added_from(resources@, rs, i as int),
        decreases parsed@.len() - i,
    {
        assert(rs[i as int] == parsed@[i as int]@);
        let ghost cur = resources@;
        match add_resource(resources, &parsed[i]) {
            Ok(()) => {},
            Err(m) => {
                assert(added_from(cur, rs, i as int) == Err::<Seq<GroupView>, Seq<char>>(m@));
                return Err(m);
            },
        }
        i = i + 1;
    }
    Ok(())
}

/// The message for markup that cannot be read.
pub open spec fn parse_error_message(position: u64, message: Seq<char>) -> Seq<char> {
    "XML parsing error at position "@ + nat_text(position as nat) + ": "@ + message
}

/// The table of one document: its declarations filed in order. Malformed
/// markup and a number that cannot be classified are errors.
pub open spec fn table_of_document(text: Seq<char>) -> Result<Seq<GroupView>, Seq<char>> {
    match parsed(document_events(text)) {
        Ok(rs) => added_all(crate::table::empty_table(), rs),
        Err((position, message)) => Err(parse_error_message(position, message)),
    }
}

/// Parses a resource document and files its declarations.
pub fn parse_resources(xml: &str) -> (r: Result<ResourceTable, String>)
    ensures
        match table_of_document(xml@) {
            Ok(t) => r.is_ok() && r.unwrap()@ == t,
            Err(m) => r.is_err() && r.unwrap_err()@ == m,
        },
{
    let events = read_events(xml);
    match parse_events(&events) {
        Ok(parsed) => {
            let mut table = ResourceTable::new();
            match add_resources(&mut table, &parsed) {
                Ok(()) => Ok(table),
                Err(m) => Err(m),
            }
        },
        Err((position, message)) => {
            let mut m = "XML parsing error at position ".to_string();
            push_nat(&mut m, position);
            m.append(": ");
            m.append(message.as_str());
            Err(m)
        },
    }
}

} // verus!
