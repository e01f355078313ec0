//! The definitions generated for single resources.
use vstd::prelude::*;
use crate::arrays::{array_text, emit_array, escape_literal, literal_escaped};
use crate::entries::{EntryView, ResourceEntry};
use crate::references::{constant_name, reference_path, resolve_reference_path};
use crate::resolve::{parts_resolved, resolve_interpolation_parts};
use crate::table::{GroupView, ResourceTable};
use crate::template::{emit_template_function, template_function};
use crate::text::{
    escape_debug, escaped, int_text, lowercase, pad, spaces, str_eq, texts, to_lowercase,
    to_uppercase,
};
use crate::types::{number_type_name, NumberValue, NumberView, ResourceValue, ValueView};
use crate::utils::{sanitize_identifier, sanitized};

verus! {

/// A string constant: the value escaped for a string literal.
pub open spec fn string_constant(pad: Seq<char>, name: Seq<char>, value: Seq<char>) -> Seq<char> {
    pad + "pub const "@ + name + ": &str = \""@ + escaped(value) + "\";\n"@
}

pub fn emit_string_constant(code: &mut String, pad: &str, const_name: &str, value: &str)
    ensures
        final(code)@ == old(code)@ + string_constant(pad@, const_name@, value@),
{
    code.append(pad);
    code.append("pub const ");
    code.append(const_name);
    code.append(": &str = \"");
    code.append(escape_debug(value).as_str());
    code.append("\";\n");
    assert(final(code)@ =~= old(code)@ + string_constant(pad@, const_name@, value@));
}

/// An alias: the target's constant is re-exported under the alias's name,
/// so the alias is the target and no copy of it.
pub open spec fn reference_constant(
    pad: Seq<char>,
    name: Seq<char>,
    resource_type: Seq<char>,
    key: Seq<char>,
) -> Seq<char> {
    pad + "pub use "@ + reference_path(resource_type, key, true) + " as "@ + name + ";\n"@
}

pub fn emit_reference_constant(
    code: &mut String,
    pad: &str,
    const_name: &str,
    resource_type: &str,
    key: &str,
)
    ensures
        final(code)@ == old(code)@ + reference_constant(pad@, const_name@, resource_type@, key@),
{
    let target = resolve_reference_path(resource_type, key, true);
    code.append(pad);
    code.append("pub use ");
    code.append(target.as_str());
    code.append(" as ");
    code.append(const_name);
    code.append(";\n");
    assert(final(code)@ =~= old(code)@ + reference_constant(
        pad@,
        const_name@,
        resource_type@,
        key@,
    ));
}

/// An arbitrary-precision number: a static that is built once, on first
/// use, from the literal.
pub open spec fn big_decimal_static(pad: Seq<char>, name: Seq<char>, raw: Seq<char>) -> Seq<char> {
    pad + "pub static "@ + name + ": LazyLock<BigDecimal> = LazyLock::new(|| {\n"@ + pad
        + "    BigDecimal::from_str(\""@ + literal_escaped(raw)
        + "\").expect(\"valid decimal literal\")\n"@ + pad + "});\n"@
}

pub fn emit_big_decimal_static(code: &mut String, pad: &str, const_name: &str, raw: &str)
    ensures
        final(code)@ == old(code)@ + big_decimal_static(pad@, const_name@, raw@),
{
    let literal = escape_literal(raw);
    code.append(pad);
    code.append("pub static ");
    code.append(const_name);
    code.append(": LazyLock<BigDecimal> = LazyLock::new(|| {\n");
    code.append(pad);
    code.append("    BigDecimal::from_str(\"");
    code.append(literal.as_str());
    code.append("\").expect(\"valid decimal literal\")\n");
    code.append(pad);
    code.append("});\n");
    assert(final(code)@ =~= old(code)@ + big_decimal_static(pad@, const_name@, raw@));
}

/// A constant of a plain type with its value as written.
pub open spec fn plain_constant(pad: Seq<char>, name: Seq<char>, ty: Seq<char>, value: Seq<char>)
    -> Seq<char> {
    pad + "pub const "@ + name + ": "@ + ty + " = "@ + value + ";\n"@
}

fn emit_plain_constant(code: &mut String, pad: &str, name: &str, ty: &str, value: &str)
    ensures
        final(code)@ == old(code)@ + plain_constant(pad@, name@, ty@, value@),
{
    code.append(pad);
    code.append("pub const ");
    code.append(name);
    code.append(": ");
    code.append(ty);
    code.append(" = ");
    code.append(value);
    code.append(";\n");
    assert(final(code)@ =~= old(code)@ + plain_constant(pad@, name@, ty@, value@));
}

/// The definition of a number: a 64-bit integer or float constant, a
/// constant of the explicit type, or an arbitrary-precision static.
pub open spec fn number_text(pad: Seq<char>, name: Seq<char>, number: NumberView) -> Seq<char> {
    match number {
        NumberView::Int(v) => plain_constant(pad, name, "i64"@, int_text(v as int)),
        NumberView::Float(v) => plain_constant(pad, name, "f64"@, v),
        NumberView::BigDecimal(raw) => big_decimal_static(pad, name, raw),
        NumberView::Typed { literal, ty } => plain_constant(
            pad,
            name,
            number_type_name(ty),
            literal,
        ),
    }
}

pub fn emit_number_value(code: &mut String, pad: &str, const_name: &str, number: &NumberValue)
    ensures
        final(code)@ == old(code)@ + number_text(pad@, const_name@, number@),
{
    match number {
        NumberValue::Int(value) => {
            let text = crate::text::int_to_string(*value);
            emit_plain_constant(code, pad, const_name, "i64", text.as_str());
        },
        NumberValue::Float(value) => {
            emit_plain_constant(code, pad, const_name, "f64", value.as_str());
        },
        NumberValue::BigDecimal(raw) => emit_big_decimal_static(code, pad, const_name, raw.as_str()),
        NumberValue::Typed { literal, ty } => {
            emit_plain_constant(code, pad, const_name, ty.as_str(), literal.as_str());
        },
    }
}

/// The text of a boolean.
pub open spec fn bool_text(b: bool) -> Seq<char> {
    if b {
        "true"@
    } else {
        "false"@
    }
}

/// Whether numbers are filed under this kind: `number`, or one of its
/// other names `int` and `float`.
pub open spec fn is_number_kind(kind: Seq<char>) -> bool {
    kind == "number"@ || kind == "int"@ || kind == "float"@
}

/// Whether arrays are filed under this kind.
pub open spec fn is_array_kind(kind: Seq<char>) -> bool {
    kind == "array"@ || kind == "string_array"@ || kind == "int_array"@ || kind == "float_array"@
}

/// Whether plain text values are filed under this kind.
pub open spec fn is_text_kind(kind: Seq<char>) -> bool {
    kind == "color"@ || kind == "url"@ || kind == "dimension"@
}

/// The name of the function generated for a template.
pub open spec fn function_name(leaf: Seq<char>) -> Seq<char> {
    lowercase(sanitized(leaf))
}

/// The definition of a resource filed under `string`: a string is a
/// string constant, an interpolation the string constant of its resolved
/// text, a template a function, a pure reference an alias of its target.
pub open spec fn string_definition(
    value: ValueView,
    leaf: Seq<char>,
    t: Seq<GroupView>,
    pad: Seq<char>,
    name: Seq<char>,
) -> Seq<char> {
    match value {
        ValueView::String(v) => string_constant(pad, name, v),
        ValueView::Reference { resource_type, key } => reference_constant(
            pad,
            name,
            resource_type,
            key,
        ),
        ValueView::InterpolatedString(parts) => string_constant(
            pad,
            name,
            parts_resolved(t, parts, Seq::empty()),
        ),
        ValueView::Template(tpl) => template_function(pad, function_name(leaf), tpl),
        _ => Seq::empty(),
    }
}

/// The definition of a resource filed under `number`.
pub open spec fn number_definition(value: ValueView, pad: Seq<char>, name: Seq<char>) -> Seq<char> {
    match value {
        ValueView::Number(n) => number_text(pad, name, n),
        ValueView::Reference { resource_type, key } => reference_constant(
            pad,
            name,
            resource_type,
            key,
        ),
        _ => Seq::empty(),
    }
}

/// The definition of a resource filed under `bool`.
pub open spec fn bool_definition(value: ValueView, pad: Seq<char>, name: Seq<char>) -> Seq<char> {
    match value {
        ValueView::Bool(b) => plain_constant(pad, name, "bool"@, bool_text(b)),
        ValueView::Reference { resource_type, key } => reference_constant(
            pad,
            name,
            resource_type,
            key,
        ),
        _ => Seq::empty(),
    }
}

/// The definition of a resource filed under `color`, `url` or
/// `dimension`.
pub open spec fn text_definition(value: ValueView, pad: Seq<char>, name: Seq<char>) -> Seq<char> {
    match value {
        ValueView::Color(v) => string_constant(pad, name, v),
        ValueView::Url(v) => string_constant(pad, name, v),
        ValueView::Dimension(v) => string_constant(pad, name, v),
        ValueView::Reference { resource_type, key } => reference_constant(
            pad,
            name,
            resource_type,
            key,
        ),
        _ => Seq::empty(),
    }
}

/// The definition of a resource filed under one of the array kinds. An
/// array whose elements are of an unknown kind, or which holds an item
/// that is no number of its type, has none: such an array is refused where
/// it is filed.
pub open spec fn array_definition(value: ValueView, pad: Seq<char>, name: Seq<char>) -> Seq<char> {
    match value {
        ValueView::Array { element_type, spec, items } => match array_text(
            element_type,
            spec,
            items,
            Seq::empty(),
            pad,
            name,
        ) {
            Ok(Some(text)) => text,
            _ => Seq::empty(),
        },
        _ => Seq::empty(),
    }
}

/// The definition generated for a resource, by its kind and value; a
/// value that does not belong to the kind, and a kind that is not known,
/// give nothing. The constant is named after the leaf name, sanitised and
/// in upper case.
pub open spec fn definition_text(e: EntryView, t: Seq<GroupView>, pad: Seq<char>) -> Seq<char> {
    let name = constant_name(e.leaf_name);
    if e.resource_type == "string"@ {
        string_definition(e.value, e.leaf_name, t, pad, name)
    } else if is_number_kind(e.resource_type) {
        number_definition(e.value, pad, name)
    } else if e.resource_type == "bool"@ {
        bool_definition(e.value, pad, name)
    } else if is_text_kind(e.resource_type) {
        text_definition(e.value, pad, name)
    } else if is_array_kind(e.resource_type) {
        array_definition(e.value, pad, name)
    } else {
        Seq::empty()
    }
}

pub fn emit_string_resource(
    code: &mut String,
    pad: &str,
    const_name: &str,
    entry: &ResourceEntry,
    all_resources: &ResourceTable,
)
    ensures
        final(code)@ == old(code)@ + string_definition(
            entry@.value,
            entry@.leaf_name,
            all_resources@,
            pad@,
            const_name@,
        ),
{
    match &entry.value {
        ResourceValue::String(value) => emit_string_constant(code, pad, const_name, value.as_str()),
        ResourceValue::Reference { resource_type, key } => emit_reference_constant(
            code,
            pad,
            const_name,
            resource_type.as_str(),
            key.as_str(),
        ),
        ResourceValue::InterpolatedString(parts) => {
            let mut visited: Vec<String> = Vec::new();
            assert(texts(visited@) =~= Seq::<Seq<char>>::empty());
            let resolved = resolve_interpolation_parts(parts, all_resources, &mut visited);
            match resolved {
                Some(text) => emit_string_constant(code, pad, const_name, text.as_str()),
                None => emit_string_constant(code, pad, const_name, ""),
            }
        },
        ResourceValue::Template(template) => {
            let fn_name = to_lowercase(sanitize_identifier(entry.leaf_name.as_str()).as_str());
            emit_template_function(code, pad, fn_name.as_str(), template);
        },
        _ => {
            assert(final(code)@ =~= old(code)@ + Seq::<char>::empty());
        },
    }
}

pub fn emit_number_resource(code: &mut String, pad: &str, const_name: &str, entry: &ResourceEntry)
    ensures
        final(code)@ == old(code)@ + number_definition(entry@.value, pad@, const_name@),
{
    match &entry.value {
        ResourceValue::Number(value) => emit_number_value(code, pad, const_name, value),
        ResourceValue::Reference { resource_type, key } => emit_reference_constant(
            code,
            pad,
            const_name,
            resource_type.as_str(),
            key.as_str(),
        ),
        _ => {
            assert(final(code)@ =~= old(code)@ + Seq::<char>::empty());
        },
    }
}

pub fn emit_bool_resource(code: &mut String, pad: &str, const_name: &str, entry: &ResourceEntry)
    ensures
        final(code)@ == old(code)@ + bool_definition(entry@.value, pad@, const_name@),
{
    match &entry.value {
        ResourceValue::Bool(value) => {
            let text = if *value {
                "true"
            } else {
                "false"
            };
            emit_plain_constant(code, pad, const_name, "bool", text);
        },
        ResourceValue::Reference { resource_type, key } => emit_reference_constant(
            code,
            pad,
            const_name,
            resource_type.as_str(),
            key.as_str(),
        ),
        _ => {
            assert(final(code)@ =~= old(code)@ + Seq::<char>::empty());
        },
    }
}

pub fn emit_text_resource(code: &mut String, pad: &str, const_name: &str, entry: &ResourceEntry)
    ensures
        final(code)@ == old(code)@ + text_definition(entry@.value, pad@, const_name@),
{
    match &entry.value {
        ResourceValue::Color(value) => emit_string_constant(code, pad, const_name, value.as_str()),
        ResourceValue::Url(value) => emit_string_constant(code, pad, const_name, value.as_str()),
        ResourceValue::Dimension(value) => emit_string_constant(
            code,
            pad,
            const_name,
            value.as_str(),
        ),
        ResourceValue::Reference { resource_type, key } => emit_reference_constant(
            code,
            pad,
            const_name,
            resource_type.as_str(),
            key.as_str(),
        ),
        _ => {
            assert(final(code)@ =~= old(code)@ + Seq::<char>::empty());
        },
    }
}

pub fn emit_array_resource(code: &mut String, pad: &str, const_name: &str, entry: &ResourceEntry)
    ensures
        final(code)@ == old(code)@ + array_definition(entry@.value, pad@, const_name@),
{
    match &entry.value {
        ResourceValue::Array { element_type, spec, items } => {
            let doc = String::new();
            match emit_array(element_type.as_str(), spec, items, doc.as_str(), pad, const_name) {
                Ok(Some(text)) => {
                    code.append(text.as_str());
                },
                _ => {
                    assert(final(code)@ =~= old(code)@ + Seq::<char>::empty());
                },
            }
        },
        _ => {
            assert(final(code)@ =~= old(code)@ + Seq::<char>::empty());
        },
    }
}

/// Appends the definition of a resource, indented by the given padding.
pub fn emit_resource_padded(
    code: &mut String,
    entry: &ResourceEntry,
    all_resources: &ResourceTable,
    pad: &str,
)
    ensures
        final(code)@ == old(code)@ + definition_text(entry@, all_resources@, pad@),
{
    let const_name = to_uppercase(sanitize_identifier(entry.leaf_name.as_str()).as_str());
    let kind = entry.resource_type.as_str();
    if str_eq(kind, "string") {
        emit_string_resource(code, pad, const_name.as_str(), entry, all_resources);
    } else if str_eq(kind, "number") || str_eq(kind, "int") || str_eq(kind, "float") {
        emit_number_resource(code, pad, const_name.as_str(), entry);
    } else if str_eq(kind, "bool") {
        emit_bool_resource(code, pad, const_name.as_str(), entry);
    } else if str_eq(kind, "color") || str_eq(kind, "url") || str_eq(kind, "dimension") {
        emit_text_resource(code, pad, const_name.as_str(), entry);
    } else if str_eq(kind, "array") || str_eq(kind, "string_array") || str_eq(kind, "int_array")
        || str_eq(kind, "float_array") {
        emit_array_resource(code, pad, const_name.as_str(), entry);
    } else {
        assert(final(code)@ =~= old(code)@ + Seq::<char>::empty());
    }
}

/// Appends the definition of a resource, indented by `indent` spaces.
pub fn emit_resource(
    code: &mut String,
    entry: &ResourceEntry,
    all_resources: &ResourceTable,
    indent: usize,
)
    ensures
        final(code)@ == old(code)@ + definition_text(entry@, all_resources@, spaces(indent as nat)),
{
    let p = pad(indent);
    emit_resource_padded(code, entry, all_resources, p.as_str());
}

/// An alias is its target: for a pure reference of any scalar kind the
/// definition is a re-export of the constant that the reference names,
/// under the alias's name. Nothing of the target's value is copied, so
/// the alias has the target's value, through any number of hops.
pub proof fn lemma_alias_is_reexport(
    e: EntryView,
    t: Seq<GroupView>,
    pad: Seq<char>,
    resource_type: Seq<char>,
    key: Seq<char>,
)
    requires
        e.value == (ValueView::Reference { resource_type, key }),
        e.resource_type == "string"@ || is_number_kind(e.resource_type) || e.resource_type
            == "bool"@ || is_text_kind(e.resource_type),
    ensures
        definition_text(e, t, pad) == pad + "pub use "@ + reference_path(resource_type, key, true)
            + " as "@ + constant_name(e.leaf_name) + ";\n"@,
{
}

} // verus!
