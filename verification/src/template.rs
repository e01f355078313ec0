//! The template compiler: from a text with `{name}` placeholders and its
//! parameters to a generated function.
use vstd::prelude::*;
use crate::text::{
    chars_of, escape_debug, escaped, find_from, first_index_from, join, join_strings, push_char,
    str_eq, string_of_range, texts,
};
use crate::types::{
    parameters_view, ParameterView, Template, TemplateParameter, TemplateParameterType,
    TemplateView,
};
use crate::utils::{sanitize_identifier, sanitized};

verus! {

/// The type of a parameter in the generated function's signature.
pub open spec fn rust_type_name(ty: TemplateParameterType) -> Seq<char> {
    match ty {
        TemplateParameterType::String => "&str"@,
        TemplateParameterType::Int => "i64"@,
        TemplateParameterType::Float => "f64"@,
        TemplateParameterType::Bool => "bool"@,
    }
}

pub fn rust_type(param: &TemplateParameter) -> (r: &'static str)
    ensures
        r@ == rust_type_name(param@.param_type),
{
    match param.param_type {
        TemplateParameterType::String => "&str",
        TemplateParameterType::Int => "i64",
        TemplateParameterType::Float => "f64",
        TemplateParameterType::Bool => "bool",
    }
}

/// Whether a parameter of that name is declared.
pub open spec fn has_parameter(params: Seq<ParameterView>, name: Seq<char>) -> bool {
    exists|i: int| 0 <= i < params.len() && #[trigger] params[i].name == name
}

fn is_parameter(params: &Vec<TemplateParameter>, name: &str) -> (r: bool)
    ensures
        r == has_parameter(parameters_view(params@), name@),
{
    let mut i: usize = 0;
    while i < params.len()
        invariant
            i <= params@.len(),
            forall|j: int| 0 <= j < i ==> parameters_view(params@)[j].name != name@,
        decreases params@.len() - i,
    {
        assert(parameters_view(params@)[i as int].name == params@[i as int].name@);
        if str_eq(params[i].name.as_str(), name) {
            return true;
        }
        i = i + 1;
    }
    false
}

/// A stretch of literal text, escaped for a string literal; an empty
/// stretch gives nothing.
pub open spec fn literal_text(t: Seq<char>) -> Seq<char> {
    if t.len() > 0 {
        escaped(t)
    } else {
        Seq::empty()
    }
}

/// The text with every brace doubled, as a format string writes a brace
/// that is meant literally.
pub open spec fn braces_doubled(s: Seq<char>) -> Seq<char>
    decreases s.len(),
{
    if s.len() == 0 {
        Seq::empty()
    } else if s.last() == '{' {
        braces_doubled(s.drop_last()) + seq!['{', '{']
    } else if s.last() == '}' {
        braces_doubled(s.drop_last()) + seq!['}', '}']
    } else {
        braces_doubled(s.drop_last()).push(s.last())
    }
}

/// A stretch of literal text inside a format string: its braces doubled,
/// and the whole escaped for a string literal; an empty stretch gives
/// nothing.
pub open spec fn format_literal(t: Seq<char>) -> Seq<char> {
    literal_text(braces_doubled(t))
}

/// The format string and the arguments for the template text from
/// position `pos` on.
///
/// The text is scanned for `{`. What stands between it and the next `}` is
/// a placeholder where a parameter of that name is declared: it becomes the
/// slot `{}`, and the sanitised name the next argument. Otherwise the brace
/// pair and what it holds is literal text. A `{` without a `}` after it
/// makes the rest of the text literal. Literal text keeps its meaning: it
/// is escaped, and its braces are doubled.
pub open spec fn format_from(s: Seq<char>, params: Seq<ParameterView>, pos: int) -> (
    Seq<char>,
    Seq<Seq<char>>,
)
    decreases s.len() - pos,
{
    if pos < 0 || pos > s.len() {
        (Seq::empty(), Seq::empty())
    } else {
        match first_index_from(s, '{', pos) {
            None => (format_literal(s.subrange(pos, s.len() as int)), Seq::empty()),
            Some(start) => if start < pos || start >= s.len() {
                (Seq::empty(), Seq::empty())
            } else {
                let before = format_literal(s.subrange(pos, start));
                match first_index_from(s, '}', start + 1) {
                    Some(end) => if end <= start || end >= s.len() {
                        (Seq::empty(), Seq::empty())
                    } else {
                        let name = s.subrange(start + 1, end);
                        let rest = format_from(s, params, end + 1);
                        if has_parameter(params, name) {
                            (before + "{}"@ + rest.0, seq![sanitized(name)] + rest.1)
                        } else {
                            (before + format_literal(s.subrange(start, end + 1)) + rest.0, rest.1)
                        }
                    },
                    None => (
                        before + format_literal(s.subrange(start, s.len() as int)),
                        Seq::empty(),
                    ),
                }
            },
        }
    }
}

/// The format string and the arguments of a template.
pub open spec fn template_format(s: Seq<char>, params: Seq<ParameterView>) -> (
    Seq<char>,
    Seq<Seq<char>>,
) {
    format_from(s, params, 0)
}

fn double_braces(v: &Vec<char>, from: usize, to: usize) -> (r: String)
    requires
        from <= to <= v@.len(),
    ensures
        r@ == braces_doubled(v@.subrange(from as int, to as int)),
{
    let mut out = String::new();
    let mut i: usize = from;
    assert(v@.subrange(from as int, from as int) =~= Seq::<char>::empty());
    while i < to
        invariant
            from <= i <= to <= v@.len(),
            out@ == braces_doubled(v@.subrange(from as int, i as int)),
        decreases to - i,
    {
        proof {
            let next = v@.subrange(from as int, i + 1);
            assert(next.drop_last() =~= v@.subrange(from as int, i as int));
            assert(next.last() == v@[i as int]);
        }
        let ghost o = out@;
        if v[i] == '{' {
            out.append("{{");
            proof {
                reveal_strlit("{{");
                assert(out@ =~= o + seq!['{', '{']);
            }
        } else if v[i] == '}' {
            out.append("}}");
            proof {
                reveal_strlit("}}");
                assert(out@ =~= o + seq!['}', '}']);
            }
        } else {
            push_char(&mut out, v[i]);
        }
        i = i + 1;
    }
    out
}

fn push_format_literal(out: &mut String, v: &Vec<char>, from: usize, to: usize)
    requires
        from <= to <= v@.len(),
    ensures
        final(out)@ == old(out)@ + format_literal(v@.subrange(from as int, to as int)),
{
    let doubled = double_braces(v, from, to);
    if doubled.as_str().unicode_len() > 0 {
        let e = escape_debug(doubled.as_str());
        out.append(e.as_str());
    } else {
        assert(final(out)@ =~= old(out)@ + Seq::<char>::empty());
    }
}

/// Compiles the text of a template: the format string, and the names of
/// the arguments to substitute, in the order of their slots.
pub fn parse_template_placeholders(template_str: &str, parameters: &Vec<TemplateParameter>) -> (r:
    (String, Vec<String>))
    ensures
        (r.0@, texts(r.1@)) == template_format(template_str@, parameters_view(parameters@)),
{
    let v = chars_of(template_str);
    let n = v.len();
    let ghost ps = parameters_view(parameters@);
    let mut fmt = String::new();
    let mut args: Vec<String> = Vec::new();
    let mut pos: usize = 0;
    proof {
        let total = template_format(v@, ps);
        assert(fmt@ + total.0 =~= total.0);
        assert(texts(args@) + total.1 =~= total.1);
    }
    loop
        invariant_except_break
            fmt@ + format_from(v@, ps, pos as int).0 == template_format(v@, ps).0,
            texts(args@) + format_from(v@, ps, pos as int).1 == template_format(v@, ps).1,
        invariant
            v@ == template_str@,
            n == v@.len(),
            ps == parameters_view(parameters@),
            pos <= n,
        ensures
            fmt@ == template_format(v@, ps).0,
            texts(args@) == template_format(v@, ps).1,
        decreases n - pos,
    {
        let ghost f0 = fmt@;
        let ghost a0 = texts(args@);
        let start = match find_from(&v, '{', pos) {
            Some(i) => i,
            None => {
                push_format_literal(&mut fmt, &v, pos, n);
                assert(texts(args@) + Seq::<Seq<char>>::empty() =~= texts(args@));
                break;
            },
        };
        push_format_literal(&mut fmt, &v, pos, start);
        let ghost before = format_literal(v@.subrange(pos as int, start as int));
        match find_from(&v, '}', start + 1) {
            Some(end) => {
                let name = string_of_range(&v, start + 1, end);
                let ghost rest = format_from(v@, ps, end + 1);
                if is_parameter(parameters, name.as_str()) {
                    let arg = sanitize_identifier(name.as_str());
                    args.push(arg);
                    fmt.append("{}");
                    proof {
                        assert(texts(args@) =~= a0 + seq![sanitized(name@)]);
                        assert(a0 + (seq![sanitized(name@)] + rest.1) =~= (a0 + seq![
                            sanitized(name@),
                        ]) + rest.1);
                        assert(f0 + (before + "{}"@ + rest.0) =~= (f0 + before + "{}"@) + rest.0);
                    }
                } else {
                    push_format_literal(&mut fmt, &v, start, end + 1);
                    proof {
                        let piece = format_literal(v@.subrange(start as int, end + 1));
                        assert(f0 + (before + piece + rest.0) =~= (f0 + before + piece) + rest.0);
                    }
                }
                pos = end + 1;
            },
            None => {
                push_format_literal(&mut fmt, &v, start, n);
                proof {
                    let piece = format_literal(v@.subrange(start as int, n as int));
                    assert(f0 + (before + piece) =~= (f0 + before) + piece);
                    assert(texts(args@) + Seq::<Seq<char>>::empty() =~= texts(args@));
                }
                break;
            },
        }
    }
    (fmt, args)
}

/// One parameter of the generated signature: sanitised name, colon, type.
pub open spec fn signature_item(p: ParameterView) -> Seq<char> {
    sanitized(p.name) + ": "@ + rust_type_name(p.param_type)
}

/// The parameter list of the generated function.
pub open spec fn signature(params: Seq<ParameterView>) -> Seq<char> {
    join(Seq::new(params.len(), |i: int| signature_item(params[i])), ", "@)
}

/// The body of the generated function. Where nothing is substituted it is
/// the text itself as a string literal, escaped, with its braces as they
/// are. Otherwise it is a `format!` call with the format string and the
/// arguments.
pub open spec fn template_body(t: TemplateView) -> Seq<char> {
    let f = template_format(t.template, t.parameters);
    if f.1.len() == 0 {
        "\""@ + literal_text(t.template) + "\".to_string()"@
    } else {
        "format!(\""@ + f.0 + "\", "@ + join(f.1, ", "@) + ")"@
    }
}

/// The generated function for a template.
pub open spec fn template_function(pad: Seq<char>, fn_name: Seq<char>, t: TemplateView) -> Seq<
    char,
> {
    pad + "#[must_use]\n"@ + pad + "pub fn "@ + fn_name + "("@ + signature(t.parameters)
        + ") -> String {\n"@ + pad + "    "@ + template_body(t) + "\n"@ + pad + "}\n"@
}

/// Appends the function generated for a template.
pub fn emit_template_function(code: &mut String, pad: &str, fn_name: &str, template: &Template)
    ensures
        final(code)@ == old(code)@ + template_function(pad@, fn_name@, template@),
{
    let ghost ps = parameters_view(template.parameters@);
    let mut items: Vec<String> = Vec::new();
    let mut i: usize = 0;
    while i < template.parameters.len()
        invariant
            i <= template.parameters@.len(),
            ps == parameters_view(template.parameters@),
            items@.len() == i,
            forall|j: int| 0 <= j < i ==> items@[j]@ == signature_item(ps[j]),
        decreases template.parameters@.len() - i,
    {
        let param = &template.parameters[i];
        assert(ps[i as int] == param@);
        let mut item = sanitize_identifier(param.name.as_str());
        item.append(": ");
        item.append(rust_type(param));
        items.push(item);
        i = i + 1;
    }
    assert(texts(items@) =~= Seq::new(ps.len(), |i: int| signature_item(ps[i])));
    let params = join_strings(&items, ", ");
    let (format_str, format_args) = parse_template_placeholders(
        template.template.as_str(),
        &template.parameters,
    );
    let mut body = String::new();
    if format_args.len() == 0 {
        body.append("\"");
        if template.template.as_str().unicode_len() > 0 {
            body.append(escape_debug(template.template.as_str()).as_str());
        }
        body.append("\".to_string()");
    } else {
        let args = join_strings(&format_args, ", ");
        body.append("format!(\"");
        body.append(format_str.as_str());
        body.append("\", ");
        body.append(args.as_str());
        body.append(")");
    }
    assert(body@ =~= template_body(template@));
    code.append(pad);
    code.append("#[must_use]\n");
    code.append(pad);
    code.append("pub fn ");
    code.append(fn_name);
    code.append("(");
    code.append(params.as_str());
    code.append(") -> String {\n");
    code.append(pad);
    code.append("    ");
    code.append(body.as_str());
    code.append("\n");
    code.append(pad);
    code.append("}\n");
    assert(final(code)@ =~= old(code)@ + template_function(pad@, fn_name@, template@));
}

} // verus!
