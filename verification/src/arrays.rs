//! Emission of array resources: the element type decides the type of the
//! generated slice, and for numbers without a subtype the items decide it.
use vstd::prelude::*;
use crate::numbers::{
    canonical_float, count_significant_digits, float_literal_text, integer_in, integer_like,
    looks_like_integer, number_type_from_name, number_type_of, parse_integer, significant_digits,
    typed_number,
};
use crate::text::{
    chars_of, escape_debug, escaped, join, join_strings, nat_text, push_char, push_nat, str_eq,
    texts, trim, trimmed,
};
use crate::types::{NumberType, NumberView};

verus! {

/// The text with every backslash doubled and every double quote behind a
/// backslash, for a string literal.
pub open spec fn literal_escaped(s: Seq<char>) -> Seq<char>
    decreases s.len(),
{
    if s.len() == 0 {
        Seq::empty()
    } else if s.last() == '\\' {
        literal_escaped(s.drop_last()) + seq!['\\', '\\']
    } else if s.last() == '"' {
        literal_escaped(s.drop_last()) + seq!['\\', '"']
    } else {
        literal_escaped(s.drop_last()).push(s.last())
    }
}

/// Escapes backslashes and double quotes.
pub fn escape_literal(literal: &str) -> (r: String)
    ensures
        r@ == literal_escaped(literal@),
{
    let v = chars_of(literal);
    let mut out = String::new();
    let mut i: usize = 0;
    assert(v@.take(0) =~= Seq::<char>::empty());
    while i < v.len()
        invariant
            v@ == literal@,
            i <= v@.len(),
            out@ == literal_escaped(v@.take(i as int)),
        decreases v@.len() - i,
    {
        proof {
            let next = v@.take(i + 1);
            assert(next.drop_last() =~= v@.take(i as int));
            assert(next.last() == v@[i as int]);
        }
        let ghost o = out@;
        if v[i] == '\\' {
            push_char(&mut out, '\\');
            push_char(&mut out, '\\');
            assert(out@ =~= o + seq!['\\', '\\']);
        } else if v[i] == '"' {
            push_char(&mut out, '\\');
            push_char(&mut out, '"');
            assert(out@ =~= o + seq!['\\', '"']);
        } else {
            push_char(&mut out, v[i]);
        }
        i = i + 1;
    }
    assert(v@.take(i as int) =~= v@);
    out
}

/// An item as a string literal.
pub open spec fn quoted(item: Seq<char>) -> Seq<char> {
    "\""@ + escaped(item) + "\""@
}

/// The declaration of a constant slice.
pub open spec fn slice_constant(
    doc: Seq<char>,
    pad: Seq<char>,
    name: Seq<char>,
    ty: Seq<char>,
    items: Seq<Seq<char>>,
) -> Seq<char> {
    doc + pad + "pub const "@ + name + ": &["@ + ty + "] = &["@ + join(items, ", "@) + "];\n"@
}

fn emit_slice(doc: &str, pad: &str, name: &str, ty: &str, items: &Vec<String>) -> (r: String)
    ensures
        r@ == slice_constant(doc@, pad@, name@, ty@, texts(items@)),
{
    let mut out = doc.to_string();
    out.append(pad);
    out.append("pub const ");
    out.append(name);
    out.append(": &[");
    out.append(ty);
    out.append("] = &[");
    out.append(join_strings(items, ", ").as_str());
    out.append("];\n");
    out
}

/// The items of a string or color array as literals.
pub open spec fn quoted_items(items: Seq<Seq<char>>) -> Seq<Seq<char>> {
    Seq::new(items.len(), |i: int| quoted(items[i]))
}

fn quote_items(items: &Vec<String>) -> (r: Vec<String>)
    ensures
        texts(r@) == quoted_items(texts(items@)),
{
    let mut out: Vec<String> = Vec::new();
    let mut i: usize = 0;
    while i < items.len()
        invariant
            i <= items@.len(),
            out@.len() == i,
            forall|j: int| 0 <= j < i ==> out@[j]@ == quoted(items@[j]@),
        decreases items@.len() - i,
    {
        let mut q = "\"".to_string();
        q.append(escape_debug(items[i].as_str()).as_str());
        q.append("\"");
        out.push(q);
        i = i + 1;
    }
    assert(texts(out@) =~= quoted_items(texts(items@)));
    out
}

/// An item of a boolean array: `true` or `false` where the trimmed item is
/// one of them, `false` behind a comment that shows the item otherwise.
pub open spec fn bool_item(item: Seq<char>) -> Seq<char> {
    let t = trimmed(item);
    if t == "true"@ {
        "true"@
    } else if t == "false"@ {
        "false"@
    } else {
        "/* invalid: "@ + item + " */false"@
    }
}

pub open spec fn bool_items(items: Seq<Seq<char>>) -> Seq<Seq<char>> {
    Seq::new(items.len(), |i: int| bool_item(items[i]))
}

fn render_bool_items(items: &Vec<String>) -> (r: Vec<String>)
    ensures
        texts(r@) == bool_items(texts(items@)),
{
    let mut out: Vec<String> = Vec::new();
    let mut i: usize = 0;
    while i < items.len()
        invariant
            i <= items@.len(),
            out@.len() == i,
            forall|j: int| 0 <= j < i ==> out@[j]@ == bool_item(items@[j]@),
        decreases items@.len() - i,
    {
        let t = trim(items[i].as_str());
        let s = if str_eq(t.as_str(), "true") {
            "true".to_string()
        } else if str_eq(t.as_str(), "false") {
            "false".to_string()
        } else {
            let mut m = "/* invalid: ".to_string();
            m.append(items[i].as_str());
            m.append(" */false");
            m
        };
        out.push(s);
        i = i + 1;
    }
    assert(texts(out@) =~= bool_items(texts(items@)));
    out
}

/// The canonical literal of an item of the given type, or the message
/// that names the item and the type where it is malformed or does not fit.
pub open spec fn typed_literal(item: Seq<char>, ty: NumberType) -> Result<Seq<char>, Seq<char>> {
    match typed_number(trimmed(item), ty) {
        Ok(NumberView::Typed { literal, .. }) => Ok(literal),
        Ok(_) => Ok(trimmed(item)),
        Err(m) => Err(m),
    }
}

/// The canonical literals of the items from position `i` on, or the
/// message for the first item that is no number of the type.
pub open spec fn typed_from(items: Seq<Seq<char>>, ty: NumberType, i: int) -> Result<
    Seq<Seq<char>>,
    Seq<char>,
>
    decreases items.len() - i,
{
    if i < 0 || i >= items.len() {
        Ok(Seq::empty())
    } else {
        match typed_literal(items[i], ty) {
            Ok(literal) => match typed_from(items, ty, i + 1) {
                Ok(rest) => Ok(seq![literal] + rest),
                Err(m) => Err(m),
            },
            Err(m) => Err(m),
        }
    }
}

/// Reads a literal as a number of the given subtype and gives its
/// canonical notation; a subtype that is no integer or floating-point type
/// leaves the trimmed literal as it is.
pub fn parse_number_for_type(literal: &str, spec: Option<&str>) -> (r: Result<String, String>)
    ensures
        crate::parser::text_result(r) == match spec {
            Some(hint) => match number_type_of(hint@) {
                Some(ty) => typed_literal(literal@, ty),
                None => Ok(trimmed(literal@)),
            },
            None => Ok(trimmed(literal@)),
        },
{
    let t = trim(literal);
    match spec {
        Some(hint) => match number_type_from_name(hint) {
            Some(ty) => match crate::numbers::parse_typed(t.as_str(), ty) {
                Ok(crate::types::NumberValue::Typed { literal: l, .. }) => Ok(l),
                Ok(_) => Ok(t),
                Err(m) => Err(m),
            },
            None => Ok(t),
        },
        None => Ok(t),
    }
}

fn render_typed_items(items: &Vec<String>, ty: NumberType, name: &str) -> (r: Result<
    Vec<String>,
    String,
>)
    requires
        number_type_of(name@) == Some(ty),
    ensures
        match typed_from(texts(items@), ty, 0) {
            Ok(literals) => r.is_ok() && texts(r.unwrap()@) == literals,
            Err(m) => r.is_err() && r.unwrap_err()@ == m,
        },
{
    let ghost its = texts(items@);
    let mut out: Vec<String> = Vec::new();
    let mut i: usize = 0;
    proof {
        match typed_from(its, ty, 0) {
            Ok(rest) => {
                assert(texts(out@) + rest =~= rest);
            },
            Err(m) => {},
        }
    }
    while i < items.len()
        invariant
            i <= items@.len(),
            its == texts(items@),
            number_type_of(name@) == Some(ty),
            match typed_from(its, ty, i as int) {
                Ok(rest) => typed_from(its, ty, 0) == Ok::<Seq<Seq<char>>, Seq<char>>(
                    texts(out@) + rest,
                ),
                Err(m) => typed_from(its, ty, 0) == Err::<Seq<Seq<char>>, Seq<char>>(m),
            },
        decreases items@.len() - i,
    {
        let ghost done = texts(out@);
        assert(its[i as int] == items@[i as int]@);
        match parse_number_for_type(items[i].as_str(), Some(name)) {
            Ok(l) => {
                out.push(l);
                proof {
                    assert(texts(out@) =~= done + seq![l@]);
                    match typed_from(its, ty, i + 1) {
                        Ok(rest) => {
                            assert(done + (seq![l@] + rest) =~= (done + seq![l@]) + rest);
                        },
                        Err(m) => {},
                    }
                }
            },
            Err(m) => {
                return Err(m);
            },
        }
        i = i + 1;
    }
    assert(texts(out@) + Seq::<Seq<char>>::empty() =~= texts(out@));
    Ok(out)
}

/// The message for the first item from position `i` on that the decimal
/// library does not accept, if there is one.
pub open spec fn first_invalid_decimal(items: Seq<Seq<char>>, i: int) -> Option<Seq<char>>
    decreases items.len() - i,
{
    if i < 0 || i >= items.len() {
        None
    } else if !crate::numbers::is_decimal_literal(items[i]) {
        Some("Invalid number literal '"@ + items[i] + "'"@)
    } else {
        first_invalid_decimal(items, i + 1)
    }
}

fn check_decimals(items: &Vec<String>) -> (r: Option<String>)
    ensures
        crate::utils::opt_text(r) == first_invalid_decimal(texts(items@), 0),
{
    let ghost its = texts(items@);
    let mut i: usize = 0;
    while i < items.len()
        invariant
            i <= items@.len(),
            its == texts(items@),
            first_invalid_decimal(its, 0) == first_invalid_decimal(its, i as int),
        decreases items@.len() - i,
    {
        assert(its[i as int] == items@[i as int]@);
        match crate::numbers::parse_big_decimal(items[i].as_str()) {
            Ok(_) => {},
            Err(m) => {
                return Some(m);
            },
        }
        i = i + 1;
    }
    None
}

/// The name of the static that holds the item at position `idx` of an
/// arbitrary-precision array.
pub open spec fn item_static_name(name: Seq<char>, idx: nat) -> Seq<char> {
    name + "_ITEM_"@ + nat_text(idx)
}

/// The static that holds one arbitrary-precision item, built on first use
/// from its escaped literal.
pub open spec fn decimal_static(pad: Seq<char>, static_name: Seq<char>, literal: Seq<char>) -> Seq<
    char,
> {
    pad + "static "@ + static_name
        + ": std::sync::LazyLock<r_resources::BigDecimal> = std::sync::LazyLock::new(|| {\n"@ + pad
        + "    r_resources::BigDecimal::from_str(\""@ + literal_escaped(literal)
        + "\").expect(\"valid decimal literal\")\n"@ + pad + "});\n"@
}

/// The statics of the first `n` items.
pub open spec fn decimal_statics(pad: Seq<char>, name: Seq<char>, items: Seq<Seq<char>>, n: int)
    -> Seq<char>
    decreases n,
{
    if n <= 0 || n > items.len() {
        Seq::empty()
    } else {
        decimal_statics(pad, name, items, n - 1) + decimal_static(
            pad,
            item_static_name(name, (n - 1) as nat),
            items[n - 1],
        )
    }
}

/// The references to the statics of all items.
pub open spec fn decimal_refs(name: Seq<char>, n: nat) -> Seq<Seq<char>> {
    Seq::new(n, |i: int| "&"@ + item_static_name(name, i as nat))
}

/// An arbitrary-precision array: one static for each item, and a static
/// slice of references to them.
pub open spec fn decimal_array(
    doc: Seq<char>,
    pad: Seq<char>,
    name: Seq<char>,
    items: Seq<Seq<char>>,
) -> Seq<char> {
    doc + decimal_statics(pad, name, items, items.len() as int) + pad + "pub static "@ + name
        + ": &[&std::sync::LazyLock<r_resources::BigDecimal>] = &["@ + join(
        decimal_refs(name, items.len()),
        ", "@,
    ) + "];\n"@
}

/// The items, each trimmed.
pub open spec fn trimmed_items(items: Seq<Seq<char>>) -> Seq<Seq<char>> {
    Seq::new(items.len(), |i: int| trimmed(items[i]))
}

fn trim_items(items: &Vec<String>) -> (r: Vec<String>)
    ensures
        texts(r@) == trimmed_items(texts(items@)),
{
    let mut out: Vec<String> = Vec::new();
    let mut i: usize = 0;
    while i < items.len()
        invariant
            i <= items@.len(),
            out@.len() == i,
            forall|j: int| 0 <= j < i ==> out@[j]@ == trimmed(items@[j]@),
        decreases items@.len() - i,
    {
        out.push(trim(items[i].as_str()));
        i = i + 1;
    }
    assert(texts(out@) =~= trimmed_items(texts(items@)));
    out
}

fn emit_decimal_array(doc: &str, pad: &str, name: &str, items: &Vec<String>) -> (r: String)
    ensures
        r@ == decimal_array(doc@, pad@, name@, texts(items@)),
{
    let mut code = doc.to_string();
    let mut refs: Vec<String> = Vec::new();
    let mut i: usize = 0;
    let ghost its = texts(items@);
    assert(code@ =~= doc@ + decimal_statics(pad@, name@, its, 0));
    while i < items.len()
        invariant
            i <= items@.len(),
            its == texts(items@),
            refs@.len() == i,
            forall|j: int| 0 <= j < i ==> refs@[j]@ == "&"@ + item_static_name(name@, j as nat),
            code@ == doc@ + decimal_statics(pad@, name@, its, i as int),
        decreases items@.len() - i,
    {
        let ghost c0 = code@;
        let mut static_name = name.to_string();
        static_name.append("_ITEM_");
        push_nat(&mut static_name, i as u64);
        assert(static_name@ =~= item_static_name(name@, i as nat));
        let lit = escape_literal(items[i].as_str());
        assert(its[i as int] == items@[i as int]@);
        code.append(pad);
        code.append("static ");
        code.append(static_name.as_str());
        code.append(
            ": std::sync::LazyLock<r_resources::BigDecimal> = std::sync::LazyLock::new(|| {\n",
        );
        code.append(pad);
        code.append("    r_resources::BigDecimal::from_str(\"");
        code.append(lit.as_str());
        code.append("\").expect(\"valid decimal literal\")\n");
        code.append(pad);
        code.append("});\n");
        assert(code@ =~= c0 + decimal_static(pad@, static_name@, its[i as int]));
        let mut r = "&".to_string();
        r.append(static_name.as_str());
        refs.push(r);
        i = i + 1;
        assert(code@ =~= doc@ + decimal_statics(pad@, name@, its, i as int));
    }
    assert(texts(refs@) =~= decimal_refs(name@, its.len()));
    code.append(pad);
    code.append("pub static ");
    code.append(name);
    code.append(": &[&std::sync::LazyLock<r_resources::BigDecimal>] = &[");
    code.append(join_strings(&refs, ", ").as_str());
    code.append("];\n");
    code
}

/// Whether the trimmed item is an integer literal that fits 64 signed
/// bits.
pub open spec fn fits_i64(item: Seq<char>) -> bool {
    integer_like(trimmed(item)) && integer_in(
        trimmed(item),
        true,
        -0x8000_0000_0000_0000,
        0x7fff_ffff_ffff_ffff,
    ).is_some()
}

/// Whether every item is an integer literal that fits 64 signed bits.
pub open spec fn all_fit_i64(items: Seq<Seq<char>>) -> bool {
    forall|i: int| 0 <= i < items.len() ==> fits_i64(#[trigger] items[i])
}

/// Whether the trimmed item is written with a fraction or an exponent.
pub open spec fn is_decimal_item(item: Seq<char>) -> bool {
    !integer_like(trimmed(item))
}

/// Whether some item is written with a fraction or an exponent.
pub open spec fn has_decimal(items: Seq<Seq<char>>) -> bool {
    exists|i: int| 0 <= i < items.len() && is_decimal_item(#[trigger] items[i])
}

/// Whether the trimmed item is a floating-point literal of at most 15
/// significant digits.
pub open spec fn is_precise_float(item: Seq<char>) -> bool {
    significant_digits(trimmed(item)) <= 15 && float_literal_text(trimmed(item)).is_some()
}

/// Whether every item is a floating-point literal of at most 15
/// significant digits.
pub open spec fn all_precise_floats(items: Seq<Seq<char>>) -> bool {
    forall|i: int| 0 <= i < items.len() ==> is_precise_float(#[trigger] items[i])
}

/// An item of an integer array in decimal notation.
pub open spec fn int_item(item: Seq<char>) -> Seq<char> {
    match integer_in(trimmed(item), true, -0x8000_0000_0000_0000, 0x7fff_ffff_ffff_ffff) {
        Some(v) => crate::text::int_text(v),
        None => trimmed(item),
    }
}

pub open spec fn int_items(items: Seq<Seq<char>>) -> Seq<Seq<char>> {
    Seq::new(items.len(), |i: int| int_item(items[i]))
}

/// An item of a float array in canonical notation.
pub open spec fn float_item(item: Seq<char>) -> Seq<char> {
    match float_literal_text(trimmed(item)) {
        Some(t) => t,
        None => trimmed(item),
    }
}

pub open spec fn float_items(items: Seq<Seq<char>>) -> Seq<Seq<char>> {
    Seq::new(items.len(), |i: int| float_item(items[i]))
}

/// A number array without a subtype. Where every item is an integer that
/// fits 64 signed bits, a slice of such integers. Where some item has a
/// fraction or an exponent and every item is a floating-point literal of
/// at most 15 significant digits, a slice of 64-bit floats. Otherwise an
/// arbitrary-precision array of the trimmed items, each of which the
/// decimal library must accept: the first that it does not is an error
/// that names it.
pub open spec fn auto_number_array(
    pad: Seq<char>,
    name: Seq<char>,
    items: Seq<Seq<char>>,
    doc: Seq<char>,
) -> Result<Seq<char>, Seq<char>> {
    if all_fit_i64(items) {
        Ok(slice_constant(doc, pad, name, "i64"@, int_items(items)))
    } else if has_decimal(items) && all_precise_floats(items) {
        Ok(slice_constant(doc, pad, name, "f64"@, float_items(items)))
    } else {
        match first_invalid_decimal(trimmed_items(items), 0) {
            Some(m) => Err(m),
            None => Ok(decimal_array(doc, pad, name, trimmed_items(items))),
        }
    }
}

fn item_fits_i64(item: &str) -> (r: Option<String>)
    ensures
        r.is_some() == fits_i64(item@),
        r.is_some() ==> r.unwrap()@ == int_item(item@),
{
    let t = trim(item);
    if !looks_like_integer(t.as_str()) {
        return None;
    }
    match parse_integer(
        &chars_of(t.as_str()),
        true,
        -0x8000_0000_0000_0000,
        0x7fff_ffff_ffff_ffff,
    ) {
        Some(v) => Some(crate::text::int_to_string(v as i64)),
        None => None,
    }
}

fn render_int_items(items: &Vec<String>) -> (r: Option<Vec<String>>)
    ensures
        r.is_some() == all_fit_i64(texts(items@)),
        r.is_some() ==> texts(r.unwrap()@) == int_items(texts(items@)),
{
    let ghost its = texts(items@);
    let mut out: Vec<String> = Vec::new();
    let mut i: usize = 0;
    while i < items.len()
        invariant
            i <= items@.len(),
            its == texts(items@),
            out@.len() == i,
            forall|j: int| 0 <= j < i ==> fits_i64(#[trigger] its[j]),
            forall|j: int| 0 <= j < i ==> out@[j]@ == int_item(items@[j]@),
        decreases items@.len() - i,
    {
        assert(its[i as int] == items@[i as int]@);
        match item_fits_i64(items[i].as_str()) {
            Some(s) => {
                out.push(s);
            },
            None => {
                assert(!fits_i64(its[i as int]));
                return None;
            },
        }
        i = i + 1;
    }
    assert(texts(out@) =~= int_items(its));
    Some(out)
}

fn any_decimal_item(items: &Vec<String>) -> (r: bool)
    ensures
        r == has_decimal(texts(items@)),
{
    let ghost its = texts(items@);
    let mut i: usize = 0;
    while i < items.len()
        invariant
            i <= items@.len(),
            its == texts(items@),
            forall|j: int| 0 <= j < i ==> !is_decimal_item(#[trigger] its[j]),
        decreases items@.len() - i,
    {
        assert(its[i as int] == items@[i as int]@);
        let t = trim(items[i].as_str());
        if !looks_like_integer(t.as_str()) {
            assert(is_decimal_item(its[i as int]));
            return true;
        }
        i = i + 1;
    }
    false
}

fn render_float_items(items: &Vec<String>) -> (r: Option<Vec<String>>)
    ensures
        r.is_some() == all_precise_floats(texts(items@)),
        r.is_some() ==> texts(r.unwrap()@) == float_items(texts(items@)),
{
    let ghost its = texts(items@);
    let mut out: Vec<String> = Vec::new();
    let mut i: usize = 0;
    while i < items.len()
        invariant
            i <= items@.len(),
            its == texts(items@),
            out@.len() == i,
            forall|j: int| 0 <= j < i ==> is_precise_float(#[trigger] its[j]),
            forall|j: int| 0 <= j < i ==> out@[j]@ == float_item(items@[j]@),
        decreases items@.len() - i,
    {
        assert(its[i as int] == items@[i as int]@);
        let t = trim(items[i].as_str());
        if count_significant_digits(t.as_str()) > 15 {
            assert(!is_precise_float(its[i as int]));
            return None;
        }
        match canonical_float(t.as_str()) {
            Some(f) => {
                out.push(f);
            },
            None => {
                assert(!is_precise_float(its[i as int]));
                return None;
            },
        }
        i = i + 1;
    }
    assert(texts(out@) =~= float_items(its));
    Some(out)
}

/// Emits a number array whose type is chosen from its items.
pub fn emit_auto_number_array(pad: &str, const_name: String, items: &Vec<String>, doc_str: &str)
    -> (r: Result<String, String>)
    ensures
        crate::parser::text_result(r) == auto_number_array(
            pad@,
            const_name@,
            texts(items@),
            doc_str@,
        ),
{
    match render_int_items(items) {
        Some(rendered) => {
            return Ok(emit_slice(doc_str, pad, const_name.as_str(), "i64", &rendered));
        },
        None => {},
    }
    if any_decimal_item(items) {
        match render_float_items(items) {
            Some(rendered) => {
                return Ok(emit_slice(doc_str, pad, const_name.as_str(), "f64", &rendered));
            },
            None => {},
        }
    }
    let rendered = trim_items(items);
    match check_decimals(&rendered) {
        Some(m) => Err(m),
        None => Ok(emit_decimal_array(doc_str, pad, const_name.as_str(), &rendered)),
    }
}

/// The declaration generated for an array with the given element type,
/// subtype and items. An element type other than `string`, `number`,
/// `bool` and `color` has none. In a number array every item must be a
/// number of the subtype, or of the type chosen from the items: the first
/// that is not is an error that names it.
pub open spec fn array_text(
    element_type: Seq<char>,
    spec: Option<Seq<char>>,
    items: Seq<Seq<char>>,
    doc: Seq<char>,
    pad: Seq<char>,
    name: Seq<char>,
) -> Result<Option<Seq<char>>, Seq<char>> {
    if element_type == "string"@ || element_type == "color"@ {
        Ok(Some(slice_constant(doc, pad, name, "&str"@, quoted_items(items))))
    } else if element_type == "number"@ {
        match spec {
            Some(s) => match number_type_of(s) {
                Some(ty) => match typed_from(items, ty, 0) {
                    Ok(literals) => Ok(Some(slice_constant(doc, pad, name, s, literals))),
                    Err(m) => Err(m),
                },
                None => if s == "bigdecimal"@ {
                    match first_invalid_decimal(items, 0) {
                        Some(m) => Err(m),
                        None => Ok(Some(decimal_array(doc, pad, name, items))),
                    }
                } else {
                    match auto_number_array(pad, name, items, doc) {
                        Ok(text) => Ok(Some(text)),
                        Err(m) => Err(m),
                    }
                },
            },
            None => match auto_number_array(pad, name, items, doc) {
                Ok(text) => Ok(Some(text)),
                Err(m) => Err(m),
            },
        }
    } else if element_type == "bool"@ {
        Ok(Some(slice_constant(doc, pad, name, "bool"@, bool_items(items))))
    } else {
        Ok(None)
    }
}

/// The view of the result of emitting an array.
pub open spec fn array_result(r: Result<Option<String>, String>) -> Result<
    Option<Seq<char>>,
    Seq<char>,
> {
    match r {
        Ok(Some(text)) => Ok(Some(text@)),
        Ok(None) => Ok(None),
        Err(m) => Err(m@),
    }
}

/// Emits the declaration of an array.
pub fn emit_array(
    element_type: &str,
    spec: &Option<String>,
    items: &Vec<String>,
    doc: &str,
    pad: &str,
    name: &str,
) -> (r: Result<Option<String>, String>)
    ensures
        array_result(r) == array_text(
            element_type@,
            crate::utils::opt_text(*spec),
            texts(items@),
            doc@,
            pad@,
            name@,
        ),
{
    if str_eq(element_type, "string") || str_eq(element_type, "color") {
        let rendered = quote_items(items);
        Ok(Some(emit_slice(doc, pad, name, "&str", &rendered)))
    } else if str_eq(element_type, "number") {
        let auto = match spec {
            Some(s) => match number_type_from_name(s.as_str()) {
                Some(ty) => {
                    return match render_typed_items(items, ty, s.as_str()) {
                        Ok(rendered) => Ok(Some(emit_slice(doc, pad, name, s.as_str(), &rendered))),
                        Err(m) => Err(m),
                    };
                },
                None => {
                    if str_eq(s.as_str(), "bigdecimal") {
                        return match check_decimals(items) {
                            Some(m) => Err(m),
                            None => Ok(Some(emit_decimal_array(doc, pad, name, items))),
                        };
                    }
                    emit_auto_number_array(pad, name.to_string(), items, doc)
                },
            },
            None => emit_auto_number_array(pad, name.to_string(), items, doc),
        };
        match auto {
            Ok(text) => Ok(Some(text)),
            Err(m) => Err(m),
        }
    } else if str_eq(element_type, "bool") {
        let rendered = render_bool_items(items);
        Ok(Some(emit_slice(doc, pad, name, "bool", &rendered)))
    } else {
        Ok(None)
    }
}

/// What is wrong with the items of an array, if anything: the message for
/// the first item of a number array that is no number of its type.
pub open spec fn array_error(
    element_type: Seq<char>,
    spec: Option<Seq<char>>,
    items: Seq<Seq<char>>,
) -> Option<Seq<char>> {
    match array_text(element_type, spec, items, Seq::empty(), Seq::empty(), Seq::empty()) {
        Err(m) => Some(m),
        Ok(_) => None,
    }
}

/// Checks the items of an array against its element type and subtype.
pub fn check_array(element_type: &str, spec: &Option<String>, items: &Vec<String>) -> (r: Option<
    String,
>)
    ensures
        crate::utils::opt_text(r) == array_error(
            element_type@,
            crate::utils::opt_text(*spec),
            texts(items@),
        ),
{
    let nothing = String::new();
    match emit_array(element_type, spec, items, nothing.as_str(), nothing.as_str(), nothing.as_str()) {
        Err(m) => Some(m),
        Ok(_) => None,
    }
}

} // verus!
