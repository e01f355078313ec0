//! The numeric classifier: from a literal and an optional explicit type to
//! the representation that the generated code uses.
use vstd::prelude::*;
use std::str::FromStr;
use bigdecimal::BigDecimal;
use crate::text::{
    ascii_lower, chars_of, int_text, int_to_string, push_char, string_of_range,
    to_ascii_lowercase, trim, trimmed,
};
use crate::types::{number_type_name, NumberType, NumberValue, NumberView};

verus! {

/// Whether `bigdecimal::BigDecimal::from_str` accepts the text.
pub uninterp spec fn is_decimal_literal(s: Seq<char>) -> bool;

/// `BigDecimal::from_str`: whether the text parses as an arbitrary-precision
/// decimal. The answer depends on the text alone and is known to the
/// contracts by the name `is_decimal_literal`.
#[verifier::external_body]
pub(crate) fn decimal_accepts(s: &str) -> (b: bool)
    ensures
        b == is_decimal_literal(s@),
{
    BigDecimal::from_str(s).is_ok()
}

/// Whether a literal is written without fraction and exponent.
pub open spec fn integer_like(l: Seq<char>) -> bool {
    !(l.contains('.') || l.contains('e') || l.contains('E'))
}

pub fn looks_like_integer(literal: &str) -> (r: bool)
    ensures
        r == integer_like(literal@),
{
    !(crate::text::contains_char(literal, '.') || crate::text::contains_char(literal, 'e')
        || crate::text::contains_char(literal, 'E'))
}

pub open spec fn is_digit(c: char) -> bool {
    '0' <= c && c <= '9'
}

/// The number that a decimal digit stands for.
pub open spec fn digit_value(c: char) -> int {
    c as int - '0' as int
}

/// The first position at or after `i` that holds no digit.
pub open spec fn digits_end(s: Seq<char>, i: int) -> int
    decreases s.len() - i,
{
    if i < 0 || i >= s.len() {
        i
    } else if is_digit(s[i]) {
        digits_end(s, i + 1)
    } else {
        i
    }
}

/// The number that a run of digits denotes.
pub open spec fn digits_value(s: Seq<char>) -> nat
    decreases s.len(),
{
    if s.len() == 0 {
        0
    } else {
        (digits_value(s.drop_last()) * 10 + digit_value(s.last())) as nat
    }
}

/// The integer that a literal denotes: an optional sign (a minus only for
/// a signed type) and one or more digits, nothing else.
pub open spec fn integer_literal(s: Seq<char>, signed: bool) -> Option<int> {
    let negative = signed && s.len() > 0 && s[0] == '-';
    let start: int = if s.len() > 0 && (s[0] == '+' || negative) {
        1
    } else {
        0
    };
    if start < s.len() && digits_end(s, start) == s.len() {
        let magnitude = digits_value(s.subrange(start, s.len() as int));
        Some(
            if negative {
                -(magnitude as int)
            } else {
                magnitude as int
            },
        )
    } else {
        None
    }
}

/// The integer that a literal denotes, where it lies in `lo..=hi`.
pub open spec fn integer_in(s: Seq<char>, signed: bool, lo: int, hi: int) -> Option<int> {
    match integer_literal(s, signed) {
        Some(v) => if lo <= v <= hi {
            Some(v)
        } else {
            None
        },
        None => None,
    }
}

fn digit_of_char(c: char) -> (r: Option<u64>)
    ensures
        match r {
            Some(d) => is_digit(c) && d == digit_value(c) && d < 10,
            None => !is_digit(c),
        },
{
    if '0' <= c && c <= '9' {
        Some((c as u32 - '0' as u32) as u64)
    } else {
        None
    }
}

/// Reads an integer literal whose value must lie in `lo..=hi`.
pub(crate) fn parse_integer(v: &Vec<char>, signed: bool, lo: i128, hi: i128) -> (r: Option<i128>)
    requires
        -0x8000_0000_0000_0000 <= lo <= hi <= 0xffff_ffff_ffff_ffff,
    ensures
        match integer_in(v@, signed, lo as int, hi as int) {
            Some(x) => r == Some(x as i128),
            None => r.is_none(),
        },
{
    let n = v.len();
    let negative = signed && n > 0 && v[0] == '-';
    let start: usize = if n > 0 && (v[0] == '+' || negative) {
        1
    } else {
        0
    };
    if start >= n {
        return None;
    }
    let cap: u128 = 0x1_0000_0000_0000_0000;
    let mut acc: u128 = 0;
    let mut i: usize = start;
    assert(v@.subrange(start as int, start as int) =~= Seq::<char>::empty());
    while i < n
        invariant
            n == v@.len(),
            start <= i <= n,
            start < n,
            start as int == if v@.len() > 0 && (v@[0] == '+' || (signed && v@[0] == '-')) {
                1int
            } else {
                0int
            },
            cap == 0x1_0000_0000_0000_0000,
            digits_end(v@, start as int) == digits_end(v@, i as int),
            acc <= cap,
            acc as int == if digits_value(v@.subrange(start as int, i as int)) < cap {
                digits_value(v@.subrange(start as int, i as int)) as int
            } else {
                cap as int
            },
        decreases n - i,
    {
        let d = match digit_of_char(v[i]) {
            Some(d) => d,
            None => {
                assert(digits_end(v@, i as int) == i);
                return None;
            },
        };
        proof {
            let next = v@.subrange(start as int, i + 1);
            assert(next.drop_last() =~= v@.subrange(start as int, i as int));
            assert(next.last() == v@[i as int]);
        }
        let grown: u128 = acc * 10 + d as u128;
        acc = if grown < cap {
            grown
        } else {
            cap
        };
        i = i + 1;
    }
    if acc >= cap {
        return None;
    }
    let value: i128 = if negative {
        -(acc as i128)
    } else {
        acc as i128
    };
    if lo <= value && value <= hi {
        Some(value)
    } else {
        None
    }
}

/// The number of digits before the exponent, the count by which a literal
/// is judged too precise for a 64-bit float.
pub open spec fn significant_digits(s: Seq<char>) -> nat
    decreases s.len(),
{
    if s.len() == 0 {
        0
    } else if s[0] == 'e' || s[0] == 'E' {
        0
    } else if is_digit(s[0]) {
        1 + significant_digits(s.skip(1))
    } else {
        significant_digits(s.skip(1))
    }
}

pub fn count_significant_digits(literal: &str) -> (r: usize)
    ensures
        r == significant_digits(literal@),
{
    let v = chars_of(literal);
    let n = v.len();
    let mut digits: usize = 0;
    let mut i: usize = 0;
    assert(v@.skip(0) =~= v@);
    while i < n
        invariant
            n == v@.len(),
            v@ == literal@,
            i <= n,
            digits <= i,
            digits + significant_digits(v@.skip(i as int)) == significant_digits(v@),
        decreases n - i,
    {
        let c = v[i];
        proof {
            assert(v@.skip(i as int)[0] == c);
            assert(v@.skip(i as int).skip(1) =~= v@.skip(i + 1));
        }
        if c == 'e' || c == 'E' {
            return digits;
        }
        if '0' <= c && c <= '9' {
            digits = digits + 1;
        }
        i = i + 1;
    }
    digits
}


/// The pieces of a literal with a fraction or an exponent.
pub struct FloatParts {
    pub negative: bool,
    /// The digits before the decimal point.
    pub int_digits: Seq<char>,
    /// The digits after the decimal point.
    pub frac_digits: Seq<char>,
    /// Whether the exponent is negative, and its digits.
    pub exponent: Option<(bool, Seq<char>)>,
}

/// Where the pieces of a floating-point literal stand in its text.
pub struct FloatLayout {
    pub negative: bool,
    /// The integer digits are `s[i0..i1]`.
    pub i0: int,
    pub i1: int,
    /// The fraction digits are `s[f0..f1]`.
    pub f0: int,
    pub f1: int,
    /// Whether the exponent is negative, and where its digits stand.
    pub exponent: Option<(bool, int, int)>,
}

/// The layout of a floating-point literal: an optional sign; digits, a
/// decimal point and digits, with a digit on at least one side; and an
/// optional exponent of `e` or `E`, an optional sign and one or more
/// digits. Anything else is no such literal.
pub open spec fn float_layout(s: Seq<char>) -> Option<FloatLayout> {
    let negative = s.len() > 0 && s[0] == '-';
    let i0: int = if s.len() > 0 && (s[0] == '+' || s[0] == '-') {
        1
    } else {
        0
    };
    let i1 = digits_end(s, i0);
    let has_dot = i1 < s.len() && s[i1] == '.';
    let f0 = if has_dot {
        i1 + 1
    } else {
        i1
    };
    let f1 = if has_dot {
        digits_end(s, f0)
    } else {
        f0
    };
    if i1 - i0 + (f1 - f0) <= 0 {
        None
    } else if f1 >= s.len() {
        Some(FloatLayout { negative, i0, i1, f0, f1, exponent: None })
    } else if s[f1] == 'e' || s[f1] == 'E' {
        let e0 = f1 + 1;
        let exp_negative = e0 < s.len() && s[e0] == '-';
        let d0 = if e0 < s.len() && (s[e0] == '+' || s[e0] == '-') {
            e0 + 1
        } else {
            e0
        };
        let d1 = digits_end(s, d0);
        if d1 > d0 && d1 == s.len() {
            Some(FloatLayout { negative, i0, i1, f0, f1, exponent: Some((exp_negative, d0, d1)) })
        } else {
            None
        }
    } else {
        None
    }
}

/// The pieces that a layout cuts out of the text.
pub open spec fn parts_of(s: Seq<char>, l: FloatLayout) -> FloatParts {
    FloatParts {
        negative: l.negative,
        int_digits: s.subrange(l.i0, l.i1),
        frac_digits: s.subrange(l.f0, l.f1),
        exponent: match l.exponent {
            Some((negative, d0, d1)) => Some((negative, s.subrange(d0, d1))),
            None => None,
        },
    }
}

/// The pieces of a text that is a floating-point literal.
pub open spec fn float_parts(s: Seq<char>) -> Option<FloatParts> {
    match float_layout(s) {
        Some(l) => Some(parts_of(s, l)),
        None => None,
    }
}

/// The digits without leading zeros.
pub open spec fn strip_leading_zeros(d: Seq<char>) -> Seq<char>
    decreases d.len(),
{
    if d.len() > 0 && d[0] == '0' {
        strip_leading_zeros(d.skip(1))
    } else {
        d
    }
}

/// The digits without trailing zeros.
pub open spec fn strip_trailing_zeros(d: Seq<char>) -> Seq<char>
    decreases d.len(),
{
    if d.len() > 0 && d.last() == '0' {
        strip_trailing_zeros(d.drop_last())
    } else {
        d
    }
}

/// The digits, or a single zero where there are none.
pub open spec fn or_zero(d: Seq<char>) -> Seq<char> {
    if d.len() == 0 {
        seq!['0']
    } else {
        d
    }
}

/// The exponent in canonical notation; an exponent of zero is left out.
pub open spec fn exponent_text(e: Option<(bool, Seq<char>)>) -> Seq<char> {
    match e {
        None => Seq::empty(),
        Some((negative, digits)) => {
            let d = strip_leading_zeros(digits);
            if d.len() == 0 {
                Seq::empty()
            } else if negative {
                seq!['e', '-'] + d
            } else {
                seq!['e'] + d
            }
        },
    }
}

/// The canonical notation of a floating-point literal: a minus sign where
/// it is negative, the integer digits without leading zeros, a decimal
/// point, the fraction digits without trailing zeros, and the exponent
/// where it is not zero. Both sides of the point hold at least one digit,
/// so the notation is a floating-point literal of the generated language.
pub open spec fn float_text(p: FloatParts) -> Seq<char> {
    (if p.negative {
        seq!['-']
    } else {
        Seq::empty()
    }) + or_zero(strip_leading_zeros(p.int_digits)) + seq!['.'] + or_zero(
        strip_trailing_zeros(p.frac_digits),
    ) + exponent_text(p.exponent)
}

/// The canonical notation always holds a decimal point, with a digit on
/// either side of it: a float is never written like an integer.
pub proof fn lemma_float_text_has_decimal_point(p: FloatParts)
    ensures
        float_text(p).contains('.'),
        exists|i: int| 0 < i < float_text(p).len() - 1 && float_text(p)[i] == '.',
{
    let sign: Seq<char> = if p.negative {
        seq!['-']
    } else {
        Seq::empty()
    };
    let int_part = or_zero(strip_leading_zeros(p.int_digits));
    let frac_part = or_zero(strip_trailing_zeros(p.frac_digits));
    let i = sign.len() + int_part.len();
    assert(float_text(p)[i as int] == '.');
    assert(int_part.len() > 0);
    assert(frac_part.len() > 0);
}

/// The canonical notation of a text that is a floating-point literal.
pub open spec fn float_literal_text(s: Seq<char>) -> Option<Seq<char>> {
    match float_parts(s) {
        Some(p) => Some(float_text(p)),
        None => None,
    }
}

proof fn lemma_strip_leading(d: Seq<char>, k: int)
    requires
        0 <= k <= d.len(),
        forall|i: int| 0 <= i < k ==> d[i] == '0',
        k == d.len() || d[k] != '0',
    ensures
        strip_leading_zeros(d) == d.skip(k),
    decreases k,
{
    if k == 0 {
        assert(d.skip(0) =~= d);
    } else {
        let t = d.skip(1);
        assert forall|i: int| 0 <= i < k - 1 implies t[i] == '0' by {
            assert(t[i] == d[i + 1]);
        }
        lemma_strip_leading(t, k - 1);
        assert(t.skip(k - 1) =~= d.skip(k));
    }
}

proof fn lemma_strip_trailing(d: Seq<char>, k: int)
    requires
        0 <= k <= d.len(),
        forall|i: int| k <= i < d.len() ==> d[i] == '0',
        k == 0 || d[k - 1] != '0',
    ensures
        strip_trailing_zeros(d) == d.take(k),
    decreases d.len() - k,
{
    if k == d.len() {
        assert(d.take(k) =~= d);
    } else {
        let t = d.drop_last();
        lemma_strip_trailing(t, k);
        assert(t.take(k) =~= d.take(k));
    }
}

fn scan_digits(v: &Vec<char>, from: usize) -> (end: usize)
    requires
        from <= v@.len(),
    ensures
        end == digits_end(v@, from as int),
        from <= end <= v@.len(),
{
    let n = v.len();
    let mut i: usize = from;
    while i < n && '0' <= v[i] && v[i] <= '9'
        invariant
            n == v@.len(),
            from <= i <= n,
            digits_end(v@, from as int) == digits_end(v@, i as int),
        decreases n - i,
    {
        i = i + 1;
    }
    i
}

/// Appends `v[a..b]` without its leading zeros, or a zero where nothing is
/// left.
fn push_without_leading_zeros(out: &mut String, v: &Vec<char>, a: usize, b: usize, keep_one: bool)
    requires
        a <= b <= v@.len(),
    ensures
        final(out)@ == old(out)@ + if keep_one {
            or_zero(strip_leading_zeros(v@.subrange(a as int, b as int)))
        } else {
            strip_leading_zeros(v@.subrange(a as int, b as int))
        },
{
    let mut k: usize = a;
    while k < b && v[k] == '0'
        invariant
            a <= k <= b <= v@.len(),
            forall|i: int| a <= i < k ==> v@[i] == '0',
        decreases b - k,
    {
        k = k + 1;
    }
    proof {
        let d = v@.subrange(a as int, b as int);
        lemma_strip_leading(d, k - a);
        assert(d.skip(k - a) =~= v@.subrange(k as int, b as int));
    }
    if k == b && keep_one {
        push_char(out, '0');
        assert(final(out)@ =~= old(out)@ + seq!['0']);
    } else {
        let part = string_of_range(v, k, b);
        out.append(part.as_str());
    }
}

/// Appends `v[a..b]` without its trailing zeros, or a zero where nothing is
/// left.
fn push_without_trailing_zeros(out: &mut String, v: &Vec<char>, a: usize, b: usize)
    requires
        a <= b <= v@.len(),
    ensures
        final(out)@ == old(out)@ + or_zero(strip_trailing_zeros(v@.subrange(a as int, b as int))),
{
    let mut k: usize = b;
    while k > a && v[k - 1] == '0'
        invariant
            a <= k <= b <= v@.len(),
            forall|i: int| k <= i < b ==> v@[i] == '0',
        decreases k,
    {
        k = k - 1;
    }
    proof {
        let d = v@.subrange(a as int, b as int);
        assert forall|i: int| k - a <= i < d.len() implies d[i] == '0' by {
            assert(d[i] == v@[i + a]);
        }
        lemma_strip_trailing(d, k - a);
        assert(d.take(k - a) =~= v@.subrange(a as int, k as int));
    }
    if k == a {
        push_char(out, '0');
        assert(final(out)@ =~= old(out)@ + seq!['0']);
    } else {
        let part = string_of_range(v, a, k);
        out.append(part.as_str());
    }
}

struct Scanned {
    negative: bool,
    i0: usize,
    i1: usize,
    f0: usize,
    f1: usize,
    exponent: Option<(bool, usize, usize)>,
}

impl View for Scanned {
    type V = FloatLayout;

    closed spec fn view(&self) -> FloatLayout {
        FloatLayout {
            negative: self.negative,
            i0: self.i0 as int,
            i1: self.i1 as int,
            f0: self.f0 as int,
            f1: self.f1 as int,
            exponent: match self.exponent {
                Some((negative, d0, d1)) => Some((negative, d0 as int, d1 as int)),
                None => None,
            },
        }
    }
}

impl Scanned {
    spec fn fits(&self, len: nat) -> bool {
        &&& self.i0 <= self.i1 <= len
        &&& self.f0 <= self.f1 <= len
        &&& match self.exponent {
            Some((_, d0, d1)) => d0 <= d1 <= len,
            None => true,
        }
    }
}

fn scan_float(v: &Vec<char>) -> (r: Option<Scanned>)
    ensures
        match float_layout(v@) {
            Some(l) => r.is_some() && r.unwrap()@ == l && r.unwrap().fits(v@.len()),
            None => r.is_none(),
        },
{
    let n = v.len();
    let negative = n > 0 && v[0] == '-';
    let i0: usize = if n > 0 && (v[0] == '+' || v[0] == '-') {
        1
    } else {
        0
    };
    let i1 = scan_digits(v, i0);
    let has_dot = i1 < n && v[i1] == '.';
    let f0 = if has_dot {
        i1 + 1
    } else {
        i1
    };
    let f1 = if has_dot {
        scan_digits(v, f0)
    } else {
        f0
    };
    if (i1 - i0) + (f1 - f0) == 0 {
        return None;
    }
    if f1 >= n {
        return Some(Scanned { negative, i0, i1, f0, f1, exponent: None });
    }
    if v[f1] == 'e' || v[f1] == 'E' {
        let e0 = f1 + 1;
        let exp_negative = e0 < n && v[e0] == '-';
        let d0 = if e0 < n && (v[e0] == '+' || v[e0] == '-') {
            e0 + 1
        } else {
            e0
        };
        let d1 = scan_digits(v, d0);
        if d1 > d0 && d1 == n {
            Some(Scanned { negative, i0, i1, f0, f1, exponent: Some((exp_negative, d0, d1)) })
        } else {
            None
        }
    } else {
        None
    }
}

fn render_exponent(out: &mut String, v: &Vec<char>, exponent: Option<(bool, usize, usize)>)
    requires
        match exponent {
            Some((_, d0, d1)) => d0 <= d1 <= v@.len(),
            None => true,
        },
    ensures
        final(out)@ == old(out)@ + exponent_text(
            match exponent {
                Some((negative, d0, d1)) => Some((negative, v@.subrange(d0 as int, d1 as int))),
                None => None,
            },
        ),
{
    match exponent {
        Some((exp_negative, d0, d1)) => {
            let mut e = String::new();
            push_without_leading_zeros(&mut e, v, d0, d1, false);
            assert(e@ =~= strip_leading_zeros(v@.subrange(d0 as int, d1 as int)));
            if e.as_str().unicode_len() > 0 {
                push_char(out, 'e');
                if exp_negative {
                    push_char(out, '-');
                    out.append(e.as_str());
                    assert(final(out)@ =~= old(out)@ + (seq!['e', '-'] + e@));
                } else {
                    out.append(e.as_str());
                    assert(final(out)@ =~= old(out)@ + (seq!['e'] + e@));
                }
            } else {
                assert(final(out)@ =~= old(out)@ + Seq::<char>::empty());
            }
        },
        None => {
            assert(final(out)@ =~= old(out)@ + Seq::<char>::empty());
        },
    }
}

fn render_float(v: &Vec<char>, sc: &Scanned) -> (r: String)
    requires
        sc.fits(v@.len()),
    ensures
        r@ == float_text(parts_of(v@, sc@)),
{
    let mut out = String::new();
    if sc.negative {
        push_char(&mut out, '-');
    }
    assert(out@ =~= if sc.negative {
        seq!['-']
    } else {
        Seq::empty()
    });
    push_without_leading_zeros(&mut out, v, sc.i0, sc.i1, true);
    push_char(&mut out, '.');
    push_without_trailing_zeros(&mut out, v, sc.f0, sc.f1);
    render_exponent(&mut out, v, sc.exponent);
    out
}

/// Checks that a text is a floating-point literal and gives its canonical
/// notation.
pub fn canonical_float(literal: &str) -> (r: Option<String>)
    ensures
        match float_literal_text(literal@) {
            Some(t) => r.is_some() && r.unwrap()@ == t,
            None => r.is_none(),
        },
{
    let v = chars_of(literal);
    match scan_float(&v) {
        Some(sc) => Some(render_float(&v, &sc)),
        None => None,
    }
}


/// The explicit integer or floating-point type with the given name.
pub open spec fn number_type_of(name: Seq<char>) -> Option<NumberType> {
    if name == "i8"@ {
        Some(NumberType::I8)
    } else if name == "i16"@ {
        Some(NumberType::I16)
    } else if name == "i32"@ {
        Some(NumberType::I32)
    } else if name == "i64"@ {
        Some(NumberType::I64)
    } else if name == "u8"@ {
        Some(NumberType::U8)
    } else if name == "u16"@ {
        Some(NumberType::U16)
    } else if name == "u32"@ {
        Some(NumberType::U32)
    } else if name == "u64"@ {
        Some(NumberType::U64)
    } else if name == "f32"@ {
        Some(NumberType::F32)
    } else if name == "f64"@ {
        Some(NumberType::F64)
    } else {
        None
    }
}

/// Looks up an explicit type by its name.
pub fn number_type_from_name(name: &str) -> (r: Option<NumberType>)
    ensures
        r == number_type_of(name@),
{
    if crate::text::str_eq(name, "i8") {
        Some(NumberType::I8)
    } else if crate::text::str_eq(name, "i16") {
        Some(NumberType::I16)
    } else if crate::text::str_eq(name, "i32") {
        Some(NumberType::I32)
    } else if crate::text::str_eq(name, "i64") {
        Some(NumberType::I64)
    } else if crate::text::str_eq(name, "u8") {
        Some(NumberType::U8)
    } else if crate::text::str_eq(name, "u16") {
        Some(NumberType::U16)
    } else if crate::text::str_eq(name, "u32") {
        Some(NumberType::U32)
    } else if crate::text::str_eq(name, "u64") {
        Some(NumberType::U64)
    } else if crate::text::str_eq(name, "f32") {
        Some(NumberType::F32)
    } else if crate::text::str_eq(name, "f64") {
        Some(NumberType::F64)
    } else {
        None
    }
}

/// Whether the type holds integers, and then whether it is signed and its
/// least and greatest value.
pub open spec fn integer_bounds(ty: NumberType) -> Option<(bool, int, int)> {
    match ty {
        NumberType::I8 => Some((true, -0x80, 0x7f)),
        NumberType::I16 => Some((true, -0x8000, 0x7fff)),
        NumberType::I32 => Some((true, -0x8000_0000, 0x7fff_ffff)),
        NumberType::I64 => Some((true, -0x8000_0000_0000_0000, 0x7fff_ffff_ffff_ffff)),
        NumberType::U8 => Some((false, 0, 0xff)),
        NumberType::U16 => Some((false, 0, 0xffff)),
        NumberType::U32 => Some((false, 0, 0xffff_ffff)),
        NumberType::U64 => Some((false, 0, 0xffff_ffff_ffff_ffff)),
        NumberType::F32 => None,
        NumberType::F64 => None,
    }
}

fn bounds_of(ty: NumberType) -> (r: Option<(bool, i128, i128)>)
    ensures
        match integer_bounds(ty) {
            Some((signed, lo, hi)) => r == Some((signed, lo as i128, hi as i128))
                && -0x8000_0000_0000_0000 <= lo <= hi <= 0xffff_ffff_ffff_ffff,
            None => r.is_none(),
        },
{
    match ty {
        NumberType::I8 => Some((true, -0x80, 0x7f)),
        NumberType::I16 => Some((true, -0x8000, 0x7fff)),
        NumberType::I32 => Some((true, -0x8000_0000, 0x7fff_ffff)),
        NumberType::I64 => Some((true, -0x8000_0000_0000_0000, 0x7fff_ffff_ffff_ffff)),
        NumberType::U8 => Some((false, 0, 0xff)),
        NumberType::U16 => Some((false, 0, 0xffff)),
        NumberType::U32 => Some((false, 0, 0xffff_ffff)),
        NumberType::U64 => Some((false, 0, 0xffff_ffff_ffff_ffff)),
        NumberType::F32 => None,
        NumberType::F64 => None,
    }
}

/// A literal that needs arbitrary precision: kept as written where the
/// decimal library accepts it, an error that names it otherwise.
pub open spec fn decimal_number(l: Seq<char>) -> Result<NumberView, Seq<char>> {
    if is_decimal_literal(l) {
        Ok(NumberView::BigDecimal(l))
    } else {
        Err("Invalid number literal '"@ + l + "'"@)
    }
}

pub fn parse_big_decimal(literal: &str) -> (r: Result<NumberValue, String>)
    ensures
        number_result(r) == decimal_number(literal@),
{
    if decimal_accepts(literal) {
        Ok(NumberValue::BigDecimal(literal.to_string()))
    } else {
        let mut m = "Invalid number literal '".to_string();
        m.append(literal);
        m.append("'");
        Err(m)
    }
}

/// The view of a classification result.
pub open spec fn number_result(r: Result<NumberValue, String>) -> Result<NumberView, Seq<char>> {
    match r {
        Ok(v) => Ok(v@),
        Err(m) => Err(m@),
    }
}

/// A literal of an explicit type. An integer must be well formed and lie
/// in the range of the type, and is written in decimal without sign or
/// leading zeros beyond need; a floating-point literal must be well formed
/// and is written in canonical notation. The error names the literal and
/// the type.
pub open spec fn typed_number(t: Seq<char>, ty: NumberType) -> Result<NumberView, Seq<char>> {
    match integer_bounds(ty) {
        Some((signed, lo, hi)) => match integer_in(t, signed, lo, hi) {
            Some(v) => Ok(NumberView::Typed { literal: int_text(v), ty }),
            None => Err("'"@ + t + "' does not fit in "@ + number_type_name(ty)),
        },
        None => match float_literal_text(t) {
            Some(text) => Ok(NumberView::Typed { literal: text, ty }),
            None => Err("'"@ + t + "' is not a valid "@ + number_type_name(ty) + " literal"@),
        },
    }
}

pub(crate) fn parse_typed(t: &str, ty: NumberType) -> (r: Result<NumberValue, String>)
    ensures
        number_result(r) == typed_number(t@, ty),
{
    match bounds_of(ty) {
        Some((signed, lo, hi)) => {
            let v = chars_of(t);
            match parse_integer(&v, signed, lo, hi) {
                Some(value) => {
                    let literal = if value < 0 {
                        int_to_string(value as i64)
                    } else {
                        crate::text::nat_to_string(value as u64)
                    };
                    Ok(NumberValue::Typed { literal, ty })
                },
                None => {
                    let mut m = "'".to_string();
                    m.append(t);
                    m.append("' does not fit in ");
                    m.append(ty.as_str());
                    Err(m)
                },
            }
        },
        None => match canonical_float(t) {
            Some(literal) => Ok(NumberValue::Typed { literal, ty }),
            None => {
                let mut m = "'".to_string();
                m.append(t);
                m.append("' is not a valid ");
                m.append(ty.as_str());
                m.append(" literal");
                Err(m)
            },
        },
    }
}

/// A literal with an explicit type. The type's name is trimmed and read
/// without regard to ASCII case: one of the integer and floating-point
/// types, or `bigdecimal`; any other name is an error that names it.
pub open spec fn explicit_number(l: Seq<char>, hint: Seq<char>) -> Result<NumberView, Seq<char>> {
    let name = ascii_lower(trimmed(hint));
    match number_type_of(name) {
        Some(ty) => typed_number(trimmed(l), ty),
        None => if name == "bigdecimal"@ {
            decimal_number(l)
        } else {
            Err("Unsupported number type '"@ + name + "'"@)
        },
    }
}

pub fn parse_explicit_number(literal: &str, type_hint: &str) -> (r: Result<NumberValue, String>)
    ensures
        number_result(r) == explicit_number(literal@, type_hint@),
{
    let hint = trim(type_hint);
    let name = to_ascii_lowercase(hint.as_str());
    match number_type_from_name(name.as_str()) {
        Some(ty) => {
            let t = trim(literal);
            parse_typed(t.as_str(), ty)
        },
        None => {
            if crate::text::str_eq(name.as_str(), "bigdecimal") {
                parse_big_decimal(literal)
            } else {
                let mut m = "Unsupported number type '".to_string();
                m.append(name.as_str());
                m.append("'");
                Err(m)
            }
        },
    }
}

/// A literal without an explicit type. Written without fraction and
/// exponent, it is a 64-bit signed integer where it fits. Written with
/// one, it is a 64-bit float where it is a well-formed literal of at most
/// 15 significant digits. Everything else needs arbitrary precision.
pub open spec fn untyped_number(l: Seq<char>) -> Result<NumberView, Seq<char>> {
    if integer_like(l) {
        match integer_in(l, true, -0x8000_0000_0000_0000, 0x7fff_ffff_ffff_ffff) {
            Some(v) => Ok(NumberView::Int(v as i64)),
            None => decimal_number(l),
        }
    } else {
        match float_literal_text(l) {
            Some(t) => if significant_digits(l) <= 15 {
                Ok(NumberView::Float(t))
            } else {
                decimal_number(l)
            },
            None => decimal_number(l),
        }
    }
}

/// What the classes of an untyped literal mean: an integer is the value
/// that the literal denotes, within 64 signed bits; a float is written with
/// a fraction or exponent, has at most 15 significant digits and keeps a
/// decimal point; an arbitrary-precision number is the literal as written,
/// accepted by the decimal library.
pub proof fn lemma_untyped_classes(l: Seq<char>)
    ensures
        match untyped_number(l) {
            Ok(NumberView::Int(v)) => integer_like(l) && integer_literal(l, true) == Some(v as int),
            Ok(NumberView::Float(t)) => !integer_like(l) && significant_digits(l) <= 15
                && float_literal_text(l) == Some(t) && t.contains('.'),
            Ok(NumberView::BigDecimal(x)) => x == l && is_decimal_literal(l),
            Ok(NumberView::Typed { .. }) => false,
            Err(m) => !is_decimal_literal(l) && m == "Invalid number literal '"@ + l + "'"@,
        },
{
    if !integer_like(l) {
        match float_parts(l) {
            Some(p) => {
                lemma_float_text_has_decimal_point(p);
            },
            None => {},
        }
    }
}

/// The classification of a numeric literal: the trimmed text must not be
/// empty, and is read by its explicit type where one is given.
pub open spec fn number_value(text: Seq<char>, explicit_type: Option<Seq<char>>) -> Result<
    NumberView,
    Seq<char>,
> {
    let l = trimmed(text);
    if l.len() == 0 {
        Err("Number literal cannot be empty"@)
    } else {
        match explicit_type {
            Some(hint) => explicit_number(l, hint),
            None => untyped_number(l),
        }
    }
}

/// Classifies a numeric literal.
pub fn parse_number_value(text: &str, explicit_type: Option<&str>) -> (r: Result<
    NumberValue,
    String,
>)
    ensures
        number_result(r) == number_value(
            text@,
            match explicit_type {
                Some(h) => Some(h@),
                None => None,
            },
        ),
{
    let literal = trim(text);
    if literal.as_str().unicode_len() == 0 {
        return Err("Number literal cannot be empty".to_string());
    }
    match explicit_type {
        Some(hint) => {
            return parse_explicit_number(literal.as_str(), hint);
        },
        None => {},
    }
    if looks_like_integer(literal.as_str()) {
        let v = chars_of(literal.as_str());
        return match parse_integer(&v, true, -0x8000_0000_0000_0000, 0x7fff_ffff_ffff_ffff) {
            Some(value) => Ok(NumberValue::Int(value as i64)),
            None => parse_big_decimal(literal.as_str()),
        };
    }
    match canonical_float(literal.as_str()) {
        Some(t) => {
            if count_significant_digits(literal.as_str()) <= 15 {
                Ok(NumberValue::Float(t))
            } else {
                parse_big_decimal(literal.as_str())
            }
        },
        None => parse_big_decimal(literal.as_str()),
    }
}

} // verus!
