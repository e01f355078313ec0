//! Identifier sanitising and documentation comments for generated code.
use vstd::prelude::*;
use crate::text::{
    alphanumeric, chars_of, is_alphanumeric, pad, push_char, spaces, string_of_range, texts, trim,
    trimmed,
};

verus! {

/// The character that stands for `c` in an identifier: `c` itself where it
/// is alphanumeric or an underscore, an underscore otherwise.
pub open spec fn sanitized_char(c: char) -> char {
    if alphanumeric(c) || c == '_' {
        c
    } else {
        '_'
    }
}

/// `s` with every character replaced by its `sanitized_char`.
pub open spec fn sanitized(s: Seq<char>) -> Seq<char> {
    Seq::new(s.len(), |i: int| sanitized_char(s[i]))
}

/// Sanitising changes no character that is already acceptable, so doing it
/// twice is the same as doing it once.
pub proof fn lemma_sanitized_idempotent(s: Seq<char>)
    ensures
        sanitized(sanitized(s)) == sanitized(s),
{
    assert(sanitized(sanitized(s)) =~= sanitized(s));
}

/// Makes `s` a valid identifier body: every character that is neither
/// alphanumeric nor an underscore becomes an underscore.
pub fn sanitize_identifier(s: &str) -> (r: String)
    ensures
        r@ == sanitized(s@),
{
    let v = chars_of(s);
    let mut out = String::new();
    let mut i: usize = 0;
    while i < v.len()
        invariant
            v@ == s@,
            i <= v@.len(),
            out@ == sanitized(s@).take(i as int),
        decreases v@.len() - i,
    {
        let c = v[i];
        if is_alphanumeric(c) || c == '_' {
            push_char(&mut out, c);
        } else {
            push_char(&mut out, '_');
        }
        i = i + 1;
        assert(out@ =~= sanitized(s@).take(i as int));
    }
    assert(sanitized(s@).take(i as int) =~= sanitized(s@));
    out
}

/// `l` without one trailing carriage return.
pub open spec fn strip_cr(l: Seq<char>) -> Seq<char> {
    if l.len() > 0 && l.last() == '\r' {
        l.drop_last()
    } else {
        l
    }
}

/// The lines of `s[i..]`, given that `cur` is the part of the current line
/// already read.
pub open spec fn lines_from(s: Seq<char>, i: int, cur: Seq<char>) -> Seq<Seq<char>>
    decreases s.len() - i,
{
    if i >= s.len() {
        if cur.len() > 0 {
            seq![cur]
        } else {
            Seq::empty()
        }
    } else if s[i] == '\n' {
        seq![strip_cr(cur)] + lines_from(s, i + 1, Seq::empty())
    } else {
        lines_from(s, i + 1, cur.push(s[i]))
    }
}

/// The lines of `s`: split at each newline, a carriage return before the
/// newline dropped, and no empty line after a final newline.
pub open spec fn lines_of(s: Seq<char>) -> Seq<Seq<char>> {
    lines_from(s, 0, Seq::empty())
}

/// Splits `s` into its lines.
pub fn split_lines(s: &str) -> (r: Vec<String>)
    ensures
        texts(r@) == lines_of(s@),
{
    let v = chars_of(s);
    let mut out: Vec<String> = Vec::new();
    let mut start: usize = 0;
    let mut i: usize = 0;
    proof {
        assert(v@.subrange(0, 0) =~= Seq::<char>::empty());
        assert(texts(out@) + lines_of(s@) =~= lines_of(s@));
    }
    while i < v.len()
        invariant
            v@ == s@,
            start <= i <= v@.len(),
            texts(out@) + lines_from(s@, i as int, v@.subrange(start as int, i as int))
                == lines_of(s@),
        decreases v@.len() - i,
    {
        let ghost cur = v@.subrange(start as int, i as int);
        if v[i] == '\n' {
            let end = if i > start && v[i - 1] == '\r' {
                i - 1
            } else {
                i
            };
            let line = string_of_range(&v, start, end);
            proof {
                if i > start {
                    assert(cur.last() == v@[i - 1]);
                }
                assert(line@ =~= strip_cr(cur));
                assert(texts(out@.push(line)) =~= texts(out@) + seq![strip_cr(cur)]);
                assert(v@.subrange(i + 1, i + 1) =~= Seq::<char>::empty());
            }
            out.push(line);
            start = i + 1;
        } else {
            proof {
                assert(v@.subrange(start as int, i + 1) =~= cur.push(v@[i as int]));
            }
        }
        i = i + 1;
    }
    if start < i {
        let line = string_of_range(&v, start, i);
        proof {
            assert(texts(out@.push(line)) =~= texts(out@) + seq![line@]);
        }
        out.push(line);
    }
    out
}

/// One documentation comment line: the padding, `/// `, the trimmed text
/// and a newline.
pub open spec fn doc_line(line: Seq<char>, indent: nat) -> Seq<char> {
    spaces(indent) + "/// "@ + trimmed(line) + seq!['\n']
}

/// The comment lines for the given lines of documentation.
pub open spec fn doc_lines(ls: Seq<Seq<char>>, indent: nat) -> Seq<char>
    decreases ls.len(),
{
    if ls.len() == 0 {
        Seq::empty()
    } else {
        doc_lines(ls.drop_last(), indent) + doc_line(ls.last(), indent)
    }
}

/// The documentation comment that goes above a generated item: one `///`
/// line for each line of `doc`, nothing where there is no documentation.
pub open spec fn doc_comment(doc: Option<Seq<char>>, indent: nat) -> Seq<char> {
    match doc {
        Some(d) => doc_lines(lines_of(d), indent),
        None => Seq::empty(),
    }
}

/// The view of an optional string.
pub open spec fn opt_text(o: Option<String>) -> Option<Seq<char>> {
    match o {
        Some(s) => Some(s@),
        None => None,
    }
}

/// Formats the documentation of a resource as `///` comment lines indented
/// by `indent` spaces.
pub fn format_doc(doc: &Option<String>, indent: usize) -> (r: String)
    ensures
        r@ == doc_comment(opt_text(*doc), indent as nat),
{
    let mut out = String::new();
    match doc {
        Some(d) => {
            let p = pad(indent);
            let ls = split_lines(d.as_str());
            let mut i: usize = 0;
            while i < ls.len()
                invariant
                    i <= ls@.len(),
                    p@ == spaces(indent as nat),
                    out@ == doc_lines(texts(ls@).take(i as int), indent as nat),
                decreases ls@.len() - i,
            {
                let t = trim(ls[i].as_str());
                proof {
                    let next = texts(ls@).take(i + 1);
                    assert(next.drop_last() =~= texts(ls@).take(i as int));
                    assert(next.last() == ls@[i as int]@);
                }
                let ghost before = out@;
                out.append(p.as_str());
                out.append("/// ");
                out.append(t.as_str());
                push_char(&mut out, '\n');
                i = i + 1;
                assert(out@ =~= before + doc_line(ls@[i - 1]@, indent as nat));
            }
            assert(texts(ls@).take(i as int) =~= texts(ls@));
            out
        },
        None => out,
    }
}

} // verus!
