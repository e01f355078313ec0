//! The profile filter: declarations that are marked for another build
//! profile are taken out of a document before it is parsed.
use vstd::prelude::*;
use crate::reader::start::{attr_of, attr_value};
use crate::reader::xml::{
    attrs_view, document_events, events_view, read_events, XmlEvent, XmlEventView,
};
use crate::text::str_eq;

verus! {

/// The attributes of a tag as they are written back: each as a space, the
/// key, and the value in double quotes.
pub open spec fn attrs_text(attrs: Seq<(Seq<char>, Seq<char>)>) -> Seq<char>
    decreases attrs.len(),
{
    if attrs.len() == 0 {
        Seq::empty()
    } else {
        attrs_text(attrs.drop_last()) + (" "@ + attrs.last().0 + "=\""@ + attrs.last().1 + "\""@)
    }
}

/// An opening tag as it is written back.
pub open spec fn start_tag_text(tag: Seq<char>, attrs: Seq<(Seq<char>, Seq<char>)>) -> Seq<char> {
    "<"@ + tag + attrs_text(attrs) + ">"@
}

/// A self-closing tag as it is written back.
pub open spec fn empty_tag_text(tag: Seq<char>, attrs: Seq<(Seq<char>, Seq<char>)>) -> Seq<char> {
    "<"@ + tag + attrs_text(attrs) + "/>"@
}

/// A closing tag as it is written back.
pub open spec fn end_tag_text(tag: Seq<char>) -> Seq<char> {
    "</"@ + tag + ">"@
}

fn write_attrs(out: &mut String, attrs: &Vec<(String, String)>)
    ensures
        final(out)@ == old(out)@ + attrs_text(attrs_view(attrs@)),
{
    let ghost av = attrs_view(attrs@);
    let ghost start = out@;
    let mut i: usize = 0;
    assert(av.take(0) =~= Seq::<(Seq<char>, Seq<char>)>::empty());
    assert(out@ =~= start + attrs_text(av.take(0)));
    while i < attrs.len()
        invariant
            i <= attrs@.len(),
            av == attrs_view(attrs@),
            out@ == start + attrs_text(av.take(i as int)),
        decreases attrs@.len() - i,
    {
        proof {
            let next = av.take(i + 1);
            assert(next.drop_last() =~= av.take(i as int));
            assert(next.last() == (attrs@[i as int].0@, attrs@[i as int].1@));
        }
        out.append(" ");
        out.append(attrs[i].0.as_str());
        out.append("=\"");
        out.append(attrs[i].1.as_str());
        out.append("\"");
        i = i + 1;
        assert(out@ =~= start + attrs_text(av.take(i as int)));
    }
    assert(av.take(i as int) =~= av);
}

pub fn write_start_tag(out: &mut String, tag: &str, attrs: &Vec<(String, String)>)
    ensures
        final(out)@ == old(out)@ + start_tag_text(tag@, attrs_view(attrs@)),
{
    out.append("<");
    out.append(tag);
    write_attrs(out, attrs);
    out.append(">");
    assert(final(out)@ =~= old(out)@ + start_tag_text(tag@, attrs_view(attrs@)));
}

pub fn write_empty_tag(out: &mut String, tag: &str, attrs: &Vec<(String, String)>)
    ensures
        final(out)@ == old(out)@ + empty_tag_text(tag@, attrs_view(attrs@)),
{
    out.append("<");
    out.append(tag);
    write_attrs(out, attrs);
    out.append("/>");
    assert(final(out)@ =~= old(out)@ + empty_tag_text(tag@, attrs_view(attrs@)));
}

pub fn write_end_tag(out: &mut String, tag: &str)
    ensures
        final(out)@ == old(out)@ + end_tag_text(tag@),
{
    out.append("</");
    out.append(tag);
    out.append(">");
    assert(final(out)@ =~= old(out)@ + end_tag_text(tag@));
}

/// Whether a tag with these attributes belongs to another profile.
pub open spec fn other_profile(attrs: Seq<(Seq<char>, Seq<char>)>, profile: Seq<char>) -> bool {
    match attr_of(attrs, "profile"@) {
        Some(p) => p != profile,
        None => false,
    }
}

/// What one event contributes to the filtered document, and the depth of
/// skipped elements after it, when `skip` enclosing elements are being
/// skipped.
///
/// An opening tag of another profile starts skipping; while skipping,
/// every opening tag goes one level deeper and every closing tag one level
/// back. Outside skipped elements tags and text are written back; a
/// self-closing tag of another profile is left out.
pub open spec fn filter_step(ev: XmlEventView, skip: nat, profile: Seq<char>) -> (Seq<char>, nat) {
    match ev {
        XmlEventView::Start { tag, attrs } => if skip > 0 {
            (Seq::empty(), skip + 1)
        } else if other_profile(attrs, profile) {
            (Seq::empty(), 1)
        } else {
            (start_tag_text(tag, attrs), 0)
        },
        XmlEventView::Empty { tag, attrs } => if skip == 0 && !other_profile(attrs, profile) {
            (empty_tag_text(tag, attrs), skip)
        } else {
            (Seq::empty(), skip)
        },
        XmlEventView::Text(t) => if skip == 0 {
            (t, skip)
        } else {
            (Seq::empty(), skip)
        },
        XmlEventView::End { tag } => if skip > 0 {
            (Seq::empty(), (skip - 1) as nat)
        } else {
            (end_tag_text(tag), 0)
        },
        _ => (Seq::empty(), skip),
    }
}

/// The filtered text of the events from position `i` on; none where an
/// error event is met before the end.
pub open spec fn filtered_from(evs: Seq<XmlEventView>, i: int, skip: nat, profile: Seq<char>)
    -> Option<Seq<char>>
    decreases evs.len() - i,
{
    if i < 0 || i >= evs.len() {
        Some(Seq::empty())
    } else {
        match evs[i] {
            XmlEventView::Eof => Some(Seq::empty()),
            XmlEventView::Error { .. } => None,
            ev => {
                let step = filter_step(ev, skip, profile);
                match filtered_from(evs, i + 1, step.1, profile) {
                    Some(rest) => Some(step.0 + rest),
                    None => None,
                }
            },
        }
    }
}

/// Filters the events of a document for a profile.
pub fn filter_events(events: &Vec<XmlEvent>, current_profile: &str) -> (r: Option<String>)
    ensures
        crate::utils::opt_text(r) == filtered_from(events_view(events@), 0, 0, current_profile@),
{
    let ghost evs = events_view(events@);
    let ghost profile = current_profile@;
    let mut out = String::new();
    let mut skip_depth: usize = 0;
    let mut i: usize = 0;
    proof {
        match filtered_from(evs, 0, 0, profile) {
            Some(rest) => {
                assert(out@ + rest =~= rest);
            },
            None => {},
        }
    }
    while i < events.len()
        invariant
            i <= events@.len(),
            evs == events_view(events@),
            profile == current_profile@,
            skip_depth <= i,
            match filtered_from(evs, i as int, skip_depth as nat, profile) {
                Some(rest) => filtered_from(evs, 0, 0, profile) == Some(out@ + rest),
                None => filtered_from(evs, 0, 0, profile).is_none(),
            },
        decreases events@.len() - i,
    {
        let ghost o = out@;
        let ghost skip0 = skip_depth as nat;
        assert(evs[i as int] == events@[i as int]@);
        match &events[i] {
            XmlEvent::Start { tag, attrs } => {
                if skip_depth > 0 {
                    skip_depth = skip_depth + 1;
                } else {
                    let other = match attr_value(attrs, "profile") {
                        Some(p) => !str_eq(p.as_str(), current_profile),
                        None => false,
                    };
                    if other {
                        skip_depth = 1;
                    } else {
                        write_start_tag(&mut out, tag.as_str(), attrs);
                    }
                }
            },
            XmlEvent::Empty { tag, attrs } => {
                if skip_depth == 0 {
                    let other = match attr_value(attrs, "profile") {
                        Some(p) => !str_eq(p.as_str(), current_profile),
                        None => false,
                    };
                    if !other {
                        write_empty_tag(&mut out, tag.as_str(), attrs);
                    }
                }
            },
            XmlEvent::Text(t) => {
                if skip_depth == 0 {
                    out.append(t.as_str());
                }
            },
            XmlEvent::End { tag } => {
                if skip_depth > 0 {
                    skip_depth = skip_depth - 1;
                } else {
                    write_end_tag(&mut out, tag.as_str());
                }
            },
            XmlEvent::Other => {},
            XmlEvent::Eof => {
                assert(o + Seq::<char>::empty() =~= o);
                return Some(out);
            },
            XmlEvent::Error { .. } => {
                return None;
            },
        }
        proof {
            let step = filter_step(evs[i as int], skip0, profile);
            assert(skip_depth as nat == step.1);
            assert(out@ =~= o + step.0);
            match filtered_from(evs, i + 1, step.1, profile) {
                Some(rest) => {
                    assert(o + (step.0 + rest) =~= (o + step.0) + rest);
                },
                None => {},
            }
        }
        i = i + 1;
    }
    assert(out@ + Seq::<char>::empty() =~= out@);
    Some(out)
}

/// The document as the parser gets it for a profile: every element with a
/// `profile` attribute other than the current one is removed with all it
/// holds. A document with malformed markup is left as it is.
pub open spec fn preprocessed(xml: Seq<char>, profile: Seq<char>) -> Seq<char> {
    match filtered_from(document_events(xml), 0, 0, profile) {
        Some(out) => out,
        None => xml,
    }
}

/// Removes from a document what belongs to another profile.
pub fn preprocess_xml(xml: &str, current_profile: &str) -> (r: String)
    ensures
        r@ == preprocessed(xml@, current_profile@),
{
    let events = read_events(xml);
    match filter_events(&events, current_profile) {
        Some(out) => out,
        None => xml.to_string(),
    }
}

} // verus!
