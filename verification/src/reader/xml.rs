//! The markup events of a document, read with `quick_xml`.
//!
//! The reader hands out events one at a time. Contracts know a reader by the
//! events it still holds, and a document by the events of a fresh reader on
//! it, so everything built on top can say exactly what it computes from them.
use vstd::prelude::*;
use quick_xml::events::{BytesStart, Event};
use quick_xml::Reader;

verus! {

#[verifier::external_type_specification]
#[verifier::external_body]
#[verifier::reject_recursive_types(R)]
pub struct ExReader<R>(Reader<R>);

#[verifier::external_type_specification]
#[verifier::external_body]
pub struct ExBytesStart<'a>(BytesStart<'a>);

/// One markup event, as plain values.
#[derive(Debug, Clone, PartialEq, Eq)]
pub enum XmlEvent {
    /// An opening tag with its attributes, in document order.
    Start { tag: String, attrs: Vec<(String, String)> },
    /// A self-closing tag with its attributes.
    Empty { tag: String, attrs: Vec<(String, String)> },
    /// A closing tag.
    End { tag: String },
    /// Character data between tags.
    Text(String),
    /// A comment, declaration, processing instruction, CDATA section,
    /// document type or entity reference.
    Other,
    /// The end of the document.
    Eof,
    /// A structural error: the byte offset reached and the reader's message.
    Error { position: u64, message: String },
}

/// The mathematical value of an `XmlEvent`.
pub enum XmlEventView {
    Start { tag: Seq<char>, attrs: Seq<(Seq<char>, Seq<char>)> },
    Empty { tag: Seq<char>, attrs: Seq<(Seq<char>, Seq<char>)> },
    End { tag: Seq<char> },
    Text(Seq<char>),
    Other,
    Eof,
    Error { position: u64, message: Seq<char> },
}

/// The views of a list of attributes.
pub open spec fn attrs_view(attrs: Seq<(String, String)>) -> Seq<(Seq<char>, Seq<char>)> {
    Seq::new(attrs.len(), |i: int| (attrs[i].0@, attrs[i].1@))
}

impl View for XmlEvent {
    type V = XmlEventView;

    open spec fn view(&self) -> XmlEventView {
        match self {
            XmlEvent::Start { tag, attrs } => XmlEventView::Start {
                tag: tag@,
                attrs: attrs_view(attrs@),
            },
            XmlEvent::Empty { tag, attrs } => XmlEventView::Empty {
                tag: tag@,
                attrs: attrs_view(attrs@),
            },
            XmlEvent::End { tag } => XmlEventView::End { tag: tag@ },
            XmlEvent::Text(t) => XmlEventView::Text(t@),
            XmlEvent::Other => XmlEventView::Other,
            XmlEvent::Eof => XmlEventView::Eof,
            XmlEvent::Error { position, message } => XmlEventView::Error {
                position: *position,
                message: message@,
            },
        }
    }
}

/// The views of a list of events.
pub open spec fn events_view(evs: Seq<XmlEvent>) -> Seq<XmlEventView> {
    Seq::new(evs.len(), |i: int| evs[i]@)
}

/// Whether reading stops at this event.
pub open spec fn is_terminal(e: XmlEventView) -> bool {
    e is Eof || e is Error
}

/// Whether the events end in exactly one terminal event, the last.
pub open spec fn is_complete(evs: Seq<XmlEventView>) -> bool {
    &&& evs.len() > 0
    &&& is_terminal(evs.last())
    &&& forall|i: int| 0 <= i < evs.len() - 1 ==> !is_terminal(#[trigger] evs[i])
}

/// The events of a document: what a fresh `quick_xml::Reader` on the text,
/// set to trim text, returns from successive calls of `read_event`, up to
/// and including the first end of input or the first error.
pub uninterp spec fn document_events(text: Seq<char>) -> Seq<XmlEventView>;

/// The events that the reader has yet to hand out: what successive calls
/// of `read_event` on it return, up to and including the first end of
/// input or error.
pub uninterp spec fn pending(r: Reader<&[u8]>) -> Seq<XmlEventView>;

/// The name of an opening or self-closing tag.
pub uninterp spec fn tag_name(b: BytesStart<'_>) -> Seq<char>;

/// The attributes of an opening or self-closing tag: key and value of each
/// one that `attributes()` yields without an error, in order.
pub uninterp spec fn tag_attributes(b: BytesStart<'_>) -> Seq<(Seq<char>, Seq<char>)>;

/// An event as the reader returns it: a tag still holds the reader's own
/// value, everything else is already plain.
pub(crate) enum RawEvent<'a> {
    Start(BytesStart<'a>),
    Empty(BytesStart<'a>),
    End(String),
    Text(String),
    Other,
    Eof,
    Error(u64, String),
}

pub(crate) open spec fn raw_view(raw: RawEvent<'_>) -> XmlEventView {
    match raw {
        RawEvent::Start(b) => XmlEventView::Start { tag: tag_name(b), attrs: tag_attributes(b) },
        RawEvent::Empty(b) => XmlEventView::Empty { tag: tag_name(b), attrs: tag_attributes(b) },
        RawEvent::End(t) => XmlEventView::End { tag: t@ },
        RawEvent::Text(t) => XmlEventView::Text(t@),
        RawEvent::Other => XmlEventView::Other,
        RawEvent::Eof => XmlEventView::Eof,
        RawEvent::Error(position, message) => XmlEventView::Error { position, message: message@ },
    }
}

/// `Reader::from_str` with `Config::trim_text(true)`: a reader at the start
/// of `text`. It holds the document's events, which end with the end of
/// input or the first error, since every read consumes input.
#[verifier::external_body]
pub(crate) fn open_reader<'a>(text: &'a str) -> (r: Reader<&'a [u8]>)
    ensures
        pending(r) == document_events(text@),
        is_complete(pending(r)),
{
    let mut r = Reader::from_str(text);
    r.config_mut().trim_text(true);
    r
}

/// `Reader::read_event`: hands out the first pending event. Where that is
/// neither the end of input nor an error, the rest is what is pending
/// afterwards; of the reader after a terminal event nothing is said. Names
/// and text are copied as they stand in the input; an error comes with
/// `buffer_position()` and the error's `Display` text.
#[verifier::external_body]
pub(crate) fn next_raw<'a>(r: &mut Reader<&'a [u8]>) -> (raw: RawEvent<'a>)
    ensures
        pending(*old(r)).len() > 0 ==> raw_view(raw) == pending(*old(r))[0],
        pending(*old(r)).len() > 0 && !is_terminal(raw_view(raw)) ==> pending(*final(r))
            == pending(*old(r)).skip(1),
{
    match r.read_event() {
        Ok(Event::Start(e)) => RawEvent::Start(e),
        Ok(Event::Empty(e)) => RawEvent::Empty(e),
        Ok(Event::End(e)) => RawEvent::End(e.name().0.to_string()),
        Ok(Event::Text(e)) => RawEvent::Text(e.to_string()),
        Ok(Event::Eof) => RawEvent::Eof,
        Ok(_) => RawEvent::Other,
        Err(err) => RawEvent::Error(r.buffer_position(), err.to_string()),
    }
}

/// `BytesStart::name`: the tag's name as written.
#[verifier::external_body]
pub(crate) fn start_tag(b: &BytesStart<'_>) -> (tag: String)
    ensures
        tag@ == tag_name(*b),
{
    b.name().0.to_string()
}

/// `BytesStart::attributes`: key and value of each attribute that parses,
/// in order; malformed ones are passed over.
#[verifier::external_body]
pub(crate) fn start_attrs(b: &BytesStart<'_>) -> (attrs: Vec<(String, String)>)
    ensures
        attrs_view(attrs@) == tag_attributes(*b),
{
    b.attributes().flatten().map(|a| (a.key.0.to_string(), a.value.to_string())).collect()
}

fn to_event(raw: RawEvent<'_>) -> (ev: XmlEvent)
    ensures
        ev@ == raw_view(raw),
{
    match raw {
        RawEvent::Start(b) => XmlEvent::Start { tag: start_tag(&b), attrs: start_attrs(&b) },
        RawEvent::Empty(b) => XmlEvent::Empty { tag: start_tag(&b), attrs: start_attrs(&b) },
        RawEvent::End(tag) => XmlEvent::End { tag },
        RawEvent::Text(t) => XmlEvent::Text(t),
        RawEvent::Other => XmlEvent::Other,
        RawEvent::Eof => XmlEvent::Eof,
        RawEvent::Error(position, message) => XmlEvent::Error { position, message },
    }
}

/// Reads all events of a document, the final end of input or error
/// included.
pub fn read_events(text: &str) -> (events: Vec<XmlEvent>)
    ensures
        events_view(events@) == document_events(text@),
        is_complete(events_view(events@)),
{
    let mut r = open_reader(text);
    let mut out: Vec<XmlEvent> = Vec::new();
    assert(events_view(out@) + pending(r) =~= document_events(text@));
    loop
        invariant_except_break
            events_view(out@) + pending(r) == document_events(text@),
            is_complete(pending(r)),
        invariant
            is_complete(document_events(text@)),
        ensures
            events_view(out@) == document_events(text@),
        decreases pending(r).len(),
    {
        let ghost before = pending(r);
        let ghost done = events_view(out@);
        let ev = to_event(next_raw(&mut r));
        let stop = match ev {
            XmlEvent::Eof => true,
            XmlEvent::Error { .. } => true,
            _ => false,
        };
        out.push(ev);
        proof {
            assert(events_view(out@) =~= done.push(before[0]));
            assert(done + before =~= done.push(before[0]) + before.skip(1));
            if stop {
                assert(before.len() == 1);
                assert(before.skip(1) =~= Seq::empty());
                assert(events_view(out@) + before.skip(1) =~= events_view(out@));
            } else {
                assert(before.len() > 1);
                assert(before.skip(1).last() == before.last());
                assert forall|i: int| 0 <= i < before.skip(1).len() - 1 implies !is_terminal(
                    #[trigger] before.skip(1)[i],
                ) by {
                    assert(before.skip(1)[i] == before[i + 1]);
                }
            }
        }
        if stop {
            break;
        }
    }
    out
}

} // verus!
