//! The streaming reader: from the text of a resource file to its
//! declarations.
use vstd::prelude::*;
use crate::ast::{resources_view, ParsedResource, ParsedResourceFile, ParsedResourceView};
use crate::reader::end::{end_step, handle_end};
use crate::reader::mid::{handle_mid, mid_step, opt_resource};
use crate::reader::start::{handle_start, start_step};
use crate::reader::state::{initial_state, ParseState, StateView};
use crate::reader::xml::{document_events, events_view, read_events, XmlEvent, XmlEventView};
use crate::text::{nat_text, push_nat};

pub mod xml;
pub mod state;
pub mod start;
pub mod mid;
pub mod end;

verus! {

/// A resource file as it was found: where, what it holds, and whether it
/// belongs to the test resources.
#[derive(Debug, Clone)]
pub struct RawResourceFile {
    pub path: String,
    pub contents: String,
    pub is_test: bool,
}

impl RawResourceFile {
    pub fn new(path: String, contents: String, is_test: bool) -> (r: Self)
        ensures
            r.path == path,
            r.contents == contents,
            r.is_test == is_test,
    {
        RawResourceFile { path, contents, is_test }
    }
}

/// Why a resource file could not be read.
#[derive(Debug)]
pub enum ParserError {
    /// The markup is malformed: the file, the byte offset that the reader
    /// had reached, and a message that holds the offset and the reader's
    /// words.
    Xml { path: String, offset: u64, message: String },
}

/// What one event does to the state, and the declaration it may complete.
/// Events other than tags and text change nothing.
pub open spec fn event_step(s: StateView, ev: XmlEventView) -> (
    StateView,
    Option<ParsedResourceView>,
) {
    match ev {
        XmlEventView::Start { tag, attrs } => (start_step(s, tag, attrs), None),
        XmlEventView::Empty { tag, attrs } => (start_step(s, tag, attrs), None),
        XmlEventView::Text(t) => mid_step(s, t),
        XmlEventView::End { tag } => end_step(s, tag),
        _ => (s, None),
    }
}

/// Zero or one declaration as a sequence.
pub open spec fn produced(r: Option<ParsedResourceView>) -> Seq<ParsedResourceView> {
    match r {
        Some(p) => seq![p],
        None => Seq::empty(),
    }
}

/// The declarations that the events from position `i` on produce when the
/// reader is in state `s`: those of each event in order, up to the end of
/// input. The first error event fails the whole reading.
pub open spec fn parse_from(s: StateView, evs: Seq<XmlEventView>, i: int) -> Result<
    Seq<ParsedResourceView>,
    (u64, Seq<char>),
>
    decreases evs.len() - i,
{
    if i < 0 || i >= evs.len() {
        Ok(Seq::empty())
    } else {
        match evs[i] {
            XmlEventView::Eof => Ok(Seq::empty()),
            XmlEventView::Error { position, message } => Err((position, message)),
            ev => {
                let (s1, r) = event_step(s, ev);
                match parse_from(s1, evs, i + 1) {
                    Ok(rest) => Ok(produced(r) + rest),
                    Err(e) => Err(e),
                }
            },
        }
    }
}

/// The declarations of a document with the given events.
pub open spec fn parsed(evs: Seq<XmlEventView>) -> Result<
    Seq<ParsedResourceView>,
    (u64, Seq<char>),
> {
    parse_from(initial_state(), evs, 0)
}

/// Runs the reader's state machine over the events of one document.
///
/// Returns the declarations in the order in which they were completed, or
/// the position and message of the first error event.
pub fn parse_events(events: &Vec<XmlEvent>) -> (r: Result<Vec<ParsedResource>, (u64, String)>)
    ensures
        match parsed(events_view(events@)) {
            Ok(rs) => r.is_ok() && resources_view(r.unwrap()@) == rs,
            Err((position, message)) => r.is_err() && r.unwrap_err().0 == position
                && r.unwrap_err().1@ == message,
        },
{
    let mut state = ParseState::default();
    let mut out: Vec<ParsedResource> = Vec::new();
    let mut i: usize = 0;
    let ghost evs = events_view(events@);
    proof {
        assert(resources_view(out@) =~= Seq::empty());
        match parsed(evs) {
            Ok(rest) => {
                assert(resources_view(out@) + rest =~= rest);
            },
            Err(e) => {},
        }
    }
    while i < events.len()
        invariant
            evs == events_view(events@),
            i <= events@.len(),
            match parse_from(state@, evs, i as int) {
                Ok(rest) => parsed(evs) == Ok::<Seq<ParsedResourceView>, (u64, Seq<char>)>(
                    resources_view(out@) + rest,
                ),
                Err(e) => parsed(evs) == Err::<Seq<ParsedResourceView>, (u64, Seq<char>)>(e),
            },
        decreases events@.len() - i,
    {
        let ghost s0 = state@;
        let ghost done = resources_view(out@);
        assert(evs[i as int] == events@[i as int]@);
        let produced_now = match &events[i] {
            XmlEvent::Start { tag, attrs } => {
                handle_start(&mut state, tag.as_str(), attrs);
                None
            },
            XmlEvent::Empty { tag, attrs } => {
                handle_start(&mut state, tag.as_str(), attrs);
                None
            },
            XmlEvent::Text(t) => handle_mid(&mut state, t.as_str()),
            XmlEvent::End { tag } => handle_end(&mut state, tag.as_str()),
            XmlEvent::Other => None,
            XmlEvent::Eof => {
                assert(done + Seq::<ParsedResourceView>::empty() =~= done);
                return Ok(out);
            },
            XmlEvent::Error { position, message } => {
                return Err((*position, message.clone()));
            },
        };
        assert((state@, opt_resource(produced_now)) == event_step(s0, evs[i as int]));
        match produced_now {
            Some(res) => {
                out.push(res);
                proof {
                    assert(resources_view(out@) =~= done + produced(Some(res@)));
                    match parse_from(state@, evs, i + 1) {
                        Ok(rest) => {
                            assert((done + produced(Some(res@))) + rest =~= done + (produced(
                                Some(res@),
                            ) + rest));
                        },
                        Err(e) => {},
                    }
                }
            },
            None => {
                proof {
                    match parse_from(state@, evs, i + 1) {
                        Ok(rest) => {
                            assert(produced(None) + rest =~= rest);
                        },
                        Err(e) => {},
                    }
                }
            },
        }
        i = i + 1;
    }
    proof {
        assert(resources_view(out@) + Seq::<ParsedResourceView>::empty() =~= resources_view(out@));
    }
    Ok(out)
}

/// The message for malformed markup: the byte offset and the reader's own
/// words.
pub open spec fn xml_error_message(position: u64, message: Seq<char>) -> Seq<char> {
    "XML error at byte "@ + nat_text(position as nat) + ": "@ + message
}

/// Reads one resource file: the declarations that its markup events
/// produce, or an error that names the file and the offset of the first
/// structural fault.
pub fn parse_single_file(raw: &RawResourceFile) -> (r: Result<ParsedResourceFile, ParserError>)
    ensures
        match parsed(document_events(raw.contents@)) {
            Ok(rs) => r.is_ok() && resources_view(r.unwrap().resources@) == rs
                && r.unwrap().path@ == raw.path@ && r.unwrap().is_test == raw.is_test,
            Err((position, message)) => r.is_err() && (r.unwrap_err() matches ParserError::Xml {
                path,
                offset,
                message: m,
            } && path@ == raw.path@ && offset == position && m@ == xml_error_message(
                position,
                message,
            )),
        },
{
    let events = read_events(raw.contents.as_str());
    match parse_events(&events) {
        Ok(resources) => Ok(ParsedResourceFile::new(raw.path.clone(), raw.is_test, resources)),
        Err((position, message)) => {
            let mut m = "XML error at byte ".to_string();
            push_nat(&mut m, position);
            m.append(": ");
            m.append(message.as_str());
            Err(ParserError::Xml { path: raw.path.clone(), offset: position, message: m })
        },
    }
}

} // verus!
