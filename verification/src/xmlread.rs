//! Trusted boundary to the outside XML parser.
//!
//! Reading is the one direction the library does not verify: `quick_xml`
//! turns document text into events. The parse of a text is given a name
//! (`spec_parse_trimmed`, `spec_parse_raw`), a reader value carries the
//! sequence of events it has still to yield (`reader_events`), and
//! `read_next` pops that sequence. Everything downstream of these events,
//! including writing them back out, is verified code.

use vstd::prelude::*;

use crate::event::EventV;
use crate::event::XmlAttr;
use crate::event::XmlEvent;
use crate::event::events_view;
use quick_xml::Reader;
use quick_xml::events::BytesStart;
use quick_xml::events::BytesText;
use quick_xml::events::Event as QEvent;

verus! {

/// Declaration of the outside reader type; a value of it is opaque here.
#[verifier::external_type_specification]
#[verifier::external_body]
#[verifier::reject_recursive_types(R)]
pub struct ExReader<R>(Reader<R>);

/// Declaration of the outside start-tag type.
#[verifier::external_type_specification]
#[verifier::external_body]
pub struct ExBytesStart<'a>(BytesStart<'a>);

/// Declaration of the outside text-content type.
#[verifier::external_type_specification]
#[verifier::external_body]
pub struct ExBytesText<'a>(BytesText<'a>);

/// Declaration of the outside event type.
#[verifier::external_type_specification]
#[verifier::external_body]
pub struct ExQEvent<'a>(QEvent<'a>);

/// The events a reader has still to yield, up to but excluding the first
/// end-of-input or parse error. A reader is deterministic, so this is a
/// function of the reader's value.
pub uninterp spec fn reader_events(r: Reader<&[u8]>) -> Seq<EventV>;

/// The events that the outside parser yields for this text when whitespace
/// around text content is trimmed (and whitespace-only text dropped).
pub uninterp spec fn spec_parse_trimmed(s: Seq<char>) -> Seq<EventV>;

/// The events that the outside parser yields for this text as it stands.
pub uninterp spec fn spec_parse_raw(s: Seq<char>) -> Seq<EventV>;

/// Relies on `quick_xml::Reader::from_str` and `Reader::trim_text(true)`:
/// the reader will yield the trimmed event stream of `xml`.
#[verifier::external_body]
fn reader_trimmed(xml: &str) -> (r: Reader<&[u8]>)
    ensures
        reader_events(r) == spec_parse_trimmed(xml@),
{
    let mut r = Reader::from_str(xml);
    r.trim_text(true);
    r
}

/// Relies on `quick_xml::Reader::from_str`: the reader will yield the
/// untrimmed event stream of `xml`.
#[verifier::external_body]
fn reader_raw(xml: &str) -> (r: Reader<&[u8]>)
    ensures
        reader_events(r) == spec_parse_raw(xml@),
{
    Reader::from_str(xml)
}

/// Relies on `String::from_utf8_lossy`. Called only from the reader
/// wrappers below; what it hands back is pinned by `read_next`'s contract.
#[verifier::external_body]
fn bytes_text(b: &[u8]) -> String {
    String::from_utf8_lossy(b).into_owned()
}

/// Relies on `BytesText::unescape`: the unescaped form of text content,
/// or the empty string where an entity does not resolve. Called only from
/// `read_next`'s body, whose contract covers the result.
#[verifier::external_body]
fn unescaped(t: &BytesText) -> String {
    t.unescape().map_or(String::new(), |c| c.into_owned())
}

/// Relies on `BytesStart::name`, `BytesStart::attributes` and
/// `Attribute::decode_and_unescape_value`: converts a start tag into the
/// library's event, attribute values unescaped, undecodable attributes kept
/// with empty values. Called only from `read_next`'s body, whose contract
/// covers the result.
#[verifier::external_body]
fn tag_event(rd: &Reader<&[u8]>, e: &BytesStart, empty: bool) -> XmlEvent {
    let name = bytes_text(e.name().as_ref());
    let attrs = e
        .attributes()
        .filter_map(|a| a.ok())
        .map(|a| XmlAttr {
            key: bytes_text(a.key.local_name().as_ref()),
            value: a.decode_and_unescape_value(rd).map_or(String::new(), |v| v.into_owned()),
        })
        .collect();
    if empty {
        XmlEvent::Empty { name, attrs }
    } else {
        XmlEvent::Start { name, attrs }
    }
}

/// Relies on the event's variant alone: converts the event kinds that
/// carry plain content, moving that content. Called only from
/// `read_next`'s body, whose contract covers the result.
#[verifier::external_body]
fn other_event(ev: QEvent) -> XmlEvent {
    match ev {
        QEvent::End(e) => XmlEvent::End { name: bytes_text(&e) },
        QEvent::CData(t) => XmlEvent::CData { text: bytes_text(&t) },
        QEvent::Comment(t) => XmlEvent::Comment { text: bytes_text(&t) },
        QEvent::Decl(d) => XmlEvent::Decl { text: bytes_text(&d) },
        QEvent::PI(t) => XmlEvent::PI { text: bytes_text(&t) },
        QEvent::DocType(t) => XmlEvent::DocType { text: bytes_text(&t) },
        QEvent::Eof => XmlEvent::Eof,
        _ => XmlEvent::Failed,
    }
}

/// Relies on `quick_xml::Reader::read_event`: yields the reader's next
/// event, converted to the library's event type. While proper events
/// remain, it hands out exactly the first of them; at end of input it
/// reports `Eof`, and on a parse error `Failed`.
#[verifier::external_body]
fn read_next(r: &mut Reader<&[u8]>) -> (ev: XmlEvent)
    ensures
        reader_events(*old(r)).len() > 0 ==> (ev@ == reader_events(*old(r)).first()
            && reader_events(*final(r)) == reader_events(*old(r)).drop_first() && !(ev@ is Eof)
            && !(ev@ is Failed)),
        reader_events(*old(r)).len() == 0 ==> (ev@ is Eof || ev@ is Failed),
{
    let ev = r.read_event();
    let rd = &*r;
    match ev {
        Ok(QEvent::Start(e)) => tag_event(rd, &e, false),
        Ok(QEvent::Empty(e)) => tag_event(rd, &e, true),
        Ok(QEvent::Text(t)) => XmlEvent::Text { raw: bytes_text(&t), text: unescaped(&t) },
        Ok(rest) => other_event(rest),
        Err(_) => XmlEvent::Failed,
    }
}

/// Reads the whole event stream of a reader into a vector.
fn drain_reader(rd: &mut Reader<&[u8]>) -> (out: Vec<XmlEvent>)
    ensures
        events_view(out@) == reader_events(*old(rd)),
{
    let mut out: Vec<XmlEvent> = Vec::new();
    loop
        invariant_except_break
            events_view(out@) + reader_events(*rd) == reader_events(*old(rd)),
        ensures
            events_view(out@) == reader_events(*old(rd)),
        decreases reader_events(*rd).len(),
    {
        let ghost pre = reader_events(*rd);
        let ev = read_next(rd);
        match ev {
            XmlEvent::Eof | XmlEvent::Failed => {
                proof {
                    assert(pre.len() == 0);
                    assert(events_view(out@) + pre =~= events_view(out@));
                }
                break ;
            },
            _ => {
                proof {
                    assert(pre.len() > 0);
                }
                let ghost old_out = out@;
                out.push(ev);
                proof {
                    assert(events_view(out@) =~= events_view(old_out) + seq![ev@]);
                    assert(events_view(old_out) + seq![ev@] + reader_events(*rd) =~= events_view(
                        old_out,
                    ) + pre);
                }
            },
        }
    }
    out
}

/// Parses document text into its trimmed event stream.
pub fn parse_events_trimmed(xml: &str) -> (out: Vec<XmlEvent>)
    ensures
        events_view(out@) == spec_parse_trimmed(xml@),
{
    let mut rd = reader_trimmed(xml);
    drain_reader(&mut rd)
}

/// Parses document text into its untrimmed event stream.
pub fn parse_events_raw(xml: &str) -> (out: Vec<XmlEvent>)
    ensures
        events_view(out@) == spec_parse_raw(xml@),
{
    let mut rd = reader_raw(xml);
    drain_reader(&mut rd)
}

} // verus!
