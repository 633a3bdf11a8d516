//! The registry decoder: turns a document's event stream into the record
//! collection it describes, or fails when the document does not have the
//! expected shape.
//!
//! The expected shape is the wire format: a `registry` root holding flat
//! `entry` elements; each entry carries an optional decimal `id` attribute
//! and flat children, of which `name` and `description` are required and
//! `due` is an optional decimal timestamp; unknown flat children are
//! ignored. Comments, processing instructions, declarations and document
//! type text are ignored everywhere. Anything else — text between
//! entries, nested content inside a field, a foreign root or a foreign
//! child of the root — is a decode failure.

use vstd::prelude::*;

use crate::digits::parse_u16;
use crate::digits::parse_u32;
use crate::digits::spec_parse_dec;
use crate::errors::SyncError;
use crate::event::AttrV;
use crate::event::EventV;
use crate::event::XmlAttr;
use crate::event::XmlEvent;
use crate::event::attrs_view;
use crate::event::events_view;
use crate::event::string_is;
use crate::patch::first_id_attr;
use crate::patch::spec_id_attr;
use crate::record::AppElement;
use crate::record::ElemV;
use crate::state::elems_view;
use crate::xmlread::parse_events_trimmed;
use crate::xmlread::spec_parse_trimmed;

verus! {

/// A record under construction: fields seen so far in the entry subtree.
#[verifier::ext_equal]
pub struct DecPart {
    pub id: Option<u16>,
    pub title: Option<Seq<char>>,
    pub description: Option<Seq<char>>,
    pub due: Option<u32>,
}

/// The decoder's state.
#[verifier::ext_equal]
pub enum DecSt {
    Before,
    Body { acc: Seq<ElemV> },
    InEntry { acc: Seq<ElemV>, p: DecPart },
    InField { acc: Seq<ElemV>, p: DecPart, tag: Seq<char>, text: Seq<char> },
    After { acc: Seq<ElemV> },
    Failed,
}

/// The identifier of an opening entry tag: nothing went wrong and the
/// identifier is present, nothing went wrong and it is absent, or its text
/// does not parse.
pub open spec fn spec_entry_open(attrs: Seq<AttrV>) -> Option<Option<u16>> {
    match spec_id_attr(attrs) {
        Some(t) => match spec_parse_dec(t, u16::MAX as nat) {
            Some(n) => Some(Some(n as u16)),
            None => None,
        },
        None => Some(None),
    }
}

/// Folding a finished flat child into the record under construction:
/// `name` and `description` take the text once each, `due` takes it as a
/// decimal timestamp once, any other child is ignored. A duplicate field
/// or an unparsable timestamp fails.
pub open spec fn spec_end_field(p: DecPart, tag: Seq<char>, text: Seq<char>) -> Option<DecPart> {
    if tag == ("name")@ {
        if p.title is None {
            Some(DecPart { title: Some(text), ..p })
        } else {
            None
        }
    } else if tag == ("description")@ {
        if p.description is None {
            Some(DecPart { description: Some(text), ..p })
        } else {
            None
        }
    } else if tag == ("due")@ {
        if p.due is None {
            match spec_parse_dec(text, u32::MAX as nat) {
                Some(n) => Some(DecPart { due: Some(n as u32), ..p }),
                None => None,
            }
        } else {
            None
        }
    } else {
        Some(p)
    }
}

/// The record a finished entry describes. Decoded records are never
/// removed and carry no tags.
pub open spec fn spec_part_elem(p: DecPart) -> ElemV {
    ElemV {
        id: p.id,
        title: match p.title {
            Some(t) => t,
            None => Seq::empty(),
        },
        description: match p.description {
            Some(d) => d,
            None => Seq::empty(),
        },
        due: p.due,
        removed: false,
        tags: None,
    }
}

/// What the decoder does with one event.
pub open spec fn spec_dec_step(st: DecSt, ev: EventV) -> DecSt {
    match ev {
        EventV::Comment { .. } | EventV::PI { .. } | EventV::Decl { .. } | EventV::DocType {
            ..
        } => st,
        _ => match st {
            DecSt::Before => match ev {
                EventV::Start { name, attrs } => if name == ("registry")@ {
                    DecSt::Body { acc: Seq::empty() }
                } else {
                    DecSt::Failed
                },
                _ => DecSt::Failed,
            },
            DecSt::Body { acc } => match ev {
                EventV::Start { name, attrs } => if name == ("entry")@ {
                    match spec_entry_open(attrs) {
                        Some(id) => DecSt::InEntry {
                            acc,
                            p: DecPart { id, title: None, description: None, due: None },
                        },
                        None => DecSt::Failed,
                    }
                } else {
                    DecSt::Failed
                },
                EventV::End { name } => if name == ("registry")@ {
                    DecSt::After { acc }
                } else {
                    DecSt::Failed
                },
                _ => DecSt::Failed,
            },
            DecSt::InEntry { acc, p } => match ev {
                EventV::Start { name, attrs } => DecSt::InField {
                    acc,
                    p,
                    tag: name,
                    text: Seq::empty(),
                },
                EventV::Empty { name, attrs } => match spec_end_field(p, name, Seq::empty()) {
                    Some(q) => DecSt::InEntry { acc, p: q },
                    None => DecSt::Failed,
                },
                EventV::End { name } => if name == ("entry")@ {
                    if p.title is Some && p.description is Some {
                        DecSt::Body { acc: acc.push(spec_part_elem(p)) }
                    } else {
                        DecSt::Failed
                    }
                } else {
                    DecSt::Failed
                },
                _ => DecSt::Failed,
            },
            DecSt::InField { acc, p, tag, text } => match ev {
                EventV::Text { raw, text: t } => DecSt::InField { acc, p, tag, text: text + t },
                EventV::CData { text: t } => DecSt::InField { acc, p, tag, text: text + t },
                EventV::End { name } => if name == tag {
                    match spec_end_field(p, tag, text) {
                        Some(q) => DecSt::InEntry { acc, p: q },
                        None => DecSt::Failed,
                    }
                } else {
                    DecSt::Failed
                },
                _ => DecSt::Failed,
            },
            DecSt::After { acc } => DecSt::Failed,
            DecSt::Failed => DecSt::Failed,
        },
    }
}

/// The decoder over the remaining events.
pub open spec fn spec_dec_run(evs: Seq<EventV>, st: DecSt) -> DecSt
    decreases evs.len(),
{
    if evs.len() == 0 {
        st
    } else {
        spec_dec_run(evs.drop_first(), spec_dec_step(st, evs.first()))
    }
}

/// The records an event stream describes, where it has the expected shape.
pub open spec fn spec_decode(evs: Seq<EventV>) -> Option<Seq<ElemV>> {
    match spec_dec_run(evs, DecSt::Before) {
        DecSt::After { acc } => Some(acc),
        _ => None,
    }
}

/// Once the decoder has failed, it stays failed.
pub proof fn lemma_dec_run_failed(evs: Seq<EventV>)
    ensures
        spec_dec_run(evs, DecSt::Failed) == DecSt::Failed,
    decreases evs.len(),
{
    if evs.len() > 0 {
        lemma_dec_run_failed(evs.drop_first());
    }
}

/// A record under construction, executably.
struct PartBuf {
    id: Option<u16>,
    title: Option<String>,
    description: Option<String>,
    due: Option<u32>,
}

impl View for PartBuf {
    type V = DecPart;

    closed spec fn view(&self) -> DecPart {
        DecPart {
            id: self.id,
            title: match self.title {
                Some(ref t) => Some(t@),
                None => None,
            },
            description: match self.description {
                Some(ref d) => Some(d@),
                None => None,
            },
            due: self.due,
        }
    }
}

/// The decoder's mode, executably; failure returns instead.
#[derive(Clone, Copy)]
enum DecMode {
    Before,
    Body,
    InEntry,
    InField,
    After,
}

/// The decoder's state reconstructed from the executable pieces.
pub open spec fn spec_st_of(
    mode: int,
    acc: Seq<ElemV>,
    p: DecPart,
    tag: Seq<char>,
    text: Seq<char>,
) -> DecSt {
    if mode == 0 {
        DecSt::Before
    } else if mode == 1 {
        DecSt::Body { acc }
    } else if mode == 2 {
        DecSt::InEntry { acc, p }
    } else if mode == 3 {
        DecSt::InField { acc, p, tag, text }
    } else {
        DecSt::After { acc }
    }
}

impl DecMode {
    /// The mode's place in `spec_st_of`.
    pub closed spec fn idx(&self) -> int {
        match self {
            DecMode::Before => 0,
            DecMode::Body => 1,
            DecMode::InEntry => 2,
            DecMode::InField => 3,
            DecMode::After => 4,
        }
    }
}

/// The identifier of an opening entry tag, executably.
fn entry_open(attrs: &Vec<XmlAttr>) -> (r: Option<Option<u16>>)
    ensures
        r == spec_entry_open(attrs_view(attrs@)),
{
    match first_id_attr(attrs) {
        Some(t) => match parse_u16(t.as_str()) {
            Some(v) => Some(Some(v)),
            None => None,
        },
        None => Some(None),
    }
}

/// Folds a finished flat child into the record under construction,
/// executably; reports failure instead of changing anything.
fn end_field(p: &mut PartBuf, tag: &String, text: &String) -> (ok: bool)
    ensures
        spec_end_field(old(p)@, tag@, text@) matches Some(q) ==> (ok && final(p)@ == q),
        spec_end_field(old(p)@, tag@, text@) is None ==> (!ok && final(p)@ == old(p)@),
{
    if string_is(tag, "name") {
        if p.title.is_none() {
            p.title = Some(text.clone());
            true
        } else {
            false
        }
    } else if string_is(tag, "description") {
        if p.description.is_none() {
            p.description = Some(text.clone());
            true
        } else {
            false
        }
    } else if string_is(tag, "due") {
        if p.due.is_none() {
            match parse_u32(text.as_str()) {
                Some(n) => {
                    p.due = Some(n);
                    true
                },
                None => false,
            }
        } else {
            false
        }
    } else {
        true
    }
}

/// Decodes an event stream into the records it describes, or reports that
/// the document does not have the expected registry shape.
pub fn decode_events(evs: &Vec<XmlEvent>) -> (r: Result<Vec<AppElement>, SyncError>)
    ensures
        spec_decode(events_view(evs@)) matches Some(es) ==> (r matches Ok(v) && elems_view(v@)
            == es),
        spec_decode(events_view(evs@)) is None ==> r == Err::<Vec<AppElement>, SyncError>(
            SyncError::Decode,
        ),
{
    let ghost all = events_view(evs@);
    let n = evs.len();
    let mut i: usize = 0;
    let mut mode = DecMode::Before;
    let mut acc: Vec<AppElement> = Vec::new();
    let mut part = PartBuf { id: None, title: None, description: None, due: None };
    let mut ftag = String::new();
    let mut ftext = String::new();
    proof {
        assert(all.skip(0) =~= all);
    }
    while i < n
        invariant
            0 <= i <= n,
            n == evs@.len(),
            spec_dec_run(
                all.skip(i as int),
                spec_st_of(mode.idx(), elems_view(acc@), part@, ftag@, ftext@),
            ) == spec_dec_run(all, DecSt::Before),
            all == events_view(evs@),
            mode.idx() == 0 ==> acc@.len() == 0,
        decreases n - i,
    {
        let ghost pre_evs = all.skip(i as int);
        let ghost pre_st = spec_st_of(mode.idx(), elems_view(acc@), part@, ftag@, ftext@);
        let ghost rest_evs = all.skip(i as int + 1);
        let ev = &evs[i];
        proof {
            assert(pre_evs.first() == ev@);
            assert(pre_evs.drop_first() =~= rest_evs);
        }
        let ghost step = spec_dec_step(pre_st, ev@);
        let ignorable = match ev {
            XmlEvent::Comment { .. } => true,
            XmlEvent::PI { .. } => true,
            XmlEvent::Decl { .. } => true,
            XmlEvent::DocType { .. } => true,
            _ => false,
        };
        if ignorable {
            proof {
                assert(step =~~= pre_st);
            }
        } else {
            match mode {
                DecMode::Before => {
                    let ok = match ev {
                        XmlEvent::Start { name, attrs } => string_is(name, "registry"),
                        _ => false,
                    };
                    if !ok {
                        proof {
                            assert(step is Failed);
                            lemma_dec_run_failed(rest_evs);
                            assert(spec_dec_run(pre_evs, pre_st) == spec_dec_run(rest_evs, step));
                            assert(spec_dec_run(all, DecSt::Before) == DecSt::Failed);
                            assert(spec_decode(all) is None);
                        }
                        return Err(SyncError::Decode);
                    }
                    mode = DecMode::Body;
                    proof {
                        assert(elems_view(acc@) =~= Seq::<ElemV>::empty());
                        assert(spec_st_of(mode.idx(), elems_view(acc@), part@, ftag@, ftext@)
                            =~~= step);
                    }
                },
                DecMode::Body => {
                    match ev {
                        XmlEvent::Start { name, attrs } => {
                            if string_is(name, "entry") {
                                match entry_open(attrs) {
                                    Some(id) => {
                                        part = PartBuf {
                                            id,
                                            title: None,
                                            description: None,
                                            due: None,
                                        };
                                        mode = DecMode::InEntry;
                                        proof {
                                            assert(spec_st_of(
                                                mode.idx(),
                                                elems_view(acc@),
                                                part@,
                                                ftag@,
                                                ftext@,
                                            ) =~~= step);
                                        }
                                    },
                                    None => {
                                        proof {
                                            assert(step is Failed);
                                            lemma_dec_run_failed(rest_evs);
                                            assert(spec_dec_run(pre_evs, pre_st) == spec_dec_run(
                                                rest_evs,
                                                step,
                                            ));
                                            assert(spec_decode(all) is None);
                                        }
                                        return Err(SyncError::Decode);
                                    },
                                }
                            } else {
                                proof {
                                    assert(step is Failed);
                                    lemma_dec_run_failed(rest_evs);
                                    assert(spec_dec_run(pre_evs, pre_st) == spec_dec_run(
                                        rest_evs,
                                        step,
                                    ));
                                    assert(spec_decode(all) is None);
                                }
                                return Err(SyncError::Decode);
                            }
                        },
                        XmlEvent::End { name } => {
                            if string_is(name, "registry") {
                                mode = DecMode::After;
                                proof {
                                    assert(spec_st_of(
                                        mode.idx(),
                                        elems_view(acc@),
                                        part@,
                                        ftag@,
                                        ftext@,
                                    ) =~~= step);
                                }
                            } else {
                                proof {
                                    assert(step is Failed);
                                    lemma_dec_run_failed(rest_evs);
                                    assert(spec_dec_run(pre_evs, pre_st) == spec_dec_run(
                                        rest_evs,
                                        step,
                                    ));
                                    assert(spec_decode(all) is None);
                                }
                                return Err(SyncError::Decode);
                            }
                        },
                        _ => {
                            proof {
                                assert(step is Failed);
                                lemma_dec_run_failed(rest_evs);
                                assert(spec_dec_run(pre_evs, pre_st) == spec_dec_run(
                                    rest_evs,
                                    step,
                                ));
                                assert(spec_decode(all) is None);
                            }
                            return Err(SyncError::Decode);
                        },
                    }
                },
                DecMode::InEntry => {
                    match ev {
                        XmlEvent::Start { name, attrs } => {
                            ftag = name.clone();
                            ftext = String::new();
                            mode = DecMode::InField;
                            proof {
                                assert(spec_st_of(mode.idx(), elems_view(acc@), part@, ftag@, ftext@)
                                    =~~= step);
                            }
                        },
                        XmlEvent::Empty { name, attrs } => {
                            let empty_text = String::new();
                            let ok = end_field(&mut part, name, &empty_text);
                            if !ok {
                                proof {
                                    assert(step is Failed);
                                    lemma_dec_run_failed(rest_evs);
                                    assert(spec_dec_run(pre_evs, pre_st) == spec_dec_run(
                                        rest_evs,
                                        step,
                                    ));
                                    assert(spec_decode(all) is None);
                                }
                                return Err(SyncError::Decode);
                            }
                            proof {
                                assert(spec_st_of(mode.idx(), elems_view(acc@), part@, ftag@, ftext@)
                                    =~~= step);
                            }
                        },
                        XmlEvent::End { name } => {
                            if string_is(name, "entry") {
                                let complete = part.title.is_some() && part.description.is_some();
                                if !complete {
                                    proof {
                                        assert(step is Failed);
                                        lemma_dec_run_failed(rest_evs);
                                        assert(spec_dec_run(pre_evs, pre_st) == spec_dec_run(
                                            rest_evs,
                                            step,
                                        ));
                                        assert(spec_decode(all) is None);
                                    }
                                    return Err(SyncError::Decode);
                                }
                                let ghost pre_acc = elems_view(acc@);
                                let ghost finished_v = spec_part_elem(part@);
                                let finished = part;
                                part = PartBuf {
                                    id: None,
                                    title: None,
                                    description: None,
                                    due: None,
                                };
                                let title = match finished.title {
                                    Some(t) => t,
                                    None => String::new(),
                                };
                                let description = match finished.description {
                                    Some(d) => d,
                                    None => String::new(),
                                };
                                let el = AppElement::new(
                                    finished.id,
                                    title,
                                    description,
                                    finished.due,
                                    None,
                                );
                                proof {
                                    assert(el@ =~~= finished_v);
                                }
                                acc.push(el);
                                mode = DecMode::Body;
                                proof {
                                    assert(elems_view(acc@) =~= pre_acc.push(el@));
                                    assert(spec_st_of(
                                        mode.idx(),
                                        elems_view(acc@),
                                        part@,
                                        ftag@,
                                        ftext@,
                                    ) =~~= step);
                                }
                            } else {
                                proof {
                                    assert(step is Failed);
                                    lemma_dec_run_failed(rest_evs);
                                    assert(spec_dec_run(pre_evs, pre_st) == spec_dec_run(
                                        rest_evs,
                                        step,
                                    ));
                                    assert(spec_decode(all) is None);
                                }
                                return Err(SyncError::Decode);
                            }
                        },
                        _ => {
                            proof {
                                assert(step is Failed);
                                lemma_dec_run_failed(rest_evs);
                                assert(spec_dec_run(pre_evs, pre_st) == spec_dec_run(
                                    rest_evs,
                                    step,
                                ));
                                assert(spec_decode(all) is None);
                            }
                            return Err(SyncError::Decode);
                        },
                    }
                },
                DecMode::InField => {
                    match ev {
                        XmlEvent::Text { raw: _, text } => {
                            ftext.append(text.as_str());
                            proof {
                                assert(spec_st_of(mode.idx(), elems_view(acc@), part@, ftag@, ftext@)
                                    =~~= step);
                            }
                        },
                        XmlEvent::CData { text } => {
                            ftext.append(text.as_str());
                            proof {
                                assert(spec_st_of(mode.idx(), elems_view(acc@), part@, ftag@, ftext@)
                                    =~~= step);
                            }
                        },
                        XmlEvent::End { name } => {
                            let same = *name == ftag;
                            if !same {
                                proof {
                                    assert(step is Failed);
                                    lemma_dec_run_failed(rest_evs);
                                    assert(spec_dec_run(pre_evs, pre_st) == spec_dec_run(
                                        rest_evs,
                                        step,
                                    ));
                                    assert(spec_decode(all) is None);
                                }
                                return Err(SyncError::Decode);
                            }
                            let ok = end_field(&mut part, &ftag, &ftext);
                            if !ok {
                                proof {
                                    assert(step is Failed);
                                    lemma_dec_run_failed(rest_evs);
                                    assert(spec_dec_run(pre_evs, pre_st) == spec_dec_run(
                                        rest_evs,
                                        step,
                                    ));
                                    assert(spec_decode(all) is None);
                                }
                                return Err(SyncError::Decode);
                            }
                            mode = DecMode::InEntry;
                            proof {
                                assert(spec_st_of(mode.idx(), elems_view(acc@), part@, ftag@, ftext@)
                                    =~~= step);
                            }
                        },
                        _ => {
                            proof {
                                assert(step is Failed);
                                lemma_dec_run_failed(rest_evs);
                                assert(spec_dec_run(pre_evs, pre_st) == spec_dec_run(
                                    rest_evs,
                                    step,
                                ));
                                assert(spec_decode(all) is None);
                            }
                            return Err(SyncError::Decode);
                        },
                    }
                },
                DecMode::After => {
                    proof {
                        assert(step is Failed);
                        lemma_dec_run_failed(rest_evs);
                        assert(spec_dec_run(pre_evs, pre_st) == spec_dec_run(rest_evs, step));
                        assert(spec_decode(all) is None);
                    }
                    return Err(SyncError::Decode);
                },
            }
        }
        proof {
            assert(spec_dec_run(pre_evs, pre_st) == spec_dec_run(
                rest_evs,
                spec_st_of(mode.idx(), elems_view(acc@), part@, ftag@, ftext@),
            ));
        }
        i = i + 1;
    }
    proof {
        assert(all.skip(n as int).len() == 0);
    }
    match mode {
        DecMode::After => Ok(acc),
        _ => Err(SyncError::Decode),
    }
}


/// Decodes document text into the records it describes.
pub fn decode_registry(xml: &str) -> (r: Result<Vec<AppElement>, SyncError>)
    ensures
        spec_decode(spec_parse_trimmed(xml@)) matches Some(es) ==> (r matches Ok(v) && elems_view(
            v@,
        ) == es),
        spec_decode(spec_parse_trimmed(xml@)) is None ==> r == Err::<Vec<AppElement>, SyncError>(
            SyncError::Decode,
        ),
{
    let evs = parse_events_trimmed(xml);
    decode_events(&evs)
}

} // verus!
