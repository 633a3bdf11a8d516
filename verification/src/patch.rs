//! The XML Patch Engine: the streaming deletion pass and insertion pass.
//!
//! Both passes run over the event stream of a document. The deletion pass
//! excises, in one pass, every subtree whose entry identifier names a local
//! record marked removed, deleting the record from the store at the same
//! time. The insertion pass splices freshly serialized subtrees right after
//! the first start tag of the root container. Each pass is specified as a
//! state machine over events (`spec_del_step`, `spec_ins_run`) and the
//! executable pass is proved to compute exactly that.

use vstd::prelude::*;

use crate::digits::parse_u16;
use crate::digits::spec_parse_dec;
use crate::event::AttrV;
use crate::event::EventV;
use crate::event::XmlAttr;
use crate::event::XmlEvent;
use crate::event::attrs_view;
use crate::event::events_to_text;
use crate::event::events_view;
use crate::event::spec_doc_text;
use crate::event::string_is;
use crate::idgen::vec_contains_u16;
use crate::record::AppElement;
use crate::record::ElemV;
use crate::record::spec_entry_events;
use crate::state::AppState;
use crate::state::elems_view;
use crate::xmlread::parse_events_raw;
use crate::xmlread::parse_events_trimmed;
use crate::xmlread::spec_parse_raw;
use crate::xmlread::spec_parse_trimmed;

verus! {

/// The engine's state during the deletion pass: pass every event through,
/// or swallow events until the matching end tag of a deleted subtree.
pub enum PatchState {
    Copying,
    SkippingSubtree { target: String },
}

/// The mathematical value of a patch state.
#[verifier::ext_equal]
pub enum PatchStateV {
    Copying,
    SkippingSubtree { target: Seq<char> },
}

impl View for PatchState {
    type V = PatchStateV;

    open spec fn view(&self) -> PatchStateV {
        match self {
            PatchState::Copying => PatchStateV::Copying,
            PatchState::SkippingSubtree { target } => PatchStateV::SkippingSubtree {
                target: target@,
            },
        }
    }
}

/// The value of the first `id` attribute, if any.
pub open spec fn spec_id_attr(attrs: Seq<AttrV>) -> Option<Seq<char>>
    decreases attrs.len(),
{
    if attrs.len() == 0 {
        None
    } else if attrs.first().key == ("id")@ {
        Some(attrs.first().value)
    } else {
        spec_id_attr(attrs.drop_first())
    }
}

/// The index of the first record with this identifier, or -1 when none
/// has it.
pub open spec fn spec_find_id(es: Seq<ElemV>, v: u16) -> int
    decreases es.len(),
{
    if es.len() == 0 {
        -1
    } else if es.first().id == Some(v) {
        0
    } else {
        let r = spec_find_id(es.drop_first(), v);
        if r < 0 {
            -1
        } else {
            r + 1
        }
    }
}

/// The identifier an entry start tag is addressed by: its first `id`
/// attribute, parsed as decimal, where both steps succeed.
pub open spec fn spec_event_target(attrs: Seq<AttrV>) -> Option<u16> {
    match spec_id_attr(attrs) {
        Some(text) => match spec_parse_dec(text, u16::MAX as nat) {
            Some(v) => Some(v as u16),
            None => None,
        },
        None => None,
    }
}

/// The outcome of one deletion-pass step.
#[verifier::ext_equal]
pub struct DelStep {
    pub st: PatchStateV,
    pub emit: Seq<EventV>,
    pub elems: Seq<ElemV>,
    pub dropped: bool,
}

/// What the deletion pass does with one event. While skipping, every event
/// up to and including the matching end tag is swallowed. While copying, a
/// start tag of the entry element whose identifier names a local record
/// marked removed deletes that record and starts a skip; every other event
/// passes through unchanged (identifier absent, unparsable, unknown
/// locally, or known but not removed).
pub open spec fn spec_del_step(st: PatchStateV, ev: EventV, elems: Seq<ElemV>) -> DelStep {
    match st {
        PatchStateV::SkippingSubtree { target } => match ev {
            EventV::End { name } => if name == target {
                DelStep { st: PatchStateV::Copying, emit: Seq::empty(), elems, dropped: false }
            } else {
                DelStep { st, emit: Seq::empty(), elems, dropped: false }
            },
            _ => DelStep { st, emit: Seq::empty(), elems, dropped: false },
        },
        PatchStateV::Copying => match ev {
            EventV::Start { name, attrs } => if name == ("entry")@ {
                match spec_event_target(attrs) {
                    Some(v) => {
                        let idx = spec_find_id(elems, v);
                        if idx >= 0 && elems[idx].removed {
                            DelStep {
                                st: PatchStateV::SkippingSubtree { target: name },
                                emit: Seq::empty(),
                                elems: elems.remove(idx),
                                dropped: true,
                            }
                        } else {
                            DelStep { st, emit: seq![ev], elems, dropped: false }
                        }
                    },
                    None => DelStep { st, emit: seq![ev], elems, dropped: false },
                }
            } else {
                DelStep { st, emit: seq![ev], elems, dropped: false }
            },
            _ => DelStep { st, emit: seq![ev], elems, dropped: false },
        },
    }
}

/// The outcome of the whole deletion pass, with the state it ended in.
#[verifier::ext_equal]
pub struct DelOut {
    pub kept: Seq<EventV>,
    pub elems: Seq<ElemV>,
    pub changed: bool,
    pub st: PatchStateV,
}

/// The deletion pass over the remaining events, given the state so far.
pub open spec fn spec_del_run(
    evs: Seq<EventV>,
    st: PatchStateV,
    elems: Seq<ElemV>,
    kept: Seq<EventV>,
    changed: bool,
) -> DelOut
    decreases evs.len(),
{
    if evs.len() == 0 {
        DelOut { kept, elems, changed, st }
    } else {
        let step = spec_del_step(st, evs.first(), elems);
        spec_del_run(
            evs.drop_first(),
            step.st,
            step.elems,
            kept + step.emit,
            changed || step.dropped,
        )
    }
}

/// The whole deletion pass over an event stream, starting in copy mode.
pub open spec fn spec_delete_pass(evs: Seq<EventV>, elems: Seq<ElemV>) -> DelOut {
    spec_del_run(evs, PatchStateV::Copying, elems, Seq::empty(), false)
}

/// `spec_find_id` finds the first index holding the identifier, and -1
/// exactly when no record holds it.
pub proof fn lemma_find_id(es: Seq<ElemV>, v: u16)
    ensures
        spec_find_id(es, v) == -1 ==> (forall|j: int|
            0 <= j < es.len() ==> (#[trigger] es[j]).id != Some(v)),
        spec_find_id(es, v) != -1 ==> (0 <= spec_find_id(es, v) < es.len() && es[spec_find_id(
            es,
            v,
        )].id == Some(v) && (forall|j: int|
            0 <= j < spec_find_id(es, v) ==> (#[trigger] es[j]).id != Some(v))),
    decreases es.len(),
{
    if es.len() == 0 {
    } else if es.first().id == Some(v) {
    } else {
        let d = es.drop_first();
        lemma_find_id(d, v);
        assert(forall|j: int| 1 <= j < es.len() ==> (#[trigger] es[j]) == d[j - 1]);
        let r = spec_find_id(d, v);
        if r == -1 {
            assert forall|j: int| 0 <= j < es.len() implies (#[trigger] es[j]).id != Some(v) by {
                if j >= 1 {
                    assert(d[j - 1].id != Some(v));
                }
            }
        } else {
            assert(es[r + 1] == d[r]);
            assert forall|j: int| 0 <= j < r + 1 implies (#[trigger] es[j]).id != Some(v) by {
                if j >= 1 {
                    assert(d[j - 1].id != Some(v));
                }
            }
        }
    }
}

/// The value of the first `id` attribute, executably.
pub(crate) fn first_id_attr(attrs: &Vec<XmlAttr>) -> (r: Option<&String>)
    ensures
        spec_id_attr(attrs_view(attrs@)) matches Some(v) ==> (r matches Some(s) && s@ == v),
        spec_id_attr(attrs_view(attrs@)) is None ==> r is None,
{
    let n = attrs.len();
    proof {
        assert(attrs_view(attrs@).skip(0) =~= attrs_view(attrs@));
    }
    let mut i: usize = 0;
    while i < n
        invariant
            0 <= i <= n,
            n == attrs@.len(),
            spec_id_attr(attrs_view(attrs@)) == spec_id_attr(attrs_view(attrs@).skip(i as int)),
        decreases n - i,
    {
        let ghost av = attrs_view(attrs@);
        proof {
            assert(av.skip(i as int).first() == av[i as int]);
        }
        if string_is(&attrs[i].key, "id") {
            return Some(&attrs[i].value);
        }
        proof {
            assert(av.skip(i as int).drop_first() =~= av.skip(i as int + 1));
        }
        i = i + 1;
    }
    proof {
        assert(attrs_view(attrs@).skip(n as int).len() == 0);
    }
    None
}

/// The first index holding this identifier, executably.
fn find_index_with_id(es: &Vec<AppElement>, v: u16) -> (r: Option<usize>)
    ensures
        r matches Some(ix) ==> (ix < es@.len() && spec_find_id(elems_view(es@), v) == ix
            && elems_view(es@)[ix as int].id == Some(v)),
        r is None ==> spec_find_id(elems_view(es@), v) == -1,
{
    let n = es.len();
    let mut i: usize = 0;
    while i < n
        invariant
            0 <= i <= n,
            n == es@.len(),
            forall|j: int| 0 <= j < i ==> (#[trigger] elems_view(es@)[j]).id != Some(v),
        decreases n - i,
    {
        let hit = match es[i].id {
            Some(w) => w == v,
            None => false,
        };
        if hit {
            proof {
                let ev = elems_view(es@);
                lemma_find_id(ev, v);
                let f = spec_find_id(ev, v);
                assert(ev[i as int].id == Some(v));
                if f == -1 {
                    assert(ev[i as int].id != Some(v));
                }
                if 0 <= f < i as int {
                    assert(ev[f].id == Some(v));
                }
                if f > i as int {
                    assert(ev[i as int].id != Some(v));
                }
            }
            return Some(i);
        }
        i = i + 1;
    }
    proof {
        let ev = elems_view(es@);
        lemma_find_id(ev, v);
        let f = spec_find_id(ev, v);
        if f != -1 {
            assert(ev[f].id == Some(v));
        }
    }
    None
}

impl AppState {
    /// The streaming deletion pass. Parses the document with whitespace
    /// trimming, drops the whole subtree of every entry whose identifier
    /// names a local record marked removed — deleting that record from the
    /// store in the same step — and renders the surviving events back to
    /// text. Returns whether any subtree was dropped, and the new document.
    pub fn delete_removed(&mut self, xml: &str) -> (r: (bool, String))
        ensures
            ({
                let out = spec_delete_pass(
                    spec_parse_trimmed(xml@),
                    elems_view(old(self).elements@),
                );
                r.0 == out.changed && r.1@ == spec_doc_text(out.kept) && elems_view(
                    final(self).elements@,
                ) == out.elems
            }),
            final(self).synced == old(self).synced,
            final(self).config == old(self).config,
    {
        let mut evs = parse_events_trimmed(xml);
        let ghost all = events_view(evs@);
        let ghost elems0 = elems_view(self.elements@);
        let mut kept: Vec<XmlEvent> = Vec::new();
        let mut st = PatchState::Copying;
        let mut changed = false;
        while evs.len() > 0
            invariant
                spec_del_run(
                    events_view(evs@),
                    st@,
                    elems_view(self.elements@),
                    events_view(kept@),
                    changed,
                ) == spec_delete_pass(all, elems0),
                elems0 == elems_view(old(self).elements@),
                self.config == old(self).config,
                self.synced == old(self).synced,
            decreases evs@.len(),
        {
            let ghost pre_evs = events_view(evs@);
            let ghost pre_st = st@;
            let ghost pre_elems = elems_view(self.elements@);
            let ghost pre_kept = events_view(kept@);
            let ghost pre_changed = changed;
            let ev = evs.remove(0);
            proof {
                assert(pre_evs.first() == ev@);
                assert(events_view(evs@) =~= pre_evs.drop_first());
            }
            let ghost step = spec_del_step(pre_st, ev@, pre_elems);
            let ghost pass_step = DelStep {
                st: pre_st,
                emit: seq![ev@],
                elems: pre_elems,
                dropped: false,
            };
            let skip_target: Option<String> = match &st {
                PatchState::SkippingSubtree { target } => Some(target.clone()),
                PatchState::Copying => None,
            };
            let mut removed_here = false;
            match skip_target {
                Some(target) => {
                    let mut leave = false;
                    if let XmlEvent::End { name } = &ev {
                        if *name == target {
                            leave = true;
                        }
                    }
                    if leave {
                        st = PatchState::Copying;
                    }
                    removed_here = true;
                    proof {
                        assert(step.st == st@);
                        assert(step.emit =~= Seq::<EventV>::empty());
                        assert(step.elems == pre_elems);
                        assert(step.dropped == false);
                    }
                },
                None => {
                    match &ev {
                        XmlEvent::Start { name, attrs } => {
                            if string_is(name, "entry") {
                                match first_id_attr(attrs) {
                                    Some(idtext) => {
                                        match parse_u16(idtext.as_str()) {
                                            Some(v) => {
                                                proof {
                                                    assert(spec_event_target(attrs_view(attrs@))
                                                        == Some(v));
                                                }
                                                match find_index_with_id(&self.elements, v) {
                                                    Some(ix) => {
                                                        if self.elements[ix].is_removed() {
                                                            let _dropped_rec = self.elements.remove(
                                                                ix,
                                                            );
                                                            st = PatchState::SkippingSubtree {
                                                                target: name.clone(),
                                                            };
                                                            changed = true;
                                                            removed_here = true;
                                                            proof {
                                                                assert(elems_view(self.elements@)
                                                                    =~= pre_elems.remove(
                                                                    ix as int,
                                                                ));
                                                                assert(step.st == st@);
                                                                assert(step.emit
                                                                    =~= Seq::<EventV>::empty());
                                                                assert(step.elems == elems_view(
                                                                    self.elements@,
                                                                ));
                                                                assert(step.dropped == true);
                                                            }
                                                        } else {
                                                            proof {
                                                                assert(step =~~= pass_step);
                                                            }
                                                        }
                                                    },
                                                    None => {
                                                        proof {
                                                            assert(step =~~= pass_step);
                                                        }
                                                    },
                                                }
                                            },
                                            None => {
                                                proof {
                                                    assert(spec_event_target(attrs_view(attrs@))
                                                        is None);
                                                    assert(step =~~= pass_step);
                                                }
                                            },
                                        }
                                    },
                                    None => {
                                        proof {
                                            assert(step =~~= pass_step);
                                        }
                                    },
                                }
                            } else {
                                proof {
                                    assert(step =~~= pass_step);
                                }
                            }
                        },
                        _ => {
                            proof {
                                assert(step =~~= pass_step);
                            }
                        },
                    }
                },
            }
            if !removed_here {
                kept.push(ev);
                proof {
                    assert(step =~~= pass_step);
                    assert(events_view(kept@) =~= pre_kept + step.emit);
                }
            } else {
                proof {
                    assert(events_view(kept@) =~= pre_kept + step.emit);
                }
            }
            proof {
                assert(st@ == step.st);
                assert(elems_view(self.elements@) == step.elems);
                assert(changed == (pre_changed || step.dropped));
                assert(spec_del_run(pre_evs, pre_st, pre_elems, pre_kept, pre_changed)
                    == spec_del_run(
                    events_view(evs@),
                    st@,
                    elems_view(self.elements@),
                    events_view(kept@),
                    changed,
                ));
            }
        }
        proof {
            assert(events_view(evs@).len() == 0);
        }
        let text = events_to_text(&kept);
        (changed, text)
    }
}

/// The serialized subtrees of every record whose identifier is in `ids`,
/// in store order.
pub open spec fn spec_entries_for(elems: Seq<ElemV>, ids: Seq<u16>) -> Seq<EventV>
    decreases elems.len(),
{
    if elems.len() == 0 {
        Seq::empty()
    } else {
        spec_entries_for(elems.drop_last(), ids) + (match elems.last().id {
            Some(v) => if ids.contains(v) {
                spec_entry_events(elems.last())
            } else {
                Seq::empty()
            },
            None => Seq::empty(),
        })
    }
}

/// The insertion pass over the remaining events: every event passes
/// through, and right after the first start tag of the root container the
/// selected subtrees are spliced in.
pub open spec fn spec_ins_run(
    evs: Seq<EventV>,
    elems: Seq<ElemV>,
    ids: Seq<u16>,
    done: bool,
    out: Seq<EventV>,
) -> Seq<EventV>
    decreases evs.len(),
{
    if evs.len() == 0 {
        out
    } else {
        let ev = evs.first();
        let hit = !done && (ev matches EventV::Start { name, .. } && name == ("registry")@);
        let emit = if hit {
            seq![ev] + spec_entries_for(elems, ids)
        } else {
            seq![ev]
        };
        spec_ins_run(evs.drop_first(), elems, ids, done || hit, out + emit)
    }
}

/// The whole insertion pass over an event stream.
pub open spec fn spec_insert_pass(evs: Seq<EventV>, elems: Seq<ElemV>, ids: Seq<u16>) -> Seq<
    EventV,
> {
    spec_ins_run(evs, elems, ids, false, Seq::empty())
}

/// Serializes, in store order, every record whose identifier is in `ids`.
fn entries_for(elems: &Vec<AppElement>, ids: &Vec<u16>) -> (out: Vec<XmlEvent>)
    ensures
        events_view(out@) == spec_entries_for(elems_view(elems@), ids@),
{
    let n = elems.len();
    let mut out: Vec<XmlEvent> = Vec::new();
    let mut i: usize = 0;
    while i < n
        invariant
            0 <= i <= n,
            n == elems@.len(),
            events_view(out@) == spec_entries_for(elems_view(elems@).subrange(0, i as int), ids@),
        decreases n - i,
    {
        let ghost pre_out = events_view(out@);
        let sel = match elems[i].id() {
            Some(v) => vec_contains_u16(ids, v),
            None => false,
        };
        if sel {
            let mut sub = elems[i].to_events();
            let ghost subv = events_view(sub@);
            out.append(&mut sub);
            proof {
                assert(events_view(out@) =~= pre_out + subv);
            }
        }
        proof {
            let ev = elems_view(elems@);
            let prev = ev.subrange(0, i as int);
            let cur = ev.subrange(0, i as int + 1);
            assert(cur.drop_last() =~= prev);
            assert(cur.last() == ev[i as int]);
            assert(events_view(out@) =~= spec_entries_for(cur, ids@));
        }
        i = i + 1;
    }
    proof {
        assert(elems_view(elems@).subrange(0, n as int) =~= elems_view(elems@));
    }
    out
}

impl AppState {
    /// The insertion pass. Parses the document as it stands, copies every
    /// event through, and right after the first start tag of the root
    /// container emits the serialized subtree of every record whose
    /// identifier is in `ids`, in store order.
    pub fn insert_created_entries(&self, xml: &str, ids: &Vec<u16>) -> (r: String)
        ensures
            r@ == spec_doc_text(
                spec_insert_pass(spec_parse_raw(xml@), elems_view(self.elements@), ids@),
            ),
    {
        let mut evs = parse_events_raw(xml);
        let ghost all = events_view(evs@);
        let mut out: Vec<XmlEvent> = Vec::new();
        let mut done = false;
        while evs.len() > 0
            invariant
                spec_ins_run(
                    events_view(evs@),
                    elems_view(self.elements@),
                    ids@,
                    done,
                    events_view(out@),
                ) == spec_insert_pass(all, elems_view(self.elements@), ids@),
            decreases evs@.len(),
        {
            let ghost pre_evs = events_view(evs@);
            let ghost pre_done = done;
            let ghost pre_out = events_view(out@);
            let ev = evs.remove(0);
            proof {
                assert(pre_evs.first() == ev@);
                assert(events_view(evs@) =~= pre_evs.drop_first());
            }
            let mut hit = false;
            if !done {
                if let XmlEvent::Start { name, .. } = &ev {
                    if string_is(name, "registry") {
                        hit = true;
                    }
                }
            }
            proof {
                let spec_hit = !pre_done && (ev@ matches EventV::Start { name, .. } && name == (
                "registry")@);
                assert(hit == spec_hit);
            }
            out.push(ev);
            if hit {
                let ghost mid_out = events_view(out@);
                let mut subs = entries_for(&self.elements, ids);
                let ghost subsv = events_view(subs@);
                out.append(&mut subs);
                done = true;
                proof {
                    assert(mid_out =~= pre_out.push(ev@));
                    assert(events_view(out@) =~= pre_out + (seq![ev@] + subsv));
                }
            } else {
                proof {
                    assert(events_view(out@) =~= pre_out + seq![ev@]);
                }
            }
            proof {
                assert(spec_ins_run(pre_evs, elems_view(self.elements@), ids@, pre_done, pre_out)
                    == spec_ins_run(
                    events_view(evs@),
                    elems_view(self.elements@),
                    ids@,
                    done,
                    events_view(out@),
                ));
            }
        }
        proof {
            assert(events_view(evs@).len() == 0);
        }
        events_to_text(&out)
    }
}

} // verus!
