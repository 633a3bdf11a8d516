//! Laws of the engine, proved once and for all: how the deletion pass
//! treats whole documents, the serialize-then-delete round trip, the
//! insertion splice, and the merge's behaviour and invariant.

use vstd::prelude::*;

use crate::digits::spec_all_digits;
use crate::digits::spec_dec;
use crate::digits::spec_digit_char;
use crate::digits::spec_digit_val;
use crate::digits::spec_digits_val;
use crate::digits::spec_parse_dec;
use crate::digits::spec_strip_plus;
use crate::event::AttrV;
use crate::event::EventV;
use crate::patch::DelOut;
use crate::patch::PatchStateV;
use crate::patch::spec_del_run;
use crate::patch::spec_entries_for;
use crate::patch::spec_ins_run;
use crate::patch::spec_insert_pass;
use crate::patch::spec_del_step;
use crate::patch::spec_delete_pass;
use crate::patch::spec_event_target;
use crate::patch::lemma_find_id;
use crate::patch::spec_find_id;
use crate::patch::spec_id_attr;
use crate::record::ElemV;
use crate::record::spec_entry_events;
use crate::record::spec_same_entry;
use crate::state::spec_has_same;
use crate::state::spec_ids_unique;
use crate::state::spec_merge;

verus! {

/// Running the deletion pass over a concatenation is running it over the
/// first part and then over the second, carrying the state along.
pub proof fn lemma_del_run_append(
    a: Seq<EventV>,
    b: Seq<EventV>,
    st: PatchStateV,
    elems: Seq<ElemV>,
    kept: Seq<EventV>,
    changed: bool,
)
    ensures
        spec_del_run(a + b, st, elems, kept, changed) == ({
            let m = spec_del_run(a, st, elems, kept, changed);
            spec_del_run(b, m.st, m.elems, m.kept, m.changed)
        }),
    decreases a.len(),
{
    if a.len() == 0 {
        assert(a + b =~= b);
    } else {
        let step = spec_del_step(st, a.first(), elems);
        assert((a + b).first() == a.first());
        assert((a + b).drop_first() =~= a.drop_first() + b);
        lemma_del_run_append(
            a.drop_first(),
            b,
            step.st,
            step.elems,
            kept + step.emit,
            changed || step.dropped,
        );
    }
}

/// While skipping a subtree, every event short of the matching end tag is
/// swallowed: nothing is emitted, the store does not change, and the pass
/// stays in skip mode.
pub proof fn lemma_del_run_skipping(
    evs: Seq<EventV>,
    target: Seq<char>,
    elems: Seq<ElemV>,
    kept: Seq<EventV>,
    changed: bool,
)
    requires
        forall|i: int|
            0 <= i < evs.len() ==> !((#[trigger] evs[i]) matches EventV::End { name } && name
                == target),
    ensures
        spec_del_run(evs, PatchStateV::SkippingSubtree { target }, elems, kept, changed) == (DelOut {
            kept,
            elems,
            changed,
            st: PatchStateV::SkippingSubtree { target },
        }),
    decreases evs.len(),
{
    if evs.len() > 0 {
        let d = evs.drop_first();
        let step = spec_del_step(
            PatchStateV::SkippingSubtree { target },
            evs.first(),
            elems,
        );
        assert(evs[0] == evs.first());
        assert(step.emit =~= Seq::<EventV>::empty());
        assert(kept + step.emit =~= kept);
        assert forall|i: int|
            0 <= i < d.len() implies !((#[trigger] d[i]) matches EventV::End { name } && name
            == target) by {
            assert(d[i] == evs[i + 1]);
        }
        lemma_del_run_skipping(d, target, elems, kept, changed);
    }
}

/// While copying, a stretch that holds no entry start tag passes through
/// unchanged: every event is emitted, the store does not change, and the
/// pass stays in copy mode.
pub proof fn lemma_del_run_copying(
    evs: Seq<EventV>,
    elems: Seq<ElemV>,
    kept: Seq<EventV>,
    changed: bool,
)
    requires
        forall|i: int|
            0 <= i < evs.len() ==> !((#[trigger] evs[i]) matches EventV::Start { name, .. } && name
                == ("entry")@),
    ensures
        spec_del_run(evs, PatchStateV::Copying, elems, kept, changed) == (DelOut {
            kept: kept + evs,
            elems,
            changed,
            st: PatchStateV::Copying,
        }),
    decreases evs.len(),
{
    if evs.len() == 0 {
        assert(kept + evs =~= kept);
    } else {
        let d = evs.drop_first();
        let step = spec_del_step(PatchStateV::Copying, evs.first(), elems);
        assert(evs[0] == evs.first());
        assert(step.st == PatchStateV::Copying && step.elems == elems && step.dropped == false);
        assert(step.emit =~= seq![evs.first()]);
        assert forall|i: int|
            0 <= i < d.len() implies !((#[trigger] d[i]) matches EventV::Start { name, .. } && name
            == ("entry")@) by {
            assert(d[i] == evs[i + 1]);
        }
        lemma_del_run_copying(d, elems, kept + step.emit, changed);
        assert(kept + step.emit + d =~= kept + evs);
    }
}

/// The canonical decimal rendering of a number is one or more digits, not
/// a sign, and denotes the number itself.
pub proof fn lemma_dec_digits(n: nat)
    ensures
        spec_dec(n).len() > 0,
        spec_all_digits(spec_dec(n)),
        spec_digits_val(spec_dec(n)) == n,
        spec_dec(n)[0] != '+',
    decreases n,
{
    if n < 10 {
        let s = spec_dec(n);
        assert(s =~= seq![spec_digit_char(n)]);
        assert(spec_digit_val(spec_digit_char(n)) == n);
        assert(s.drop_last() =~= Seq::<char>::empty());
        assert(spec_digits_val(Seq::<char>::empty()) == 0);
        assert(s.last() == spec_digit_char(n));
        assert(spec_digits_val(s) == n);
        assert(spec_digit_char(n) != '+');
    } else {
        lemma_dec_digits(n / 10);
        let s = spec_dec(n);
        let head = spec_dec(n / 10);
        assert(s == head.push(spec_digit_char(n % 10)));
        assert(s.drop_last() =~= head);
        assert(s.last() == spec_digit_char(n % 10));
        assert(spec_digit_val(spec_digit_char(n % 10)) == n % 10);
        assert(spec_digits_val(s) == spec_digits_val(head) * 10 + n % 10);
        assert((n / 10) * 10 + n % 10 == n) by (nonlinear_arith);
        assert forall|i: int| 0 <= i < s.len() implies crate::digits::spec_is_digit(
            #[trigger] s[i],
        ) by {
            if i < head.len() {
                assert(s[i] == head[i]);
            } else {
                assert(s[i] == spec_digit_char(n % 10));
            }
        }
        assert(s[0] == head[0]);
    }
}

/// Law: parsing the canonical decimal rendering of a number gives the
/// number back, for every number within the parser's bound.
pub proof fn lemma_dec_roundtrip(n: nat, max: nat)
    requires
        n <= max,
    ensures
        spec_parse_dec(spec_dec(n), max) == Some(n),
{
    lemma_dec_digits(n);
    let s = spec_dec(n);
    assert(spec_strip_plus(s) == s);
}

/// The serialized subtree of an identified record: its head is the entry
/// start tag addressed by the record's identifier, its tail is the entry
/// end tag, and nothing in between starts or ends an entry element.
pub proof fn lemma_entry_events_shape(r: ElemV, v: u16)
    requires
        r.id == Some(v),
    ensures
        ({
            let b = spec_entry_events(r);
            &&& b.len() > 2
            &&& (b.first() matches EventV::Start { name, attrs } && name == ("entry")@
                && spec_event_target(attrs) == Some(v))
            &&& b.last() == (EventV::End { name: ("entry")@ })
            &&& (forall|i: int|
                1 <= i < b.len() - 1 ==> !((#[trigger] b[i]) matches EventV::End { name } && name
                    == ("entry")@))
            &&& (forall|i: int|
                1 <= i < b.len() - 1 ==> !((#[trigger] b[i]) matches EventV::Start {
                    name,
                    ..
                } && name == ("entry")@))
        }),
{
    reveal_strlit("entry");
    reveal_strlit("name");
    reveal_strlit("description");
    reveal_strlit("due");
    reveal_strlit("id");
    let b = spec_entry_events(r);
    let attrs = seq![AttrV { key: ("id")@, value: spec_dec(v as nat) }];
    assert(spec_id_attr(attrs) == Some(spec_dec(v as nat)));
    lemma_dec_roundtrip(v as nat, u16::MAX as nat);
    assert(spec_event_target(attrs) == Some(v));
    assert(("name")@.len() == 4 && ("entry")@.len() == 5 && ("description")@.len() == 11 && (
    "due")@.len() == 3);
    match r.due {
        Some(d) => {
            assert(b =~= seq![
                EventV::Start { name: ("entry")@, attrs },
                EventV::Start { name: ("name")@, attrs: Seq::empty() },
                EventV::Text { raw: crate::event::spec_escape(r.title), text: r.title },
                EventV::End { name: ("name")@ },
                EventV::Start { name: ("description")@, attrs: Seq::empty() },
                EventV::Text { raw: crate::event::spec_escape(r.description), text: r.description },
                EventV::End { name: ("description")@ },
                EventV::Start { name: ("due")@, attrs: Seq::empty() },
                EventV::Text {
                    raw: crate::event::spec_escape(spec_dec(d as nat)),
                    text: spec_dec(d as nat),
                },
                EventV::End { name: ("due")@ },
                EventV::End { name: ("entry")@ },
            ]);
        },
        None => {
            assert(b =~= seq![
                EventV::Start { name: ("entry")@, attrs },
                EventV::Start { name: ("name")@, attrs: Seq::empty() },
                EventV::Text { raw: crate::event::spec_escape(r.title), text: r.title },
                EventV::End { name: ("name")@ },
                EventV::Start { name: ("description")@, attrs: Seq::empty() },
                EventV::Text { raw: crate::event::spec_escape(r.description), text: r.description },
                EventV::End { name: ("description")@ },
                EventV::End { name: ("entry")@ },
            ]);
        },
    }
}

/// Law: the serialize-then-delete round trip. Serialize an identified
/// record into a registry document; when the record's identifier names a
/// local record marked removed, the deletion pass drops the whole subtree
/// again — the surviving document is the bare registry, the matching
/// record leaves the store, and the pass reports a change.
pub proof fn lemma_round_trip(r: ElemV, elems: Seq<ElemV>, v: u16)
    requires
        r.id == Some(v),
        spec_find_id(elems, v) >= 0,
        elems[spec_find_id(elems, v)].removed,
    ensures
        ({
            let head = seq![EventV::Start { name: ("registry")@, attrs: Seq::empty() }];
            let tail = seq![EventV::End { name: ("registry")@ }];
            let out = spec_delete_pass(head + spec_entry_events(r) + tail, elems);
            &&& out.kept == head + tail
            &&& out.elems == elems.remove(spec_find_id(elems, v))
            &&& out.changed
        }),
{
    reveal_strlit("registry");
    reveal_strlit("entry");
    let head = seq![EventV::Start { name: ("registry")@, attrs: Seq::empty() }];
    let tail = seq![EventV::End { name: ("registry")@ }];
    let b = spec_entry_events(r);
    let doc = head + b + tail;
    assert(("registry")@.len() == 8 && ("entry")@.len() == 5);
    lemma_entry_events_shape(r, v);
    // head passes through
    lemma_del_run_append(head, b + tail, PatchStateV::Copying, elems, Seq::empty(), false);
    assert(head + b + tail =~= head + (b + tail));
    assert forall|i: int|
        0 <= i < head.len() implies !((#[trigger] head[i]) matches EventV::Start {
        name,
        ..
    } && name == ("entry")@) by {
        assert(head[i] == head[0]);
    }
    lemma_del_run_copying(head, elems, Seq::empty(), false);
    let kept1 = Seq::<EventV>::empty() + head;
    // the entry start tag opens a skip and deletes the record
    let step = spec_del_step(PatchStateV::Copying, b.first(), elems);
    let ix = spec_find_id(elems, v);
    assert(step.st == PatchStateV::SkippingSubtree { target: ("entry")@ });
    assert(step.elems == elems.remove(ix));
    assert(step.dropped);
    assert(step.emit =~= Seq::<EventV>::empty());
    // the inner events and the entry end tag are swallowed
    let inner = b.subrange(1, b.len() - 1);
    assert(b =~= seq![b.first()] + inner + seq![b.last()]);
    lemma_del_run_append(b, tail, PatchStateV::Copying, elems, kept1, false);
    assert(b.drop_first() =~= inner + seq![b.last()]);
    assert(kept1 + step.emit =~= kept1);
    lemma_del_run_append(
        inner,
        seq![b.last()],
        step.st,
        step.elems,
        kept1,
        true,
    );
    assert forall|i: int|
        0 <= i < inner.len() implies !((#[trigger] inner[i]) matches EventV::End { name } && name
        == ("entry")@) by {
        assert(inner[i] == b[i + 1]);
    }
    lemma_del_run_skipping(inner, ("entry")@, step.elems, kept1, true);
    // the entry end tag closes the skip
    let step2 = spec_del_step(
        PatchStateV::SkippingSubtree { target: ("entry")@ },
        b.last(),
        step.elems,
    );
    assert(step2.st == PatchStateV::Copying);
    assert(step2.emit =~= Seq::<EventV>::empty());
    assert(kept1 + step2.emit =~= kept1);
    // the registry end tag passes through
    assert forall|i: int|
        0 <= i < tail.len() implies !((#[trigger] tail[i]) matches EventV::Start {
        name,
        ..
    } && name == ("entry")@) by {
        assert(tail[i] == tail[0]);
    }
    lemma_del_run_copying(tail, step.elems, kept1, true);
    assert(kept1 + tail =~= head + tail);
    // assemble the chain
    let run_b = spec_del_run(b, PatchStateV::Copying, elems, kept1, false);
    assert(run_b == spec_del_run(b.drop_first(), step.st, step.elems, kept1 + step.emit, true));
    assert(spec_del_run(b.drop_first(), step.st, step.elems, kept1 + step.emit, true)
        == spec_del_run(inner + seq![b.last()], step.st, step.elems, kept1, true));
    let one = seq![b.last()];
    assert(one.first() == b.last());
    assert(one.drop_first() =~= Seq::<EventV>::empty());
    let run_one = spec_del_run(
        one,
        PatchStateV::SkippingSubtree { target: ("entry")@ },
        step.elems,
        kept1,
        true,
    );
    assert(run_one == spec_del_run(
        one.drop_first(),
        step2.st,
        step2.elems,
        kept1 + step2.emit,
        true,
    ));
    assert(spec_del_run(
        Seq::<EventV>::empty(),
        PatchStateV::Copying,
        step.elems,
        kept1,
        true,
    ) == (DelOut { kept: kept1, elems: step.elems, changed: true, st: PatchStateV::Copying }));
    assert(run_one == (DelOut {
        kept: kept1,
        elems: step.elems,
        changed: true,
        st: PatchStateV::Copying,
    }));
    assert(run_b == (DelOut {
        kept: kept1,
        elems: step.elems,
        changed: true,
        st: PatchStateV::Copying,
    }));
    assert(spec_del_run(b + tail, PatchStateV::Copying, elems, kept1, false) == (DelOut {
        kept: kept1 + tail,
        elems: step.elems,
        changed: true,
        st: PatchStateV::Copying,
    }));
    let doc_run = spec_delete_pass(doc, elems);
    assert(spec_del_run(head, PatchStateV::Copying, elems, Seq::empty(), false) == (DelOut {
        kept: kept1,
        elems,
        changed: false,
        st: PatchStateV::Copying,
    }));
    assert(doc_run == spec_del_run(head + (b + tail), PatchStateV::Copying, elems, Seq::empty(), false));
    assert(doc_run == (DelOut {
        kept: kept1 + tail,
        elems: step.elems,
        changed: true,
        st: PatchStateV::Copying,
    }));
    assert(doc_run.kept == head + tail);
}

/// Law: merge idempotence. Merging a remote record whose identity is
/// already present never changes the store; merging one with an unseen
/// identity appends exactly that record.
pub proof fn lemma_merge_idempotence(es: Seq<ElemV>, e: ElemV)
    ensures
        spec_has_same(es, e) ==> spec_merge(es, seq![e]) == es,
        !spec_has_same(es, e) ==> spec_merge(es, seq![e]) == es.push(e),
{
    let s = seq![e];
    assert(s.first() == e);
    assert(s.drop_first() =~= Seq::<ElemV>::empty());
    assert(spec_merge(es, Seq::<ElemV>::empty()) == es);
    assert(spec_merge(es.push(e), Seq::<ElemV>::empty()) == es.push(e));
    if spec_has_same(es, e) {
        assert(spec_merge(es, s) == spec_merge(es, s.drop_first()));
    } else {
        assert(spec_merge(es, s) == spec_merge(es.push(e), s.drop_first()));
    }
}

/// Law: the merge preserves the store invariant — among non-removed
/// records, identifiers stay unique.
pub proof fn lemma_merge_preserves_unique(es: Seq<ElemV>, incoming: Seq<ElemV>)
    requires
        spec_ids_unique(es),
    ensures
        spec_ids_unique(spec_merge(es, incoming)),
    decreases incoming.len(),
{
    if incoming.len() > 0 {
        let e = incoming.first();
        if spec_has_same(es, e) {
            lemma_merge_preserves_unique(es, incoming.drop_first());
        } else {
            let es2 = es.push(e);
            assert(spec_ids_unique(es2)) by {
                assert forall|i: int, j: int|
                    #![trigger es2[i], es2[j]]
                    0 <= i < j < es2.len() && !es2[i].removed && !es2[j].removed && es2[i].id
                        is Some implies es2[i].id != es2[j].id by {
                    if j == es.len() {
                        assert(es2[i] == es[i]);
                        assert(!spec_same_entry(e, es[i]));
                        match e.id {
                            Some(w) => {
                                assert(es[i].id != Some(w));
                            },
                            None => {},
                        }
                    } else {
                        assert(es2[i] == es[i]);
                        assert(es2[j] == es[j]);
                    }
                }
            }
            lemma_merge_preserves_unique(es2, incoming.drop_first());
        }
    }
}


/// Whether an event is the start tag of an entry subtree addressed by
/// this identifier.
pub open spec fn spec_is_entry_start_for(ev: EventV, v: u16) -> bool {
    ev matches EventV::Start { name, attrs } && name == ("entry")@ && spec_event_target(attrs)
        == Some(v)
}

/// How many entry subtrees addressed by this identifier a stream starts.
pub open spec fn spec_count_starts(evs: Seq<EventV>, v: u16) -> nat
    decreases evs.len(),
{
    if evs.len() == 0 {
        0
    } else {
        (if spec_is_entry_start_for(evs.first(), v) {
            1nat
        } else {
            0nat
        }) + spec_count_starts(evs.drop_first(), v)
    }
}

/// Counting distributes over concatenation.
pub proof fn lemma_count_starts_append(a: Seq<EventV>, b: Seq<EventV>, v: u16)
    ensures
        spec_count_starts(a + b, v) == spec_count_starts(a, v) + spec_count_starts(b, v),
    decreases a.len(),
{
    if a.len() == 0 {
        assert(a + b =~= b);
    } else {
        assert((a + b).first() == a.first());
        assert((a + b).drop_first() =~= a.drop_first() + b);
        lemma_count_starts_append(a.drop_first(), b, v);
    }
}

/// A stream without entry start tags starts no entry subtree.
pub proof fn lemma_count_starts_zero(evs: Seq<EventV>, v: u16)
    requires
        forall|i: int|
            0 <= i < evs.len() ==> !((#[trigger] evs[i]) matches EventV::Start { name, .. } && name
                == ("entry")@),
    ensures
        spec_count_starts(evs, v) == 0,
    decreases evs.len(),
{
    if evs.len() > 0 {
        assert(evs[0] == evs.first());
        let d = evs.drop_first();
        assert forall|i: int|
            0 <= i < d.len() implies !((#[trigger] d[i]) matches EventV::Start { name, .. } && name
            == ("entry")@) by {
            assert(d[i] == evs[i + 1]);
        }
        lemma_count_starts_zero(d, v);
    }
}

/// The serialized subtree of a record starts exactly one entry subtree
/// with the record's identifier, and none with any other.
pub proof fn lemma_count_starts_entry(r: ElemV, v: u16)
    ensures
        spec_count_starts(spec_entry_events(r), v) == (if r.id is Some && (r.id matches Some(w)
            && w == v) {
            1nat
        } else {
            0nat
        }),
{
    let b = spec_entry_events(r);
    match r.id {
        None => {
            assert(b =~= Seq::<EventV>::empty());
        },
        Some(w) => {
            lemma_entry_events_shape(r, w);
            let inner = b.subrange(1, b.len() - 1);
            assert(b =~= seq![b.first()] + (inner + seq![b.last()]));
            lemma_count_starts_append(seq![b.first()], inner + seq![b.last()], v);
            lemma_count_starts_append(inner, seq![b.last()], v);
            assert forall|i: int|
                0 <= i < inner.len() implies !((#[trigger] inner[i]) matches EventV::Start {
                name,
                ..
            } && name == ("entry")@) by {
                assert(inner[i] == b[i + 1]);
            }
            lemma_count_starts_zero(inner, v);
            let one = seq![b.first()];
            assert(one.first() == b.first());
            assert(one.drop_first() =~= Seq::<EventV>::empty());
            assert(spec_count_starts(Seq::<EventV>::empty(), v) == 0);
            assert(spec_count_starts(one, v) == (if spec_is_entry_start_for(b.first(), v) {
                1nat
            } else {
                0nat
            }));
            let two = seq![b.last()];
            assert(two.first() == b.last());
            assert(two.drop_first() =~= Seq::<EventV>::empty());
            assert(!spec_is_entry_start_for(b.last(), v));
            assert(spec_count_starts(two, v) == 0);
            if w == v {
                assert(spec_is_entry_start_for(b.first(), v));
            } else {
                assert(spec_event_target_of_first_is(b, w));
                assert(!spec_is_entry_start_for(b.first(), v));
            }
        },
    }
}

/// The first event of an identified record's subtree is addressed by the
/// record's identifier.
pub open spec fn spec_event_target_of_first_is(b: Seq<EventV>, w: u16) -> bool {
    b.first() matches EventV::Start { name, attrs } && spec_event_target(attrs) == Some(w)
}

/// Identified records carry pairwise distinct identifiers.
pub open spec fn spec_distinct_ids(es: Seq<ElemV>) -> bool {
    forall|i: int, j: int|
        #![trigger es[i], es[j]]
        0 <= i < j < es.len() && es[i].id is Some ==> es[i].id != es[j].id
}

/// Law: one subtree per identifier. When identified records carry
/// distinct identifiers, the spliced segment of the insertion pass starts
/// exactly one entry subtree for an identifier that is selected and held
/// by some record, and none for any other identifier.
pub proof fn lemma_one_subtree_per_id(elems: Seq<ElemV>, ids: Seq<u16>, v: u16)
    requires
        spec_distinct_ids(elems),
    ensures
        spec_count_starts(spec_entries_for(elems, ids), v) == (if ids.contains(v) && (exists|
            i: int,
        |
            0 <= i < elems.len() && (#[trigger] elems[i]).id == Some(v)) {
            1nat
        } else {
            0nat
        }),
    decreases elems.len(),
{
    if elems.len() == 0 {
    } else {
        let d = elems.drop_last();
        let last = elems.last();
        assert forall|i: int, j: int|
            #![trigger d[i], d[j]]
            0 <= i < j < d.len() && d[i].id is Some implies d[i].id != d[j].id by {
            assert(d[i] == elems[i]);
            assert(d[j] == elems[j]);
        }
        lemma_one_subtree_per_id(d, ids, v);
        let tail_part = match last.id {
            Some(w) => if ids.contains(w) {
                spec_entry_events(last)
            } else {
                Seq::<EventV>::empty()
            },
            None => Seq::<EventV>::empty(),
        };
        assert(spec_entries_for(elems, ids) == spec_entries_for(d, ids) + tail_part);
        lemma_count_starts_append(spec_entries_for(d, ids), tail_part, v);
        match last.id {
            Some(w) => {
                if ids.contains(w) {
                    lemma_count_starts_entry(last, v);
                } else {
                    assert(spec_count_starts(tail_part, v) == 0);
                }
                if w == v {
                    assert(elems[elems.len() - 1].id == Some(v));
                    assert forall|i: int|
                        0 <= i < d.len() implies (#[trigger] d[i]).id != Some(v) by {
                        assert(elems[i] == d[i]);
                        assert(elems[elems.len() - 1].id is Some);
                    }
                    assert(!(exists|i: int|
                        0 <= i < d.len() && (#[trigger] d[i]).id == Some(v)));
                } else {
                    assert forall|i: int|
                        0 <= i < d.len() && (#[trigger] d[i]).id == Some(v) implies (exists|
                            j: int,
                        |
                            0 <= j < elems.len() && (#[trigger] elems[j]).id == Some(v)) by {
                        assert(elems[i] == d[i]);
                    }
                    if exists|j: int| 0 <= j < elems.len() && (#[trigger] elems[j]).id == Some(v) {
                        let j = choose|j: int|
                            0 <= j < elems.len() && (#[trigger] elems[j]).id == Some(v);
                        assert(j < d.len());
                        assert(d[j] == elems[j]);
                    }
                }
            },
            None => {
                assert(spec_count_starts(tail_part, v) == 0);
                if exists|j: int| 0 <= j < elems.len() && (#[trigger] elems[j]).id == Some(v) {
                    let j = choose|j: int|
                        0 <= j < elems.len() && (#[trigger] elems[j]).id == Some(v);
                    assert(j < d.len());
                    assert(d[j] == elems[j]);
                }
            },
        }
    }
}

/// Once the splice has happened, the insertion pass copies every
/// remaining event through.
pub proof fn lemma_ins_run_done(evs: Seq<EventV>, elems: Seq<ElemV>, ids: Seq<u16>, out: Seq<EventV>)
    ensures
        spec_ins_run(evs, elems, ids, true, out) == out + evs,
    decreases evs.len(),
{
    if evs.len() == 0 {
        assert(out + evs =~= out);
    } else {
        lemma_ins_run_done(evs.drop_first(), elems, ids, out + seq![evs.first()]);
        assert(out + seq![evs.first()] + evs.drop_first() =~= out + evs);
    }
}

/// Before the splice, a stretch without a root start tag passes through.
pub proof fn lemma_ins_run_prefix(
    a: Seq<EventV>,
    b: Seq<EventV>,
    elems: Seq<ElemV>,
    ids: Seq<u16>,
    out: Seq<EventV>,
)
    requires
        forall|i: int|
            0 <= i < a.len() ==> !((#[trigger] a[i]) matches EventV::Start { name, .. } && name == (
            "registry")@),
    ensures
        spec_ins_run(a + b, elems, ids, false, out) == spec_ins_run(b, elems, ids, false, out + a),
    decreases a.len(),
{
    if a.len() == 0 {
        assert(a + b =~= b);
        assert(out + a =~= out);
    } else {
        assert(a[0] == a.first());
        assert((a + b).first() == a.first());
        assert((a + b).drop_first() =~= a.drop_first() + b);
        let d = a.drop_first();
        assert forall|i: int|
            0 <= i < d.len() implies !((#[trigger] d[i]) matches EventV::Start { name, .. } && name
            == ("registry")@) by {
            assert(d[i] == a[i + 1]);
        }
        lemma_ins_run_prefix(d, b, elems, ids, out + seq![a.first()]);
        assert(out + seq![a.first()] + d =~= out + a);
    }
}

/// Law: the insertion splice. For a document whose first root start tag
/// stands at index `k`, the insertion pass emits the document unchanged
/// but with the selected serialized subtrees spliced in right after that
/// start tag, in store order; pre-existing content is untouched and keeps
/// its order.
pub proof fn lemma_insert_splices(evs: Seq<EventV>, elems: Seq<ElemV>, ids: Seq<u16>, k: int)
    requires
        0 <= k < evs.len(),
        evs[k] matches EventV::Start { name, .. } && name == ("registry")@,
        forall|i: int|
            0 <= i < k ==> !((#[trigger] evs[i]) matches EventV::Start { name, .. } && name == (
            "registry")@),
    ensures
        spec_insert_pass(evs, elems, ids) == evs.subrange(0, k + 1) + spec_entries_for(elems, ids)
            + evs.subrange(k + 1, evs.len() as int),
{
    let a = evs.subrange(0, k);
    let rest = evs.subrange(k + 1, evs.len() as int);
    let mid = seq![evs[k]] + rest;
    assert(evs =~= a + mid);
    assert forall|i: int|
        0 <= i < a.len() implies !((#[trigger] a[i]) matches EventV::Start { name, .. } && name
        == ("registry")@) by {
        assert(a[i] == evs[i]);
    }
    lemma_ins_run_prefix(a, mid, elems, ids, Seq::empty());
    assert(Seq::<EventV>::empty() + a =~= a);
    assert(mid.first() == evs[k]);
    assert(mid.drop_first() =~= rest);
    let emit = seq![evs[k]] + spec_entries_for(elems, ids);
    assert(spec_ins_run(mid, elems, ids, false, a) == spec_ins_run(
        rest,
        elems,
        ids,
        true,
        a + emit,
    ));
    lemma_ins_run_done(rest, elems, ids, a + emit);
    assert(a + emit + rest =~= evs.subrange(0, k + 1) + spec_entries_for(elems, ids) + rest);
}

/// Law: without a root start tag, the insertion pass leaves the document
/// unchanged.
pub proof fn lemma_insert_no_root(evs: Seq<EventV>, elems: Seq<ElemV>, ids: Seq<u16>)
    requires
        forall|i: int|
            0 <= i < evs.len() ==> !((#[trigger] evs[i]) matches EventV::Start { name, .. } && name
                == ("registry")@),
    ensures
        spec_insert_pass(evs, elems, ids) == evs,
{
    lemma_ins_run_prefix(evs, Seq::empty(), elems, ids, Seq::empty());
    assert(evs + Seq::<EventV>::empty() =~= evs);
    assert(Seq::<EventV>::empty() + evs =~= evs);
}


/// One item of a flat registry document: a lone event, or a whole entry
/// subtree.
pub enum DocItem {
    Plain { ev: EventV },
    Entry { attrs: Seq<AttrV>, inner: Seq<EventV> },
}

/// The events of one item.
pub open spec fn spec_item_events(it: DocItem) -> Seq<EventV> {
    match it {
        DocItem::Plain { ev } => seq![ev],
        DocItem::Entry { attrs, inner } => seq![EventV::Start { name: ("entry")@, attrs }] + inner
            + seq![EventV::End { name: ("entry")@ }],
    }
}

/// The events of a whole document.
pub open spec fn spec_doc_of(items: Seq<DocItem>) -> Seq<EventV>
    decreases items.len(),
{
    if items.len() == 0 {
        Seq::empty()
    } else {
        spec_item_events(items.first()) + spec_doc_of(items.drop_first())
    }
}

/// A well-formed item of the flat schema: a lone event is not an entry
/// start tag, and an entry subtree holds no nested entry start or end tag.
pub open spec fn spec_item_ok(it: DocItem) -> bool {
    match it {
        DocItem::Plain { ev } => !(ev matches EventV::Start { name, .. } && name == ("entry")@),
        DocItem::Entry { attrs, inner } => forall|i: int|
            0 <= i < inner.len() ==> (!((#[trigger] inner[i]) matches EventV::Start {
                name,
                ..
            } && name == ("entry")@) && !(inner[i] matches EventV::End { name } && name == (
            "entry")@)),
    }
}

pub open spec fn spec_items_ok(items: Seq<DocItem>) -> bool {
    forall|i: int| 0 <= i < items.len() ==> spec_item_ok(#[trigger] items[i])
}

/// Whether the deletion pass drops this item against this store: an entry
/// whose identifier names a local record marked removed.
pub open spec fn spec_item_dropped(it: DocItem, elems: Seq<ElemV>) -> bool {
    it matches DocItem::Entry { attrs, .. } && (spec_event_target(attrs) matches Some(v)
        && spec_find_id(elems, v) >= 0 && elems[spec_find_id(elems, v)].removed)
}

/// The outcome of the deletion pass at the item level.
#[verifier::ext_equal]
pub struct DelItemsOut {
    pub kept: Seq<DocItem>,
    pub elems: Seq<ElemV>,
    pub changed: bool,
}

/// The deletion pass at the item level: a dropped entry disappears
/// together with its record; every other item is kept whole.
pub open spec fn spec_del_items(items: Seq<DocItem>, elems: Seq<ElemV>) -> DelItemsOut
    decreases items.len(),
{
    if items.len() == 0 {
        DelItemsOut { kept: Seq::empty(), elems, changed: false }
    } else {
        let it = items.first();
        if spec_item_dropped(it, elems) {
            match it {
                DocItem::Entry { attrs, inner } => match spec_event_target(attrs) {
                    Some(v) => {
                        let t = spec_del_items(
                            items.drop_first(),
                            elems.remove(spec_find_id(elems, v)),
                        );
                        DelItemsOut { kept: t.kept, elems: t.elems, changed: true }
                    },
                    None => spec_del_items(items.drop_first(), elems),
                },
                _ => spec_del_items(items.drop_first(), elems),
            }
        } else {
            let t = spec_del_items(items.drop_first(), elems);
            DelItemsOut { kept: seq![it] + t.kept, elems: t.elems, changed: t.changed }
        }
    }
}

/// What the deletion pass does with one whole entry subtree, in copy
/// mode: when its identifier names a local record marked removed, the
/// subtree is swallowed and the record deleted; otherwise the subtree
/// passes through whole.
pub proof fn lemma_del_run_entry_block(
    attrs: Seq<AttrV>,
    inner: Seq<EventV>,
    elems: Seq<ElemV>,
    kept: Seq<EventV>,
    changed: bool,
)
    requires
        spec_item_ok(DocItem::Entry { attrs, inner }),
    ensures
        ({
            let it = DocItem::Entry { attrs, inner };
            let block = spec_item_events(it);
            if spec_item_dropped(it, elems) {
                match spec_event_target(attrs) {
                    Some(v) => spec_del_run(block, PatchStateV::Copying, elems, kept, changed)
                        == (DelOut {
                        kept,
                        elems: elems.remove(spec_find_id(elems, v)),
                        changed: true,
                        st: PatchStateV::Copying,
                    }),
                    None => true,
                }
            } else {
                spec_del_run(block, PatchStateV::Copying, elems, kept, changed) == (DelOut {
                    kept: kept + block,
                    elems,
                    changed,
                    st: PatchStateV::Copying,
                })
            }
        }),
{
    let it = DocItem::Entry { attrs, inner };
    let block = spec_item_events(it);
    let head = EventV::Start { name: ("entry")@, attrs };
    let tail = EventV::End { name: ("entry")@ };
    assert(block =~= seq![head] + (inner + seq![tail]));
    assert(block.first() == head);
    let step = spec_del_step(PatchStateV::Copying, head, elems);
    assert(spec_del_run(block, PatchStateV::Copying, elems, kept, changed) == spec_del_run(
        block.drop_first(),
        step.st,
        step.elems,
        kept + step.emit,
        changed || step.dropped,
    ));
    assert(block.drop_first() =~= inner + seq![tail]);
    if spec_item_dropped(it, elems) {
        match spec_event_target(attrs) {
            Some(v) => {
                let ix = spec_find_id(elems, v);
                assert(step.st == PatchStateV::SkippingSubtree { target: ("entry")@ });
                assert(step.elems == elems.remove(ix));
                assert(step.dropped);
                assert(step.emit =~= Seq::<EventV>::empty());
                assert(kept + step.emit =~= kept);
                lemma_del_run_append(
                    inner,
                    seq![tail],
                    step.st,
                    step.elems,
                    kept,
                    true,
                );
                lemma_del_run_skipping(inner, ("entry")@, step.elems, kept, true);
                let one = seq![tail];
                assert(one.first() == tail);
                assert(one.drop_first() =~= Seq::<EventV>::empty());
                let step2 = spec_del_step(
                    PatchStateV::SkippingSubtree { target: ("entry")@ },
                    tail,
                    step.elems,
                );
                assert(step2.st == PatchStateV::Copying);
                assert(step2.emit =~= Seq::<EventV>::empty());
                assert(kept + step2.emit =~= kept);
                assert(spec_del_run(one, step.st, step.elems, kept, true) == spec_del_run(
                    Seq::<EventV>::empty(),
                    step2.st,
                    step2.elems,
                    kept + step2.emit,
                    true,
                ));
                assert(spec_del_run(
                    Seq::<EventV>::empty(),
                    PatchStateV::Copying,
                    step.elems,
                    kept,
                    true,
                ) == (DelOut {
                    kept,
                    elems: step.elems,
                    changed: true,
                    st: PatchStateV::Copying,
                }));
            },
            None => {},
        }
    } else {
        assert(step.st == PatchStateV::Copying);
        assert(step.elems == elems);
        assert(!step.dropped);
        assert(step.emit =~= seq![head]);
        lemma_del_run_append(
            inner,
            seq![tail],
            PatchStateV::Copying,
            elems,
            kept + seq![head],
            changed,
        );
        lemma_del_run_copying(inner, elems, kept + seq![head], changed);
        let one = seq![tail];
        assert(one.first() == tail);
        assert(one.drop_first() =~= Seq::<EventV>::empty());
        let step2 = spec_del_step(PatchStateV::Copying, tail, elems);
        assert(step2.st == PatchStateV::Copying && step2.elems == elems && !step2.dropped);
        assert(step2.emit =~= seq![tail]);
        assert(spec_del_run(one, PatchStateV::Copying, elems, kept + seq![head] + inner, changed)
            == spec_del_run(
            Seq::<EventV>::empty(),
            PatchStateV::Copying,
            elems,
            kept + seq![head] + inner + seq![tail],
            changed,
        ));
        assert(kept + seq![head] + inner + seq![tail] =~= kept + block);
    }
}

/// The deletion pass over a whole flat document, with the state carried
/// along.
pub proof fn lemma_del_run_items(
    items: Seq<DocItem>,
    elems: Seq<ElemV>,
    kept: Seq<EventV>,
    changed: bool,
)
    requires
        spec_items_ok(items),
    ensures
        ({
            let d = spec_del_items(items, elems);
            spec_del_run(spec_doc_of(items), PatchStateV::Copying, elems, kept, changed)
                == (DelOut {
                kept: kept + spec_doc_of(d.kept),
                elems: d.elems,
                changed: changed || d.changed,
                st: PatchStateV::Copying,
            })
        }),
    decreases items.len(),
{
    if items.len() == 0 {
        assert(spec_doc_of(items) =~= Seq::<EventV>::empty());
        let d = spec_del_items(items, elems);
        assert(d.kept =~= Seq::<DocItem>::empty());
        assert(spec_doc_of(d.kept) =~= Seq::<EventV>::empty());
        assert(kept + spec_doc_of(d.kept) =~= kept);
    } else {
        let it = items.first();
        let rest = items.drop_first();
        assert(spec_item_ok(it)) by {
            assert(items[0] == it);
        }
        assert forall|i: int| 0 <= i < rest.len() implies spec_item_ok(#[trigger] rest[i]) by {
            assert(rest[i] == items[i + 1]);
        }
        assert(spec_doc_of(items) == spec_item_events(it) + spec_doc_of(rest));
        lemma_del_run_append(
            spec_item_events(it),
            spec_doc_of(rest),
            PatchStateV::Copying,
            elems,
            kept,
            changed,
        );
        match it {
            DocItem::Plain { ev } => {
                let one = spec_item_events(it);
                assert(one.first() == ev);
                assert(one.drop_first() =~= Seq::<EventV>::empty());
                let step = spec_del_step(PatchStateV::Copying, ev, elems);
                assert(step.st == PatchStateV::Copying && step.elems == elems && !step.dropped);
                assert(step.emit =~= seq![ev]);
                assert(spec_del_run(one, PatchStateV::Copying, elems, kept, changed)
                    == spec_del_run(
                    Seq::<EventV>::empty(),
                    step.st,
                    step.elems,
                    kept + step.emit,
                    changed,
                ));
                lemma_del_run_items(rest, elems, kept + seq![ev], changed);
                let t = spec_del_items(rest, elems);
                let d = spec_del_items(items, elems);
                assert(!spec_item_dropped(it, elems));
                assert(d.kept == seq![it] + t.kept);
                assert((seq![it] + t.kept).first() == it);
                assert((seq![it] + t.kept).drop_first() =~= t.kept);
                assert(spec_doc_of(d.kept) == spec_item_events(it) + spec_doc_of(t.kept));
                assert(kept + seq![ev] + spec_doc_of(t.kept) =~= kept + spec_doc_of(d.kept));
            },
            DocItem::Entry { attrs, inner } => {
                lemma_del_run_entry_block(attrs, inner, elems, kept, changed);
                if spec_item_dropped(it, elems) {
                    match spec_event_target(attrs) {
                        Some(v) => {
                            let ix = spec_find_id(elems, v);
                            lemma_del_run_items(rest, elems.remove(ix), kept, true);
                            let t = spec_del_items(rest, elems.remove(ix));
                            let d = spec_del_items(items, elems);
                            assert(d.kept == t.kept && d.elems == t.elems && d.changed);
                        },
                        None => {
                            assert(false);
                        },
                    }
                } else {
                    let block = spec_item_events(it);
                    lemma_del_run_items(rest, elems, kept + block, changed);
                    let t = spec_del_items(rest, elems);
                    let d = spec_del_items(items, elems);
                    assert(d.kept == seq![it] + t.kept);
                    assert((seq![it] + t.kept).first() == it);
                    assert((seq![it] + t.kept).drop_first() =~= t.kept);
                    assert(spec_doc_of(d.kept) == spec_item_events(it) + spec_doc_of(t.kept));
                    assert(kept + block + spec_doc_of(t.kept) =~= kept + spec_doc_of(d.kept));
                }
            },
        }
    }
}

/// Law: on a flat registry document, the deletion pass drops exactly the
/// entry subtrees whose identifier names a local record marked removed —
/// deleting that record — and passes everything else through unchanged,
/// in order; it reports a change exactly when it dropped a subtree.
pub proof fn lemma_delete_pass_items(items: Seq<DocItem>, elems: Seq<ElemV>)
    requires
        spec_items_ok(items),
    ensures
        ({
            let d = spec_del_items(items, elems);
            spec_delete_pass(spec_doc_of(items), elems) == (DelOut {
                kept: spec_doc_of(d.kept),
                elems: d.elems,
                changed: d.changed,
                st: PatchStateV::Copying,
            })
        }),
{
    lemma_del_run_items(items, elems, Seq::empty(), false);
    let d = spec_del_items(items, elems);
    assert(Seq::<EventV>::empty() + spec_doc_of(d.kept) =~= spec_doc_of(d.kept));
}

/// Whether an item is an entry subtree addressed by this identifier.
pub open spec fn spec_item_targets(it: DocItem, v: u16) -> bool {
    it matches DocItem::Entry { attrs, .. } && spec_event_target(attrs) == Some(v)
}

/// An entry item addressed by the identifier of a removed local record is
/// dropped, provided the document addresses that identifier at most once
/// and every local record holding it is marked removed.
pub proof fn lemma_deletion_excises_items(items: Seq<DocItem>, elems: Seq<ElemV>, v: u16)
    requires
        spec_items_ok(items),
        forall|i: int, j: int|
            #![trigger items[i], items[j]]
            0 <= i < j < items.len() ==> !(spec_item_targets(items[i], v) && spec_item_targets(
                items[j],
                v,
            )),
        forall|i: int|
            0 <= i < elems.len() && (#[trigger] elems[i]).id == Some(v) ==> elems[i].removed,
        exists|i: int| 0 <= i < elems.len() && (#[trigger] elems[i]).id == Some(v),
    ensures
        ({
            let d = spec_del_items(items, elems);
            forall|k: int| 0 <= k < d.kept.len() ==> !spec_item_targets(#[trigger] d.kept[k], v)
        }),
    decreases items.len(),
{
    lemma_find_id(elems, v);
    let f = spec_find_id(elems, v);
    if f == -1 {
        let i0 = choose|i0: int| 0 <= i0 < elems.len() && (#[trigger] elems[i0]).id == Some(v);
        assert(elems[i0].id != Some(v));
    }
    assert(f >= 0);
    assert(elems[f].removed);
    if items.len() > 0 {
        let it = items.first();
        let rest = items.drop_first();
        let d = spec_del_items(items, elems);
        assert forall|i: int, j: int|
            #![trigger rest[i], rest[j]]
            0 <= i < j < rest.len() implies !(spec_item_targets(rest[i], v) && spec_item_targets(
            rest[j],
            v,
        )) by {
            assert(rest[i] == items[i + 1]);
            assert(rest[j] == items[j + 1]);
        }
        assert forall|i: int| 0 <= i < rest.len() implies spec_item_ok(#[trigger] rest[i]) by {
            assert(rest[i] == items[i + 1]);
        }
        if spec_item_dropped(it, elems) {
            match it {
                DocItem::Entry { attrs, inner } => match spec_event_target(attrs) {
                    Some(w) => {
                        let ix = spec_find_id(elems, w);
                        lemma_find_id(elems, w);
                        let t = spec_del_items(rest, elems.remove(ix));
                        assert(d.kept == t.kept);
                        if w == v {
                            // the one addressed item is dropped; no other addresses v
                            assert(spec_item_targets(items[0], v));
                            assert forall|i: int|
                                0 <= i < rest.len() implies !spec_item_targets(
                                #[trigger] rest[i],
                                v,
                            ) by {
                                assert(rest[i] == items[i + 1]);
                                assert(items[0] == it);
                            }
                            lemma_del_items_no_targets(rest, elems.remove(ix), v);
                        } else {
                            // a record with another identifier leaves; the
                            // records holding v survive, still all removed
                            let es2 = elems.remove(ix);
                            assert(elems[ix].id == Some(w));
                            assert forall|i: int|
                                0 <= i < es2.len() && (#[trigger] es2[i]).id == Some(v) implies
                                es2[i].removed by {
                                if i < ix {
                                    assert(es2[i] == elems[i]);
                                } else {
                                    assert(es2[i] == elems[i + 1]);
                                }
                            }
                            assert(f != ix);
                            if f < ix {
                                assert(es2[f] == elems[f]);
                                assert(0 <= f < es2.len() && es2[f].id == Some(v));
                            } else {
                                assert(es2[f - 1] == elems[f]);
                                assert(0 <= f - 1 < es2.len() && es2[f - 1].id == Some(v));
                            }
                            lemma_deletion_excises_items(rest, es2, v);
                        }
                    },
                    None => {
                        assert(false);
                    },
                },
                _ => {
                    assert(false);
                },
            }
        } else {
            // the first item is kept; it cannot address v, because the
            // first record holding v is removed and would have dropped it
            assert(!spec_item_targets(it, v)) by {
                if spec_item_targets(it, v) {
                    assert(spec_item_dropped(it, elems));
                }
            }
            lemma_deletion_excises_items(rest, elems, v);
            let t = spec_del_items(rest, elems);
            assert(d.kept == seq![it] + t.kept);
            assert forall|k: int|
                0 <= k < d.kept.len() implies !spec_item_targets(#[trigger] d.kept[k], v) by {
                if k == 0 {
                    assert(d.kept[0] == it);
                } else {
                    assert(d.kept[k] == t.kept[k - 1]);
                }
            }
        }
    }
}

/// If no item addresses the identifier, no kept item does either.
pub proof fn lemma_del_items_no_targets(items: Seq<DocItem>, elems: Seq<ElemV>, v: u16)
    requires
        forall|i: int| 0 <= i < items.len() ==> !spec_item_targets(#[trigger] items[i], v),
    ensures
        ({
            let d = spec_del_items(items, elems);
            forall|k: int| 0 <= k < d.kept.len() ==> !spec_item_targets(#[trigger] d.kept[k], v)
        }),
    decreases items.len(),
{
    if items.len() > 0 {
        let it = items.first();
        let rest = items.drop_first();
        let d = spec_del_items(items, elems);
        assert forall|i: int| 0 <= i < rest.len() implies !spec_item_targets(
            #[trigger] rest[i],
            v,
        ) by {
            assert(rest[i] == items[i + 1]);
        }
        if spec_item_dropped(it, elems) {
            match it {
                DocItem::Entry { attrs, inner } => match spec_event_target(attrs) {
                    Some(w) => {
                        let ix = spec_find_id(elems, w);
                        lemma_del_items_no_targets(rest, elems.remove(ix), v);
                        let t = spec_del_items(rest, elems.remove(ix));
                        assert(d.kept == t.kept);
                        assert forall|k: int|
                            0 <= k < d.kept.len() implies !spec_item_targets(
                            #[trigger] d.kept[k],
                            v,
                        ) by {
                            assert(d.kept[k] == t.kept[k]);
                        }
                    },
                    None => {
                        assert(false);
                    },
                },
                _ => {
                    assert(false);
                },
            }
        } else {
            lemma_del_items_no_targets(rest, elems, v);
            let t = spec_del_items(rest, elems);
            assert(d.kept == seq![it] + t.kept);
            assert(items[0] == it);
            assert forall|k: int|
                0 <= k < d.kept.len() implies !spec_item_targets(#[trigger] d.kept[k], v) by {
                if k == 0 {
                    assert(d.kept[0] == it);
                } else {
                    assert(d.kept[k] == t.kept[k - 1]);
                }
            }
        }
    }
}

/// A flat document none of whose items addresses the identifier starts no
/// entry subtree addressed by it.
pub proof fn lemma_doc_count_zero(items: Seq<DocItem>, v: u16)
    requires
        spec_items_ok(items),
        forall|i: int| 0 <= i < items.len() ==> !spec_item_targets(#[trigger] items[i], v),
    ensures
        spec_count_starts(spec_doc_of(items), v) == 0,
    decreases items.len(),
{
    if items.len() > 0 {
        let it = items.first();
        let rest = items.drop_first();
        assert(items[0] == it);
        assert forall|i: int| 0 <= i < rest.len() implies (!spec_item_targets(
            #[trigger] rest[i],
            v,
        ) && spec_item_ok(rest[i])) by {
            assert(rest[i] == items[i + 1]);
        }
        lemma_doc_count_zero(rest, v);
        lemma_count_starts_append(spec_item_events(it), spec_doc_of(rest), v);
        match it {
            DocItem::Plain { ev } => {
                let one = spec_item_events(it);
                assert(one.first() == ev);
                assert(one.drop_first() =~= Seq::<EventV>::empty());
                assert(spec_count_starts(Seq::<EventV>::empty(), v) == 0);
                assert(!spec_is_entry_start_for(ev, v));
                assert(spec_count_starts(one, v) == 0);
            },
            DocItem::Entry { attrs, inner } => {
                let head = EventV::Start { name: ("entry")@, attrs };
                let tail = EventV::End { name: ("entry")@ };
                let block = spec_item_events(it);
                assert(block =~= seq![head] + (inner + seq![tail]));
                lemma_count_starts_append(seq![head], inner + seq![tail], v);
                lemma_count_starts_append(inner, seq![tail], v);
                let one = seq![head];
                assert(one.first() == head);
                assert(one.drop_first() =~= Seq::<EventV>::empty());
                assert(spec_count_starts(Seq::<EventV>::empty(), v) == 0);
                assert(!spec_is_entry_start_for(head, v));
                assert(spec_count_starts(one, v) == 0);
                let two = seq![tail];
                assert(two.first() == tail);
                assert(two.drop_first() =~= Seq::<EventV>::empty());
                assert(spec_count_starts(two, v) == 0);
                assert forall|i: int|
                    0 <= i < inner.len() implies !((#[trigger] inner[i]) matches EventV::Start {
                    name,
                    ..
                } && name == ("entry")@) by {
                    assert(spec_item_ok(it));
                }
                lemma_count_starts_zero(inner, v);
            },
        }
    }
}

/// Law: tombstone excision. Over a flat registry document that addresses
/// an identifier at most once, where every local record holding that
/// identifier is marked removed and at least one does, the deletion pass
/// output starts no entry subtree addressed by it — and, by the
/// characterization above, is otherwise the input with whole subtrees
/// excised, in order.
pub proof fn lemma_deletion_excises(items: Seq<DocItem>, elems: Seq<ElemV>, v: u16)
    requires
        spec_items_ok(items),
        forall|i: int, j: int|
            #![trigger items[i], items[j]]
            0 <= i < j < items.len() ==> !(spec_item_targets(items[i], v) && spec_item_targets(
                items[j],
                v,
            )),
        forall|i: int|
            0 <= i < elems.len() && (#[trigger] elems[i]).id == Some(v) ==> elems[i].removed,
        exists|i: int| 0 <= i < elems.len() && (#[trigger] elems[i]).id == Some(v),
    ensures
        spec_count_starts(spec_delete_pass(spec_doc_of(items), elems).kept, v) == 0,
{
    lemma_delete_pass_items(items, elems);
    lemma_deletion_excises_items(items, elems, v);
    let d = spec_del_items(items, elems);
    lemma_del_items_kept_ok(items, elems);
    lemma_doc_count_zero(d.kept, v);
}

/// Items kept by the deletion pass stay well formed.
pub proof fn lemma_del_items_kept_ok(items: Seq<DocItem>, elems: Seq<ElemV>)
    requires
        spec_items_ok(items),
    ensures
        spec_items_ok(spec_del_items(items, elems).kept),
    decreases items.len(),
{
    if items.len() > 0 {
        let it = items.first();
        let rest = items.drop_first();
        let d = spec_del_items(items, elems);
        assert(items[0] == it);
        assert forall|i: int| 0 <= i < rest.len() implies spec_item_ok(#[trigger] rest[i]) by {
            assert(rest[i] == items[i + 1]);
        }
        if spec_item_dropped(it, elems) {
            match it {
                DocItem::Entry { attrs, inner } => match spec_event_target(attrs) {
                    Some(w) => {
                        lemma_del_items_kept_ok(rest, elems.remove(spec_find_id(elems, w)));
                    },
                    None => {
                        assert(false);
                    },
                },
                _ => {
                    assert(false);
                },
            }
        } else {
            lemma_del_items_kept_ok(rest, elems);
            let t = spec_del_items(rest, elems);
            assert(d.kept == seq![it] + t.kept);
            assert forall|k: int| 0 <= k < d.kept.len() implies spec_item_ok(
                #[trigger] d.kept[k],
            ) by {
                if k == 0 {
                    assert(d.kept[0] == it);
                } else {
                    assert(d.kept[k] == t.kept[k - 1]);
                }
            }
        }
    }
}

} // verus!
