//! The Local State Store: the in-memory record collection and its
//! synced flag.
//!
//! Invariant of the data model: among non-removed records, identifiers are
//! unique (`spec_ids_unique`). The constructor establishes it; removal and
//! the merge preserve it (see the laws module for the merge proof).

use vstd::prelude::*;

use crate::config::AppConfig;
use crate::record::AppElement;
use crate::record::ElemV;
use crate::record::spec_same_entry;
use crate::record::spec_with_id;
use crate::record::spec_with_removed;

verus! {

/// The views of a sequence of records.
pub open spec fn elems_view(s: Seq<AppElement>) -> Seq<ElemV> {
    s.map_values(|e: AppElement| e@)
}

/// Membership in a concatenation is membership in one of the parts.
proof fn lemma_concat_contains<T>(a: Seq<T>, b: Seq<T>, x: T)
    ensures
        (a + b).contains(x) <==> (a.contains(x) || b.contains(x)),
{
    if a.contains(x) {
        let k = choose|k: int| 0 <= k < a.len() && a[k] == x;
        assert((a + b)[k] == x);
    }
    if b.contains(x) {
        let k = choose|k: int| 0 <= k < b.len() && b[k] == x;
        assert((a + b)[a.len() + k] == x);
    }
    if (a + b).contains(x) {
        let k = choose|k: int| 0 <= k < (a + b).len() && (a + b)[k] == x;
        if k < a.len() {
            assert(a[k] == x);
        } else {
            assert(b[k - a.len()] == x);
        }
    }
}

/// Among non-removed records, identifiers are unique.
pub open spec fn spec_ids_unique(es: Seq<ElemV>) -> bool {
    forall|i: int, j: int|
        #![trigger es[i], es[j]]
        0 <= i < j < es.len() && !es[i].removed && !es[j].removed && es[i].id is Some
            ==> es[i].id != es[j].id
}

/// The identifiers of the records kept by `get_ids`: records are kept when
/// they are not removed and `ignore_removed` is set, in store order.
pub open spec fn spec_ids(es: Seq<ElemV>, ignore_removed: bool) -> Seq<u16>
    decreases es.len(),
{
    if es.len() == 0 {
        Seq::empty()
    } else {
        spec_ids(es.drop_last(), ignore_removed) + (if !es.last().removed && ignore_removed {
            match es.last().id {
                Some(v) => seq![v],
                None => Seq::empty(),
            }
        } else {
            Seq::empty()
        })
    }
}

/// Whether some record of `es` carries this identifier.
pub open spec fn spec_holds_id(es: Seq<ElemV>, v: u16) -> bool {
    exists|i: int| 0 <= i < es.len() && (#[trigger] es[i]).id == Some(v)
}

/// Whether some non-removed record of `es` carries this identifier.
pub open spec fn spec_holds_live_id(es: Seq<ElemV>, v: u16) -> bool {
    exists|i: int| 0 <= i < es.len() && !(#[trigger] es[i]).removed && es[i].id == Some(v)
}

/// Whether some record of `es` is the same entry as `e` (by the identity
/// rule, with `e` on the left).
pub open spec fn spec_has_same(es: Seq<ElemV>, e: ElemV) -> bool {
    exists|i: int| 0 <= i < es.len() && spec_same_entry(e, #[trigger] es[i])
}

/// The merge of incoming records into the store: each incoming record is
/// appended unless some record already present is the same entry.
pub open spec fn spec_merge(es: Seq<ElemV>, incoming: Seq<ElemV>) -> Seq<ElemV>
    decreases incoming.len(),
{
    if incoming.len() == 0 {
        es
    } else {
        let e = incoming.first();
        let es2 = if spec_has_same(es, e) {
            es
        } else {
            es.push(e)
        };
        spec_merge(es2, incoming.drop_first())
    }
}

/// The current state of the app: configuration, the record collection, and
/// whether local state is in sync with the server.
pub struct AppState {
    pub config: AppConfig,
    pub elements: Vec<AppElement>,
    pub synced: bool,
}

impl AppState {
    /// The store's well-formedness: identifier uniqueness among non-removed
    /// records.
    pub open spec fn wf(&self) -> bool {
        spec_ids_unique(elems_view(self.elements@))
    }

    /// A fresh session: no records, not yet synced.
    pub fn new(config: AppConfig) -> (r: AppState)
        ensures
            r.config@ == config@,
            r.elements@.len() == 0,
            r.synced == false,
            r.wf(),
    {
        let r = AppState { config, elements: Vec::new(), synced: false };
        proof {
            assert(elems_view(r.elements@) =~= Seq::<ElemV>::empty());
        }
        r
    }

    pub fn get_elements(&self) -> (r: &Vec<AppElement>)
        ensures
            r@ == self.elements@,
    {
        &self.elements
    }

    pub fn get_config(&self) -> (r: &AppConfig)
        ensures
            r@ == self.config@,
    {
        &self.config
    }

    /// The identifiers of the non-removed records, when `ignore_removed` is
    /// set; the empty list otherwise, as the store has always behaved.
    pub fn get_ids(&self, ignore_removed: bool) -> (r: Vec<u16>)
        ensures
            r@ == spec_ids(elems_view(self.elements@), ignore_removed),
    {
        collect_ids(&self.elements, ignore_removed)
    }

    /// Appends a record, if one is given. The store invariant is kept as
    /// long as a pushed identified live record's identifier is not already
    /// held by a non-removed record.
    pub fn push(&mut self, element: Option<AppElement>)
        ensures
            final(self).elements@ == (match element {
                Some(e) => old(self).elements@.push(e),
                None => old(self).elements@,
            }),
            final(self).synced == old(self).synced,
            final(self).config == old(self).config,
            (old(self).wf() && (match element {
                Some(e) => (match e@.id {
                    Some(v) => e@.removed || !spec_holds_live_id(
                        elems_view(old(self).elements@),
                        v,
                    ),
                    None => true,
                }),
                None => true,
            })) ==> final(self).wf(),
    {
        let ghost pre = elems_view(self.elements@);
        if let Some(e) = element {
            self.elements.push(e);
            proof {
                let newv = elems_view(self.elements@);
                assert(newv =~= pre.push(e@));
                if old(self).wf() && (match e@.id {
                    Some(v) => e@.removed || !spec_holds_live_id(pre, v),
                    None => true,
                }) {
                    assert forall|a: int, b: int|
                        #![trigger newv[a], newv[b]]
                        0 <= a < b < newv.len() && !newv[a].removed && !newv[b].removed
                            && newv[a].id is Some implies newv[a].id != newv[b].id by {
                        if b == pre.len() {
                            assert(newv[a] == pre[a]);
                            match e@.id {
                                Some(v) => {
                                    if pre[a].id == Some(v) {
                                        assert(spec_holds_live_id(pre, v));
                                    }
                                },
                                None => {},
                            }
                        } else {
                            assert(newv[a] == pre[a]);
                            assert(newv[b] == pre[b]);
                        }
                    }
                }
            }
        }
    }

    /// Clears the synced flag after a local mutation.
    pub fn unsynced(&mut self)
        ensures
            final(self).synced == false,
            final(self).elements@ == old(self).elements@,
            final(self).config == old(self).config,
    {
        self.synced = false;
    }

    /// A one-character marker for the prompt: a space when synced, a star
    /// when local mutations are pending.
    pub fn modified_string(&self) -> (r: String)
        ensures
            self.synced ==> r@ == (" ")@,
            !self.synced ==> r@ == ("*")@,
    {
        if self.synced {
            String::from_str(" ")
        } else {
            String::from_str("*")
        }
    }

    pub fn is_synced(&self) -> (r: bool)
        ensures
            r == self.synced,
    {
        self.synced
    }

    /// Marks the first record with this identifier as removed; reports
    /// whether one was found.
    pub fn remove(&mut self, id: u16) -> (r: bool)
        ensures
            r == (exists|i: int|
                0 <= i < old(self).elements@.len() && (#[trigger] old(self).elements@[i])@.id
                    == Some(id)),
            r ==> (exists|i: int|
                0 <= i < old(self).elements@.len() && (#[trigger] old(self).elements@[i])@.id
                    == Some(id) && (forall|j: int|
                    0 <= j < i ==> (#[trigger] old(self).elements@[j])@.id != Some(id))
                    && elems_view(final(self).elements@) == elems_view(old(self).elements@).update(
                    i,
                    spec_with_removed(old(self).elements@[i]@),
                )),
            !r ==> final(self).elements@ == old(self).elements@,
            final(self).synced == old(self).synced,
            final(self).config == old(self).config,
            old(self).wf() ==> final(self).wf(),
    {
        let n = self.elements.len();
        let mut i: usize = 0;
        while i < n
            invariant
                0 <= i <= n,
                n == self.elements@.len(),
                self.elements@ == old(self).elements@,
                self.config == old(self).config,
                self.synced == old(self).synced,
                forall|j: int|
                    0 <= j < i ==> (#[trigger] old(self).elements@[j])@.id != Some(id),
            decreases n - i,
        {
            let hit = match self.elements[i].id {
                Some(v) => v == id,
                None => false,
            };
            if hit {
                let el = self.elements.remove(i);
                let el2 = el.with_removed();
                self.elements.insert(i, el2);
                proof {
                    let oldv = elems_view(old(self).elements@);
                    let newv = elems_view(self.elements@);
                    let idx = i as int;
                    assert(newv =~= oldv.update(idx, spec_with_removed(oldv[idx])));
                    if old(self).wf() {
                        assert forall|a: int, b: int|
                            0 <= a < b < newv.len() && !newv[a].removed && !newv[b].removed
                                && newv[a].id is Some implies newv[a].id != newv[b].id by {
                            assert(a != idx && b != idx);
                            assert(newv[a] == oldv[a]);
                            assert(newv[b] == oldv[b]);
                        }
                    }
                }
                return true;
            }
            i = i + 1;
        }
        false
    }

    /// Replaces the editable fields of the first record with this
    /// identifier; reports whether one was found.
    pub fn modify_element(
        &mut self,
        id: u16,
        title: String,
        description: String,
        due: Option<u32>,
        tags: Option<Vec<String>>,
    ) -> (r: bool)
        ensures
            r == (exists|i: int|
                0 <= i < old(self).elements@.len() && (#[trigger] old(self).elements@[i])@.id
                    == Some(id)),
            !r ==> final(self).elements@ == old(self).elements@,
            r ==> (exists|i: int|
                0 <= i < old(self).elements@.len() && (#[trigger] old(self).elements@[i])@.id
                    == Some(id) && elems_view(final(self).elements@) == elems_view(
                    old(self).elements@,
                ).update(
                    i,
                    ElemV {
                        id: old(self).elements@[i]@.id,
                        title: title@,
                        description: description@,
                        due,
                        removed: old(self).elements@[i]@.removed,
                        tags: match tags {
                            Some(ref ts) => Some(ts@.map_values(|t: String| t@)),
                            None => None,
                        },
                    },
                )),
            final(self).synced == old(self).synced,
            final(self).config == old(self).config,
    {
        let n = self.elements.len();
        let mut i: usize = 0;
        while i < n
            invariant
                0 <= i <= n,
                n == self.elements@.len(),
                self.elements@ == old(self).elements@,
                self.config == old(self).config,
                self.synced == old(self).synced,
                forall|j: int|
                    0 <= j < i ==> (#[trigger] old(self).elements@[j])@.id != Some(id),
            decreases n - i,
        {
            let hit = match self.elements[i].id {
                Some(v) => v == id,
                None => false,
            };
            if hit {
                let mut el = self.elements.remove(i);
                el.modify(title, description, due, tags);
                self.elements.insert(i, el);
                proof {
                    assert(elems_view(self.elements@) =~= elems_view(old(self).elements@).update(
                        i as int,
                        self.elements@[i as int]@,
                    ));
                }
                return true;
            }
            i = i + 1;
        }
        false
    }

    /// A shared reference to the first record with this identifier.
    pub fn find_by_id(&self, id: u16) -> (r: Option<&AppElement>)
        ensures
            r matches Some(e) ==> (exists|i: int|
                0 <= i < self.elements@.len() && (#[trigger] self.elements@[i])@.id == Some(id)
                    && e@ == self.elements@[i]@),
            r is None ==> (forall|i: int|
                0 <= i < self.elements@.len() ==> (#[trigger] self.elements@[i])@.id != Some(id)),
    {
        let n = self.elements.len();
        let mut i: usize = 0;
        while i < n
            invariant
                0 <= i <= n,
                n == self.elements@.len(),
                forall|j: int|
                    0 <= j < i ==> (#[trigger] self.elements@[j])@.id != Some(id),
            decreases n - i,
        {
            let hit = match self.elements[i].id {
                Some(v) => v == id,
                None => false,
            };
            if hit {
                return Some(&self.elements[i]);
            }
            i = i + 1;
        }
        None
    }

    /// Whether some record of the store is the same entry as `e`.
    fn contains_same(&self, e: &AppElement) -> (r: bool)
        ensures
            r == spec_has_same(elems_view(self.elements@), e@),
    {
        let n = self.elements.len();
        let mut i: usize = 0;
        while i < n
            invariant
                0 <= i <= n,
                n == self.elements@.len(),
                forall|j: int|
                    0 <= j < i ==> !spec_same_entry(e@, (#[trigger] self.elements@[j])@),
            decreases n - i,
        {
            if e.same_entry(&self.elements[i]) {
                proof {
                    assert(spec_same_entry(e@, elems_view(self.elements@)[i as int]));
                }
                return true;
            }
            i = i + 1;
        }
        proof {
            assert(forall|j: int|
                0 <= j < elems_view(self.elements@).len() ==> !spec_same_entry(
                    e@,
                    #[trigger] elems_view(self.elements@)[j],
                ));
        }
        false
    }

    /// Merges fetched records into the store: a record already present (by
    /// the identity rule) is skipped, every other one is appended.
    pub fn add_new_elements(&mut self, new: Vec<AppElement>)
        ensures
            elems_view(final(self).elements@) == spec_merge(
                elems_view(old(self).elements@),
                elems_view(new@),
            ),
            final(self).synced == old(self).synced,
            final(self).config == old(self).config,
            old(self).wf() ==> final(self).wf(),
    {
        proof {
            if self.wf() {
                crate::laws::lemma_merge_preserves_unique(
                    elems_view(self.elements@),
                    elems_view(new@),
                );
            }
        }
        let ghost all = elems_view(new@);
        let mut incoming = new;
        while incoming.len() > 0
            invariant
                spec_merge(elems_view(self.elements@), elems_view(incoming@)) == spec_merge(
                    elems_view(old(self).elements@),
                    all,
                ),
                self.config == old(self).config,
                self.synced == old(self).synced,
            decreases incoming.len(),
        {
            let ghost pre_es = elems_view(self.elements@);
            let ghost pre_in = elems_view(incoming@);
            let e = incoming.remove(0);
            proof {
                assert(pre_in.first() == e@);
                assert(elems_view(incoming@) =~= pre_in.drop_first());
            }
            if !self.contains_same(&e) {
                let ghost before = self.elements@;
                self.elements.push(e);
                proof {
                    assert(elems_view(self.elements@) =~= elems_view(before).push(e@));
                }
            }
        }
        proof {
            assert(elems_view(incoming@).len() == 0);
        }
    }

    /// Allocates identifiers for the records that lack one, against the
    /// supplied set of identifiers in use. Returns whether any were
    /// allocated, and the fresh identifiers in store order. Fresh
    /// identifiers are non-zero, mutually distinct, outside the supplied
    /// set, and are appended to it; a record keeps its missing identifier
    /// only when every non-zero identifier was taken.
    pub fn add_missing_ids(&mut self, existing: &mut Vec<u16>) -> (r: (bool, Vec<u16>))
        ensures
            final(existing)@ == old(existing)@ + r.1@,
            r.0 == (r.1@.len() > 0),
            r.1@.no_duplicates(),
            forall|k: int|
                0 <= k < r.1@.len() ==> (#[trigger] r.1@[k]) != 0 && !old(existing)@.contains(
                    r.1@[k],
                ),
            final(self).elements@.len() == old(self).elements@.len(),
            forall|i: int|
                0 <= i < old(self).elements@.len() ==> (if (
                #[trigger] old(self).elements@[i])@.id is Some {
                    final(self).elements@[i]@ == old(self).elements@[i]@
                } else {
                    final(self).elements@[i]@ == old(self).elements@[i]@ || (exists|v: u16|
                        r.1@.contains(v) && final(self).elements@[i]@ == spec_with_id(
                            old(self).elements@[i]@,
                            v,
                        ))
                }),
            forall|k: int|
                #![trigger r.1@[k]]
                0 <= k < r.1@.len() ==> spec_holds_id(elems_view(final(self).elements@), r.1@[k]),
            (exists|v: u16| v != 0 && !final(existing)@.contains(v)) ==> (forall|i: int|
                0 <= i < final(self).elements@.len() ==> (#[trigger] final(self).elements@[i])@.id is Some),
            final(self).synced == old(self).synced,
            final(self).config == old(self).config,
    {
        let mut new_ids: Vec<u16> = Vec::new();
        let ghost mut fail_seen: bool = false;
        let ghost mut wit: Seq<int> = Seq::empty();
        let n = self.elements.len();
        let mut i: usize = 0;
        while i < n
            invariant
                0 <= i <= n,
                n == self.elements@.len(),
                n == old(self).elements@.len(),
                existing@ == old(existing)@ + new_ids@,
                new_ids@.no_duplicates(),
                forall|k: int|
                    0 <= k < new_ids@.len() ==> (#[trigger] new_ids@[k]) != 0
                        && !old(existing)@.contains(new_ids@[k]),
                forall|j: int| i <= j < n ==> self.elements@[j] == old(self).elements@[j],
                forall|j: int|
                    0 <= j < i ==> (if (#[trigger] old(self).elements@[j])@.id is Some {
                        self.elements@[j]@ == old(self).elements@[j]@
                    } else {
                        self.elements@[j]@ == old(self).elements@[j]@ || (exists|v: u16|
                            new_ids@.contains(v) && self.elements@[j]@ == spec_with_id(
                                old(self).elements@[j]@,
                                v,
                            ))
                    }),
                forall|j: int|
                    0 <= j < i ==> ((#[trigger] self.elements@[j])@.id is Some || fail_seen),
                fail_seen ==> (forall|v: u16| v != 0 ==> existing@.contains(v)),
                wit.len() == new_ids@.len(),
                forall|k: int|
                    #![trigger wit[k]]
                    0 <= k < wit.len() ==> 0 <= wit[k] < i && self.elements@[wit[k]]@.id == Some(
                        new_ids@[k],
                    ),
                self.config == old(self).config,
                self.synced == old(self).synced,
            decreases n - i,
        {
            let needs = self.elements[i].id().is_none();
            if needs {
                let ghost pre = self.elements@;
                let mut el = self.elements.remove(i);
                let got = el.generate_id(existing);
                self.elements.insert(i, el);
                proof {
                    assert(self.elements@ =~= pre.update(i as int, self.elements@[i as int]));
                }
                match got {
                    Some(v) => {
                        let ghost pre_ids = new_ids@;
                        let ghost pre_ex = old(existing)@ + pre_ids;
                        let ghost pre_wit = wit;
                        new_ids.push(v);
                        proof {
                            wit = wit.push(i as int);
                        }
                        proof {
                            lemma_concat_contains(old(existing)@, pre_ids, v);
                            assert(!pre_ids.contains(v));
                            assert(!old(existing)@.contains(v));
                            assert(existing@ =~= old(existing)@ + new_ids@);
                            assert forall|a: int, b: int|
                                0 <= a < new_ids@.len() && 0 <= b < new_ids@.len() && a != b
                                    implies new_ids@[a] != new_ids@[b] by {
                                if a == pre_ids.len() {
                                    assert(new_ids@[b] == pre_ids[b]);
                                    assert(pre_ids.contains(pre_ids[b]));
                                } else if b == pre_ids.len() {
                                    assert(new_ids@[a] == pre_ids[a]);
                                    assert(pre_ids.contains(pre_ids[a]));
                                }
                            }
                            assert(new_ids@.no_duplicates());
                            assert(self.elements@[i as int]@.id == Some(v));
                            if fail_seen {
                                assert forall|w: u16| w != 0 implies existing@.contains(w) by {
                                    assert(pre_ex.contains(w));
                                    let k = choose|k: int|
                                        0 <= k < pre_ex.len() && pre_ex[k] == w;
                                    assert(existing@[k] == w);
                                }
                            }
                            assert(new_ids@[pre_ids.len() as int] == v);
                            assert(new_ids@.contains(v));
                            assert forall|j: int|
                                0 <= j <= i as int implies (if (#[trigger] old(
                                self,
                            ).elements@[j])@.id is Some {
                                self.elements@[j]@ == old(self).elements@[j]@
                            } else {
                                self.elements@[j]@ == old(self).elements@[j]@ || (exists|w: u16|
                                    new_ids@.contains(w) && self.elements@[j]@ == spec_with_id(
                                        old(self).elements@[j]@,
                                        w,
                                    ))
                            }) by {
                                if j == i as int {
                                    assert(self.elements@[j]@ == spec_with_id(
                                        old(self).elements@[j]@,
                                        v,
                                    ));
                                } else {
                                    assert(self.elements@[j] == pre[j]);
                                    if (old(self).elements@[j])@.id is None && self.elements@[j]@
                                        != old(self).elements@[j]@ && 0 <= j < i as int {
                                        let w = choose|w: u16|
                                            pre_ids.contains(w) && pre[j]@ == spec_with_id(
                                                old(self).elements@[j]@,
                                                w,
                                            );
                                        let k = choose|k: int|
                                            0 <= k < pre_ids.len() && pre_ids[k] == w;
                                        assert(new_ids@[k] == w);
                                        assert(new_ids@.contains(w));
                                    }
                                }
                            }
                            assert forall|k: int| #![trigger wit[k]]
                                0 <= k < wit.len() implies 0 <= wit[k] <= i as int
                                && self.elements@[wit[k]]@.id == Some(new_ids@[k]) by {
                                if k < pre_ids.len() {
                                    assert(wit[k] == pre_wit[k]);
                                    assert(self.elements@[wit[k]] == pre[wit[k]]);
                                } else {
                                    assert(wit[k] == i as int);
                                    assert(self.elements@[i as int]@.id == Some(v));
                                }
                            }
                        }
                    },
                    None => {
                        proof {
                            fail_seen = true;
                        }
                    },
                }
            }
            i = i + 1;
        }
        proof {
            if exists|v: u16| v != 0 && !existing@.contains(v) {
                assert(!fail_seen);
            }
            assert forall|k: int| #![trigger new_ids@[k]]
                0 <= k < new_ids@.len() implies spec_holds_id(
                elems_view(self.elements@),
                new_ids@[k],
            ) by {
                assert(0 <= wit[k] < n);
                assert(elems_view(self.elements@)[wit[k]].id == Some(new_ids@[k]));
            }
        }
        let added = new_ids.len() > 0;
        (added, new_ids)
    }
}

/// The identifiers of the records kept by the `spec_ids` rule.
pub fn collect_ids(es: &Vec<AppElement>, ignore_removed: bool) -> (r: Vec<u16>)
    ensures
        r@ == spec_ids(elems_view(es@), ignore_removed),
{
    let n = es.len();
    let mut out: Vec<u16> = Vec::new();
    let mut i: usize = 0;
    while i < n
        invariant
            0 <= i <= n,
            n == es@.len(),
            out@ == spec_ids(elems_view(es@).subrange(0, i as int), ignore_removed),
        decreases n - i,
    {
        let keep = !es[i].is_removed() && ignore_removed;
        if keep {
            match es[i].id() {
                Some(v) => out.push(v),
                None => {},
            }
        }
        proof {
            let evs = elems_view(es@);
            let prev = evs.subrange(0, i as int);
            let cur = evs.subrange(0, i as int + 1);
            assert(cur.drop_last() =~= prev);
            assert(cur.last() == evs[i as int]);
        }
        i = i + 1;
    }
    proof {
        assert(elems_view(es@).subrange(0, n as int) =~= elems_view(es@));
    }
    out
}

} // verus!
