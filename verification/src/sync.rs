//! The Sync Orchestrator's verified core.
//!
//! One sync is: fetch the registry document (transport, outside this
//! library), reconcile it against local state (`prepare_sync`: deletion
//! pass, decode, identifier allocation, insertion pass), upload the
//! patched document if anything changed (transport again), then merge the
//! surviving remote records and mark the store clean (`finish_sync`).
//! A transport or decode failure aborts the pipeline where it happens and
//! leaves the synced flag clear.

use vstd::prelude::*;

use crate::decode::decode_registry;
use crate::decode::spec_decode;
use crate::errors::SyncError;
use crate::patch::spec_delete_pass;
use crate::patch::spec_insert_pass;
use crate::record::AppElement;
use crate::record::spec_with_id;
use crate::state::AppState;
use crate::state::collect_ids;
use crate::state::elems_view;
use crate::state::spec_holds_id;
use crate::state::spec_ids;
use crate::state::spec_merge;
use crate::event::spec_doc_text;
use crate::xmlread::spec_parse_raw;
use crate::xmlread::spec_parse_trimmed;

verus! {

/// What one reconciliation produced: whether the document must be
/// re-uploaded, the document to upload, the decoded remote records to
/// merge after the upload, and the freshly allocated identifiers.
pub struct SyncPlan {
    pub needs_upload: bool,
    pub payload: String,
    pub remote: Vec<AppElement>,
    pub new_ids: Vec<u16>,
}

impl AppState {
    /// Reconciles a fetched registry document against local state: runs
    /// the deletion pass (dropping tombstoned subtrees and their local
    /// records), decodes the surviving document, allocates identifiers for
    /// local records that lack one — against the identifiers the remote
    /// document holds — and, when any were allocated, splices their
    /// serialized subtrees in by the insertion pass. Fails exactly when
    /// the surviving document does not decode as a registry.
    pub fn prepare_sync(&mut self, fetched: &str) -> (r: Result<SyncPlan, SyncError>)
        ensures
            final(self).config == old(self).config,
            final(self).synced == old(self).synced,
            ({
                let del = spec_delete_pass(
                    spec_parse_trimmed(fetched@),
                    elems_view(old(self).elements@),
                );
                let doc1 = spec_doc_text(del.kept);
                match spec_decode(spec_parse_trimmed(doc1)) {
                    None => r == Err::<SyncPlan, SyncError>(SyncError::Decode) && elems_view(
                        final(self).elements@,
                    ) == del.elems,
                    Some(remote) => r matches Ok(plan) && {
                        &&& elems_view(plan.remote@) == remote
                        &&& plan.needs_upload == (del.changed || plan.new_ids@.len() > 0)
                        &&& plan.new_ids@.no_duplicates()
                        &&& (forall|k: int|
                            0 <= k < plan.new_ids@.len() ==> (#[trigger] plan.new_ids@[k]) != 0
                                && !spec_ids(remote, true).contains(plan.new_ids@[k]))
                        &&& elems_view(final(self).elements@).len() == del.elems.len()
                        &&& (forall|i: int|
                            0 <= i < del.elems.len() ==> (if (#[trigger] del.elems[i]).id
                                is Some {
                                elems_view(final(self).elements@)[i] == del.elems[i]
                            } else {
                                elems_view(final(self).elements@)[i] == del.elems[i] || (exists|
                                    v: u16,
                                |
                                    plan.new_ids@.contains(v) && elems_view(
                                        final(self).elements@,
                                    )[i] == spec_with_id(del.elems[i], v))
                            }))
                        &&& (forall|k: int|
                            #![trigger plan.new_ids@[k]]
                            0 <= k < plan.new_ids@.len() ==> spec_holds_id(
                                elems_view(final(self).elements@),
                                plan.new_ids@[k],
                            ))
                        &&& plan.payload@ == (if plan.new_ids@.len() > 0 {
                            spec_doc_text(
                                spec_insert_pass(
                                    spec_parse_raw(doc1),
                                    elems_view(final(self).elements@),
                                    plan.new_ids@,
                                ),
                            )
                        } else {
                            doc1
                        })
                    },
                }
            }),
    {
        let (entries_deleted, doc1) = self.delete_removed(fetched);
        let remote = match decode_registry(doc1.as_str()) {
            Ok(v) => v,
            Err(e) => {
                return Err(e);
            },
        };
        let mut existing_ids = collect_ids(&remote, true);
        let allocated = self.add_missing_ids(&mut existing_ids);
        let entries_added = allocated.0;
        let new_ids = allocated.1;
        let payload = if entries_added {
            self.insert_created_entries(doc1.as_str(), &new_ids)
        } else {
            doc1
        };
        let needs_upload = entries_deleted || entries_added;
        Ok(SyncPlan { needs_upload, payload, remote, new_ids })
    }

    /// Merges the fetched records into local state — a record already
    /// present by the identity rule is skipped, every other one appended —
    /// and marks the store synced.
    pub fn finish_sync(&mut self, remote: Vec<AppElement>)
        ensures
            elems_view(final(self).elements@) == spec_merge(
                elems_view(old(self).elements@),
                elems_view(remote@),
            ),
            final(self).synced == true,
            final(self).config == old(self).config,
            old(self).wf() ==> final(self).wf(),
    {
        self.add_new_elements(remote);
        self.synced = true;
    }
}

} // verus!
