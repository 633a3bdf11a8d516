//! The error kinds of the sync pipeline.

use vstd::prelude::*;

verus! {

/// Why a sync aborted: the transport failed, or the fetched document does
/// not parse as the expected registry schema. An entry whose identifier is
/// missing or unparsable during a patch pass is not an error: the element
/// passes through as foreign content.
#[derive(PartialEq, Eq, Structural, Clone, Copy, Debug)]
pub enum SyncError {
    Transport,
    Decode,
}

impl SyncError {
    /// The display name of the error kind.
    pub fn to_string(&self) -> (r: String)
        ensures
            *self is Transport ==> r@ == ("transport failure")@,
            *self is Decode ==> r@ == ("registry decode failure")@,
    {
        match self {
            SyncError::Transport => String::from_str("transport failure"),
            SyncError::Decode => String::from_str("registry decode failure"),
        }
    }
}

} // verus!
