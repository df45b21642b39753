//! The receipts that the local metadata store keeps: identifiers, canonical
//! digests and fold status only, never a message body.

use vstd::prelude::*;

verus! {

/// One durable artifact receipt.
#[derive(Clone, Debug, PartialEq, Eq)]
pub struct StoredArtifact {
    /// Stable Comb artifact identifier.
    pub stable_id: String,
    /// Proposal, review, record, or invalidation.
    pub artifact_kind: String,
    /// Buzz channel UUID as text.
    pub channel_id: String,
    /// Signed Buzz event ID, when published.
    pub event_id: Option<String>,
    /// Canonical digest of the Comb artifact.
    pub digest: String,
    /// Current folded status.
    pub status: String,
    /// Observation timestamp in Unix seconds.
    pub observed_at: i64,
}

/// One channel's durable replay cursor.
#[derive(Clone, Debug, PartialEq, Eq)]
pub struct ChannelCursor {
    /// Buzz channel UUID as text.
    pub channel_id: String,
    /// Last fully processed source event ID.
    pub last_event_id: String,
    /// Cursor update timestamp in Unix seconds.
    pub updated_at: i64,
}

} // verus!
