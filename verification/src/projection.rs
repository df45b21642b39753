//! The projection: the state that folding verified events builds, and the
//! rules by which each event is accepted or refused.

use vstd::prelude::*;

use crate::claim::{contains_str, copy_strings, Claim, ClaimState, ClaimV};
use crate::envelope::{
    deletion_fault, engine_fault, engine_or_else, engine_reports, envelope_fault, event_digest,
    event_id_of, lift_fault, EngineError, EngineEvent, EngineEventV, EngineFault, EnvelopeV,
    EventEnvelope, core_result,
};
use crate::error::Validate;
use crate::graph::{has_cycle, has_supersession_cycle, SupersessionGraph};
use crate::invalidation::{Invalidation, InvalidationReason, InvalidationV};
use crate::keyed::{find_key, has_key, insert_keyed, lookup, Keyed, lemma_lookup_at, lemma_insert_fresh};
use crate::order::{insert_by_key, sorted_by_key, views, SortKey};
use crate::proposal::{claim_sources, proposal_digest, proposal_sources, Proposal, ProposalV};
use crate::ratify::{
    evaluate, evaluation_of, unavailable, unavailable_evaluation, EvaluationV, PolicyV,
    RatificationEvaluation, RatificationPolicy, RatificationStatus,
};
use crate::record::{record_sources, MemoryRecord, MemoryRecordV};
use crate::review::{Review, ReviewDecision, ReviewV};
use crate::snapshot::same_text;
use crate::text::{chars_lt, lemma_chars_lt_order, str_order, Rank};

verus! {

/// The digest recorded for an applied event.
#[derive(Debug, Clone, PartialEq, Eq)]
pub struct EventDigest {
    pub event_id: String,
    pub digest: String,
}

impl View for EventDigest {
    type V = (Seq<char>, Seq<char>);

    open spec fn view(&self) -> (Seq<char>, Seq<char>) {
        (self.event_id@, self.digest@)
    }
}

impl SortKey for EventDigest {
    type Key = Seq<char>;

    open spec fn key(v: (Seq<char>, Seq<char>)) -> Seq<char> {
        v.0
    }

    open spec fn key_lt(a: Seq<char>, b: Seq<char>) -> bool {
        chars_lt(a, b)
    }

    proof fn lemma_key_order(a: Seq<char>, b: Seq<char>, c: Seq<char>) {
        lemma_chars_lt_order(a, b, c);
    }

    fn key_rank(&self, other: &EventDigest) -> (r: Rank) {
        str_order(self.event_id.as_str(), other.event_id.as_str())
    }
}

impl Keyed for EventDigest {
    fn key_str(&self) -> (r: &str) {
        self.event_id.as_str()
    }
}

/// A record whose cited sources were deleted and that no invalidation covers yet.
#[derive(Debug, Clone, PartialEq, Eq)]
pub struct PendingInvalidation {
    pub target_record_event_id: String,
    pub target_record_id: String,
    pub affected_claim_ids: Vec<String>,
    pub source_event_ids: Vec<String>,
}

/// The content of a pending invalidation.
pub struct PendingV {
    pub target_record_event_id: Seq<char>,
    pub target_record_id: Seq<char>,
    pub affected_claim_ids: Seq<Seq<char>>,
    pub source_event_ids: Seq<Seq<char>>,
}

impl View for PendingInvalidation {
    type V = PendingV;

    open spec fn view(&self) -> PendingV {
        PendingV {
            target_record_event_id: self.target_record_event_id@,
            target_record_id: self.target_record_id@,
            affected_claim_ids: views(self.affected_claim_ids@),
            source_event_ids: views(self.source_event_ids@),
        }
    }
}

/// What applying an event did.
#[derive(Debug, Clone, PartialEq, Eq)]
pub enum ApplyOutcome {
    Applied,
    Duplicate,
    SourceDeleted { pending_invalidations: Vec<PendingInvalidation> },
}

/// The content of an outcome.
pub enum OutcomeV {
    Applied,
    Duplicate,
    SourceDeleted(Seq<PendingV>),
}

impl View for ApplyOutcome {
    type V = OutcomeV;

    open spec fn view(&self) -> OutcomeV {
        match self {
            ApplyOutcome::Applied => OutcomeV::Applied,
            ApplyOutcome::Duplicate => OutcomeV::Duplicate,
            ApplyOutcome::SourceDeleted { pending_invalidations } => OutcomeV::SourceDeleted(
                views(pending_invalidations@),
            ),
        }
    }
}

/// Whether a record can be relied on.
#[derive(Debug, Clone, PartialEq, Eq)]
pub enum RecordAvailability {
    Available,
    ExplicitlyInvalidated,
    SourceUnavailable(Vec<String>),
    Superseded,
}

/// The content of an availability.
pub enum AvailabilityV {
    Available,
    ExplicitlyInvalidated,
    SourceUnavailable(Seq<Seq<char>>),
    Superseded,
}

impl View for RecordAvailability {
    type V = AvailabilityV;

    open spec fn view(&self) -> AvailabilityV {
        match self {
            RecordAvailability::Available => AvailabilityV::Available,
            RecordAvailability::ExplicitlyInvalidated => AvailabilityV::ExplicitlyInvalidated,
            RecordAvailability::SourceUnavailable(s) => AvailabilityV::SourceUnavailable(views(s@)),
            RecordAvailability::Superseded => AvailabilityV::Superseded,
        }
    }
}

/// The state of a projection: each collection in key order.
pub struct ProjectionV {
    pub policies: Seq<PolicyV>,
    pub proposals: Seq<EnvelopeV<ProposalV>>,
    pub reviews: Seq<EnvelopeV<ReviewV>>,
    pub records: Seq<EnvelopeV<MemoryRecordV>>,
    pub invalidations: Seq<EnvelopeV<InvalidationV>>,
    pub deleted_sources: Seq<Seq<char>>,
    pub event_digests: Seq<(Seq<char>, Seq<char>)>,
}

/// Every element of `store` was applied: its event id has a digest.
pub open spec fn covered<T: Keyed>(store: Seq<T::V>, digests: Seq<(Seq<char>, Seq<char>)>) -> bool {
    forall|i: int| 0 <= i < store.len() ==> has_key::<EventDigest>(digests, T::key(#[trigger] store[i]))
}

/// Every collection is strictly ordered by its key, and every stored event
/// has the digest of its application.
pub open spec fn projection_wf(s: ProjectionV) -> bool {
    &&& sorted_by_key::<RatificationPolicy>(s.policies)
    &&& sorted_by_key::<EventEnvelope<Proposal>>(s.proposals)
    &&& sorted_by_key::<EventEnvelope<Review>>(s.reviews)
    &&& sorted_by_key::<EventEnvelope<MemoryRecord>>(s.records)
    &&& sorted_by_key::<EventEnvelope<Invalidation>>(s.invalidations)
    &&& sorted_by_key::<String>(s.deleted_sources)
    &&& sorted_by_key::<EventDigest>(s.event_digests)
    &&& covered::<EventEnvelope<Proposal>>(s.proposals, s.event_digests)
    &&& covered::<EventEnvelope<Review>>(s.reviews, s.event_digests)
    &&& covered::<EventEnvelope<MemoryRecord>>(s.records, s.event_digests)
    &&& covered::<EventEnvelope<Invalidation>>(s.invalidations, s.event_digests)
}

/// A store stays covered when an applied element joins it.
pub proof fn lemma_covered_insert<T: Keyed>(store: Seq<T::V>, x: T::V, digests: Seq<(Seq<char>, Seq<char>)>)
    requires
        sorted_by_key::<T>(store),
        covered::<T>(store, digests),
        has_key::<EventDigest>(digests, T::key(x)),
    ensures
        covered::<T>(insert_by_key::<T>(store, x), digests),
{
    crate::order::lemma_insert_props::<T>(store, x);
    let r = insert_by_key::<T>(store, x);
    assert forall|i: int| 0 <= i < r.len() implies has_key::<EventDigest>(digests, T::key(#[trigger] r[i])) by {
        assert(r.contains(r[i]));
        if r[i] != x {
            let k = choose|k: int| 0 <= k < store.len() && store[k] == r[i];
        }
    }
}

/// A store stays covered when a digest is added.
pub proof fn lemma_covered_grow<T: Keyed>(store: Seq<T::V>, digests: Seq<(Seq<char>, Seq<char>)>, d: (Seq<char>, Seq<char>))
    requires
        sorted_by_key::<EventDigest>(digests),
        covered::<T>(store, digests),
    ensures
        covered::<T>(store, insert_by_key::<EventDigest>(digests, d)),
{
    crate::order::lemma_insert_props::<EventDigest>(digests, d);
    let g = insert_by_key::<EventDigest>(digests, d);
    assert forall|i: int| 0 <= i < store.len() implies has_key::<EventDigest>(g, T::key(#[trigger] store[i])) by {
        let k = T::key(store[i]);
        assert(has_key::<EventDigest>(digests, k));
        let j = choose|j: int| 0 <= j < digests.len() && EventDigest::key(digests[j]) == k;
        assert(digests.contains(digests[j]));
        assert(g.contains(digests[j]));
        let m = choose|m: int| 0 <= m < g.len() && g[m] == digests[j];
        assert(EventDigest::key(g[m]) == k);
    }
}

/// A record refers to a stored proposal signed by the record's author.
pub open spec fn record_linked(proposals: Seq<EnvelopeV<ProposalV>>, r: EnvelopeV<MemoryRecordV>) -> bool {
    match lookup::<EventEnvelope<Proposal>>(proposals, r.payload.proposal_event_id) {
        Some(p) => p.author == r.author,
        None => false,
    }
}

/// An invalidation targets a stored record signed by the invalidation's author.
pub open spec fn invalidation_linked(records: Seq<EnvelopeV<MemoryRecordV>>, v: EnvelopeV<InvalidationV>) -> bool {
    match lookup::<EventEnvelope<MemoryRecord>>(records, v.payload.target_record_event_id) {
        Some(r) => r.author == v.author,
        None => false,
    }
}

/// What the stored events amount to: every stored event passes its own
/// checks, every review and record refers to a stored proposal, every record
/// is signed by its proposal's author, every invalidation targets a stored
/// record and is signed by that record's author, and the supersession graph
/// has no cycle.
pub open spec fn stored_consistent(s: ProjectionV) -> bool {
    &&& forall|i: int| 0 <= i < s.proposals.len() ==> proposal_event_fault(#[trigger] s.proposals[i]) is None
    &&& forall|i: int|
        0 <= i < s.reviews.len() ==> review_event_fault(#[trigger] s.reviews[i]) is None && lookup::<
            EventEnvelope<Proposal>,
        >(s.proposals, s.reviews[i].payload.proposal_event_id) is Some
    &&& forall|i: int|
        0 <= i < s.records.len() ==> record_event_fault(#[trigger] s.records[i]) is None
            && record_linked(s.proposals, s.records[i])
    &&& forall|i: int|
        0 <= i < s.invalidations.len() ==> invalidation_event_fault(#[trigger] s.invalidations[i]) is None
            && invalidation_linked(s.records, s.invalidations[i])
    &&& !has_cycle(graph_of(s.records))
}

/// The empty projection.
pub open spec fn empty_projection() -> ProjectionV {
    ProjectionV {
        policies: Seq::empty(),
        proposals: Seq::empty(),
        reviews: Seq::empty(),
        records: Seq::empty(),
        invalidations: Seq::empty(),
        deleted_sources: Seq::empty(),
        event_digests: Seq::empty(),
    }
}

// ---------------------------------------------------------------------------
// The rules, stated over the projection's content.
// ---------------------------------------------------------------------------

/// The first of `srcs` that was deleted, if any.
pub open spec fn first_deleted(srcs: Seq<Seq<char>>, deleted: Seq<Seq<char>>) -> Option<Seq<char>>
    decreases srcs.len(),
{
    if srcs.len() == 0 {
        None
    } else if deleted.contains(srcs[0]) {
        Some(srcs[0])
    } else {
        first_deleted(srcs.drop_first(), deleted)
    }
}

/// Those of `srcs` that were deleted, in order.
pub open spec fn keep_deleted(srcs: Seq<Seq<char>>, deleted: Seq<Seq<char>>) -> Seq<Seq<char>>
    decreases srcs.len(),
{
    if srcs.len() == 0 {
        Seq::empty()
    } else {
        let rest = keep_deleted(srcs.drop_last(), deleted);
        if deleted.contains(srcs.last()) {
            rest.push(srcs.last())
        } else {
            rest
        }
    }
}

/// A claim of `claims` with identifier `id` is asserted.
pub open spec fn asserted(claims: Seq<ClaimV>, id: Seq<char>) -> bool {
    exists|i: int| 0 <= i < claims.len() && claims[i].state == ClaimState::Asserted && claims[i].claim_id == id
}

/// Every id names an asserted claim.
pub open spec fn all_asserted(ids: Seq<Seq<char>>, claims: Seq<ClaimV>) -> bool {
    forall|i: int| 0 <= i < ids.len() ==> asserted(claims, #[trigger] ids[i])
}

/// Every asserted claim's id is among `ids`.
pub open spec fn covers_asserted(ids: Seq<Seq<char>>, claims: Seq<ClaimV>) -> bool {
    forall|i: int|
        0 <= i < claims.len() && #[trigger] claims[i].state == ClaimState::Asserted ==> ids.contains(
            claims[i].claim_id,
        )
}

/// The ids of `claims`.
pub open spec fn claim_ids(claims: Seq<ClaimV>) -> Seq<Seq<char>> {
    claims.map_values(|c: ClaimV| c.claim_id)
}

/// The first fault of a proposal event's signature fields and payload.
#[verifier::opaque]
pub open spec fn proposal_event_fault(e: EnvelopeV<ProposalV>) -> Option<EngineFault> {
    engine_or_else(envelope_fault(e), lift_fault(Proposal::first_fault(e.payload)))
}

/// The first fault of a review event's signature fields and payload.
#[verifier::opaque]
pub open spec fn review_event_fault(e: EnvelopeV<ReviewV>) -> Option<EngineFault> {
    engine_or_else(envelope_fault(e), lift_fault(Review::first_fault(e.payload)))
}

/// The first fault of a record event's signature fields and payload.
#[verifier::opaque]
pub open spec fn record_event_fault(e: EnvelopeV<MemoryRecordV>) -> Option<EngineFault> {
    engine_or_else(envelope_fault(e), lift_fault(MemoryRecord::first_fault(e.payload)))
}

/// The first fault of an invalidation event's signature fields and payload.
#[verifier::opaque]
pub open spec fn invalidation_event_fault(e: EnvelopeV<InvalidationV>) -> Option<EngineFault> {
    engine_or_else(envelope_fault(e), lift_fault(Invalidation::first_fault(e.payload)))
}

/// The digest of a proposal that reviews and records must quote.
#[verifier::opaque]
pub open spec fn quoted_digest(p: ProposalV) -> Option<Seq<char>> {
    proposal_digest(p)
}

/// What checking a proposal event finds wrong, if anything.
pub open spec fn proposal_check(s: ProjectionV, e: EnvelopeV<ProposalV>) -> Option<EngineFault> {
    match proposal_event_fault(e) {
        Some(f) => Some(f),
        None => if !has_key::<RatificationPolicy>(s.policies, e.payload.policy_id) {
            Some(EngineFault::UnknownPolicy(e.payload.policy_id))
        } else {
            match first_deleted(proposal_sources(e.payload), s.deleted_sources) {
                Some(src) => Some(EngineFault::SourceUnavailable(src)),
                None => None,
            }
        },
    }
}

/// What checking a review event finds wrong, if anything.
pub open spec fn review_check(s: ProjectionV, e: EnvelopeV<ReviewV>) -> Option<EngineFault> {
    match review_event_fault(e) {
        Some(f) => Some(f),
        None => match lookup::<EventEnvelope<Proposal>>(s.proposals, e.payload.proposal_event_id) {
            None => Some(EngineFault::ProposalNotFound(e.payload.proposal_event_id)),
            Some(p) => match quoted_digest(p.payload) {
                None => Some(EngineFault::Core(crate::error::Fault::Canonical)),
                Some(d) => if d != e.payload.proposal_digest {
                    Some(
                        EngineFault::ReferenceMismatch(
                            "review proposal digest does not match the referenced proposal"@,
                        ),
                    )
                } else if p.payload.policy_id != e.payload.policy_id {
                    Some(
                        EngineFault::ReferenceMismatch(
                            "review policy does not match the proposal policy"@,
                        ),
                    )
                } else if !all_asserted(
                    e.payload.accepted_claim_ids + e.payload.rejected_claim_ids,
                    p.payload.claims,
                ) {
                    Some(
                        EngineFault::ReferenceMismatch(
                            "review references claims outside the proposal's asserted claim set"@,
                        ),
                    )
                } else if e.payload.decision == ReviewDecision::Accept && !covers_asserted(
                    e.payload.accepted_claim_ids,
                    p.payload.claims,
                ) {
                    Some(
                        EngineFault::ReferenceMismatch(
                            "accept reviews must accept every asserted proposal claim"@,
                        ),
                    )
                } else {
                    None
                },
            },
        },
    }
}

/// The evaluation of proposal `pid`: not found, unavailable when its
/// evidence was deleted, or the tally of its reviews under its policy.
pub open spec fn ratification_of(s: ProjectionV, pid: Seq<char>) -> Result<EvaluationV, EngineFault> {
    match lookup::<EventEnvelope<Proposal>>(s.proposals, pid) {
        None => Err(EngineFault::ProposalNotFound(pid)),
        Some(p) => if first_deleted(proposal_sources(p.payload), s.deleted_sources) is Some {
            Ok(unavailable_evaluation())
        } else {
            match lookup::<RatificationPolicy>(s.policies, p.payload.policy_id) {
                None => Err(EngineFault::UnknownPolicy(p.payload.policy_id)),
                Some(pol) => Ok(evaluation_of(s.reviews, pid, pol)),
            }
        },
    }
}

/// The record of `records`, first in key order, whose payload has `record_id`.
pub open spec fn record_with_id(records: Seq<EnvelopeV<MemoryRecordV>>, record_id: Seq<char>) -> Option<
    EnvelopeV<MemoryRecordV>,
>
    decreases records.len(),
{
    if records.len() == 0 {
        None
    } else if records[0].payload.record_id == record_id {
        Some(records[0])
    } else {
        record_with_id(records.drop_first(), record_id)
    }
}

/// The first superseded id that is unknown or lies in another channel.
pub open spec fn supersede_fault(
    records: Seq<EnvelopeV<MemoryRecordV>>,
    ids: Seq<Seq<char>>,
    channel: Seq<char>,
) -> Option<EngineFault>
    decreases ids.len(),
{
    if ids.len() == 0 {
        None
    } else {
        match record_with_id(records, ids[0]) {
            None => Some(EngineFault::UnknownSupersededRecord(ids[0])),
            Some(r) => if r.payload.channel_id != channel {
                Some(
                    EngineFault::ReferenceMismatch(
                        "a record may supersede records only in the same channel"@,
                    ),
                )
            } else {
                supersede_fault(records, ids.drop_first(), channel)
            },
        }
    }
}

/// The supersession graph of `records`: each record id to the ids it
/// supersedes; of two records with one id, the later in key order wins.
pub open spec fn graph_of(records: Seq<EnvelopeV<MemoryRecordV>>) -> Map<Seq<char>, Seq<Seq<char>>>
    decreases records.len(),
{
    if records.len() == 0 {
        Map::empty()
    } else {
        graph_of(records.drop_last()).insert(
            records.last().payload.record_id,
            records.last().payload.supersedes_record_ids,
        )
    }
}

/// The record's claims are exactly the proposal's asserted claims.
pub open spec fn same_claim_set(record_claims: Seq<ClaimV>, proposal_claims: Seq<ClaimV>) -> bool {
    all_asserted(claim_ids(record_claims), proposal_claims) && covers_asserted(
        claim_ids(record_claims),
        proposal_claims,
    )
}

/// Every item of `xs` is among `ys`.
pub open spec fn all_in(xs: Seq<Seq<char>>, ys: Seq<Seq<char>>) -> bool {
    forall|i: int| 0 <= i < xs.len() ==> ys.contains(#[trigger] xs[i])
}

/// The approval quorum of the policy named `policy_id`, or zero.
pub open spec fn quorum_of(s: ProjectionV, policy_id: Seq<char>) -> nat {
    match lookup::<RatificationPolicy>(s.policies, policy_id) {
        Some(p) => p.approval_quorum as nat,
        None => 0,
    }
}

/// What checking a record against its ratified proposal finds wrong.
pub open spec fn record_ratified_check(s: ProjectionV, e: EnvelopeV<MemoryRecordV>, p: EnvelopeV<ProposalV>) -> Option<
    EngineFault,
> {
    match ratification_of(s, e.payload.proposal_event_id) {
        Err(f) => Some(f),
        Ok(ev) => if ev.status != RatificationStatus::Ratified {
            Some(EngineFault::ProposalNotRatified(ev.status))
        } else if !all_in(e.payload.review_event_ids, ev.accepted) {
            Some(
                EngineFault::ReferenceMismatch(
                    "record references a review that did not count toward ratification"@,
                ),
            )
        } else if e.payload.review_event_ids.len() < quorum_of(s, p.payload.policy_id) {
            Some(
                EngineFault::ReferenceMismatch(
                    "record does not carry enough accepted review events for quorum"@,
                ),
            )
        } else if !same_claim_set(e.payload.claims, p.payload.claims) {
            Some(
                EngineFault::ReferenceMismatch(
                    "record claims must exactly equal the proposal's asserted claims"@,
                ),
            )
        } else {
            None
        },
    }
}

/// What checking a record's sources and supersessions finds wrong.
pub open spec fn record_links_check(s: ProjectionV, e: EnvelopeV<MemoryRecordV>) -> Option<EngineFault> {
    match first_deleted(record_sources(e.payload), s.deleted_sources) {
        Some(src) => Some(EngineFault::SourceUnavailable(src)),
        None => match supersede_fault(s.records, e.payload.supersedes_record_ids, e.payload.channel_id) {
            Some(f) => Some(f),
            None => if has_cycle(
                graph_of(s.records).insert(e.payload.record_id, e.payload.supersedes_record_ids),
            ) {
                Some(EngineFault::SupersessionCycle)
            } else {
                None
            },
        },
    }
}

/// What checking a record event finds wrong, if anything.
pub open spec fn record_check(s: ProjectionV, e: EnvelopeV<MemoryRecordV>) -> Option<EngineFault> {
    match record_event_fault(e) {
        Some(f) => Some(f),
        None => match lookup::<EventEnvelope<Proposal>>(s.proposals, e.payload.proposal_event_id) {
            None => Some(EngineFault::ProposalNotFound(e.payload.proposal_event_id)),
            Some(p) => match quoted_digest(p.payload) {
                None => Some(EngineFault::Core(crate::error::Fault::Canonical)),
                Some(d) => if d != e.payload.proposal_digest {
                    Some(
                        EngineFault::ReferenceMismatch(
                            "record proposal digest does not match the referenced proposal"@,
                        ),
                    )
                } else if p.payload.channel_id != e.payload.channel_id {
                    Some(EngineFault::ReferenceMismatch("record and proposal channels must match"@))
                } else if p.author != e.author {
                    Some(
                        EngineFault::ReferenceMismatch(
                            "record must be signed by the proposal author"@,
                        ),
                    )
                } else {
                    engine_or_else(record_ratified_check(s, e, p), record_links_check(s, e))
                },
            },
        },
    }
}

/// An invalidation targets the record with event id `eid`.
pub open spec fn invalidated(invs: Seq<EnvelopeV<InvalidationV>>, eid: Seq<char>) -> bool {
    exists|i: int| 0 <= i < invs.len() && (#[trigger] invs[i]).payload.target_record_event_id == eid
}

/// What checking an invalidation event finds wrong, if anything.
pub open spec fn invalidation_check(s: ProjectionV, e: EnvelopeV<InvalidationV>) -> Option<EngineFault> {
    match invalidation_event_fault(e) {
        Some(f) => Some(f),
        None => match lookup::<EventEnvelope<MemoryRecord>>(s.records, e.payload.target_record_event_id) {
            None => Some(EngineFault::RecordNotFound(e.payload.target_record_event_id)),
            Some(r) => if r.payload.record_id != e.payload.target_record_id {
                Some(
                    EngineFault::ReferenceMismatch(
                        "invalidation target record digest does not match"@,
                    ),
                )
            } else if r.author != e.author {
                Some(
                    EngineFault::ReferenceMismatch(
                        "invalidation must be signed by the record author"@,
                    ),
                )
            } else if !all_in(e.payload.affected_claim_ids, claim_ids(r.payload.claims)) {
                Some(
                    EngineFault::ReferenceMismatch(
                        "invalidation references claims outside the record"@,
                    ),
                )
            } else if !all_in(e.payload.source_event_ids, record_sources(r.payload)) {
                Some(
                    EngineFault::ReferenceMismatch(
                        "invalidation references sources outside the record"@,
                    ),
                )
            } else if e.payload.reason == InvalidationReason::SourceDeleted && !all_in(
                e.payload.source_event_ids,
                s.deleted_sources,
            ) {
                Some(
                    EngineFault::ReferenceMismatch(
                        "source-deleted invalidation requires observed source deletion"@,
                    ),
                )
            } else {
                None
            },
        },
    }
}

/// The ids of the claims that cite one of `dels`.
pub open spec fn affected_claims(claims: Seq<ClaimV>, dels: Seq<Seq<char>>) -> Seq<Seq<char>>
    decreases claims.len(),
{
    if claims.len() == 0 {
        Seq::empty()
    } else {
        let rest = affected_claims(claims.drop_last(), dels);
        let c = claims.last();
        if exists|j: int| 0 <= j < claim_sources(c).len() && dels.contains(#[trigger] claim_sources(c)[j]) {
            rest.push(c.claim_id)
        } else {
            rest
        }
    }
}

/// The pending invalidations of `records`, in key order: each record that
/// cites a deleted source and that no invalidation targets.
pub open spec fn pending_list(
    records: Seq<EnvelopeV<MemoryRecordV>>,
    invs: Seq<EnvelopeV<InvalidationV>>,
    deleted: Seq<Seq<char>>,
) -> Seq<PendingV>
    decreases records.len(),
{
    if records.len() == 0 {
        Seq::empty()
    } else {
        let rest = pending_list(records.drop_last(), invs, deleted);
        let r = records.last();
        let dels = keep_deleted(record_sources(r.payload), deleted);
        if dels.len() == 0 || invalidated(invs, r.event_id) {
            rest
        } else {
            rest.push(
                PendingV {
                    target_record_event_id: r.event_id,
                    target_record_id: r.payload.record_id,
                    affected_claim_ids: affected_claims(r.payload.claims, dels),
                    source_event_ids: dels,
                },
            )
        }
    }
}

/// The pending invalidations of a projection.
pub open spec fn pending_of(s: ProjectionV) -> Seq<PendingV> {
    pending_list(s.records, s.invalidations, s.deleted_sources)
}

/// A record is available by itself: not invalidated, no source deleted.
pub open spec fn base_available(s: ProjectionV, r: EnvelopeV<MemoryRecordV>) -> bool {
    !invalidated(s.invalidations, r.event_id) && first_deleted(record_sources(r.payload), s.deleted_sources) is None
}

/// Some other record, available by itself, supersedes `r`.
pub open spec fn superseded(s: ProjectionV, r: EnvelopeV<MemoryRecordV>) -> bool {
    exists|i: int|
        0 <= i < s.records.len() && (#[trigger] s.records[i]).event_id != r.event_id && base_available(
            s,
            s.records[i],
        ) && s.records[i].payload.supersedes_record_ids.contains(r.payload.record_id)
}

/// The availability of a stored record.
pub open spec fn availability(s: ProjectionV, r: EnvelopeV<MemoryRecordV>) -> AvailabilityV {
    if invalidated(s.invalidations, r.event_id) {
        AvailabilityV::ExplicitlyInvalidated
    } else if keep_deleted(record_sources(r.payload), s.deleted_sources).len() > 0 {
        AvailabilityV::SourceUnavailable(keep_deleted(record_sources(r.payload), s.deleted_sources))
    } else if superseded(s, r) {
        AvailabilityV::Superseded
    } else {
        AvailabilityV::Available
    }
}

/// The availability of the record with event id `eid`.
pub open spec fn availability_of(s: ProjectionV, eid: Seq<char>) -> Result<AvailabilityV, EngineFault> {
    match lookup::<EventEnvelope<MemoryRecord>>(s.records, eid) {
        None => Err(EngineFault::RecordNotFound(eid)),
        Some(r) => Ok(availability(s, r)),
    }
}

/// The records of `rs` that are available, in order.
pub open spec fn available_among(s: ProjectionV, rs: Seq<EnvelopeV<MemoryRecordV>>) -> Seq<EnvelopeV<MemoryRecordV>>
    decreases rs.len(),
{
    if rs.len() == 0 {
        Seq::empty()
    } else {
        let rest = available_among(s, rs.drop_last());
        if availability(s, rs.last()) == AvailabilityV::Available {
            rest.push(rs.last())
        } else {
            rest
        }
    }
}

/// What an event does to the projection once its checks pass, or its fault.
#[verifier::opaque]
pub open spec fn step(s: ProjectionV, e: EngineEventV) -> Result<(ProjectionV, OutcomeV), EngineFault> {
    match e {
        EngineEventV::Proposal(x) => match proposal_check(s, x) {
            Some(f) => Err(f),
            None => Ok(
                (
                    ProjectionV {
                        proposals: insert_by_key::<EventEnvelope<Proposal>>(s.proposals, x),
                        ..s
                    },
                    OutcomeV::Applied,
                ),
            ),
        },
        EngineEventV::Review(x) => match review_check(s, x) {
            Some(f) => Err(f),
            None => Ok(
                (
                    ProjectionV { reviews: insert_by_key::<EventEnvelope<Review>>(s.reviews, x), ..s },
                    OutcomeV::Applied,
                ),
            ),
        },
        EngineEventV::Record(x) => match record_check(s, x) {
            Some(f) => Err(f),
            None => Ok(
                (
                    ProjectionV {
                        records: insert_by_key::<EventEnvelope<MemoryRecord>>(s.records, x),
                        ..s
                    },
                    OutcomeV::Applied,
                ),
            ),
        },
        EngineEventV::Invalidation(x) => match invalidation_check(s, x) {
            Some(f) => Err(f),
            None => Ok(
                (
                    ProjectionV {
                        invalidations: insert_by_key::<EventEnvelope<Invalidation>>(
                            s.invalidations,
                            x,
                        ),
                        ..s
                    },
                    OutcomeV::Applied,
                ),
            ),
        },
        EngineEventV::SourceDeleted(d) => match deletion_fault(d) {
            Some(f) => Err(f),
            None => {
                let s2 = ProjectionV {
                    deleted_sources: insert_by_key::<String>(s.deleted_sources, d.source_event_id),
                    ..s
                };
                Ok((s2, OutcomeV::SourceDeleted(pending_of(s2))))
            },
        },
    }
}

/// What applying event `e` to `s` gives: the new state and the outcome, or
/// the fault. An event whose id was applied before is a duplicate when its
/// digest matches and a collision otherwise; refused events change nothing.
pub open spec fn apply_result(s: ProjectionV, e: EngineEventV) -> Result<(ProjectionV, OutcomeV), EngineFault> {
    match event_digest(e) {
        None => Err(EngineFault::Core(crate::error::Fault::Canonical)),
        Some(dg) => match lookup::<EventDigest>(s.event_digests, event_id_of(e)) {
            Some(entry) => if entry.1 == dg {
                Ok((s, OutcomeV::Duplicate))
            } else {
                Err(EngineFault::EventIdCollision(event_id_of(e)))
            },
            None => match step(s, e) {
                Err(f) => Err(f),
                Ok((s2, o)) => Ok(
                    (
                        ProjectionV {
                            event_digests: insert_by_key::<EventDigest>(
                                s2.event_digests,
                                (event_id_of(e), dg),
                            ),
                            ..s2
                        },
                        o,
                    ),
                ),
            },
        },
    }
}


/// Adding a policy: a new identifier is stored; a known one must be the
/// same policy, since policies are immutable.
pub open spec fn add_policy_result(s: ProjectionV, p: PolicyV) -> Result<ProjectionV, EngineFault> {
    match crate::ratify::policy_fault(p) {
        Some(f) => Err(f),
        None => match lookup::<RatificationPolicy>(s.policies, p.policy_id) {
            Some(existing) => if crate::ratify::same_policy(existing, p) {
                Ok(s)
            } else {
                Err(EngineFault::InvalidEnvelope("policy "@ + p.policy_id + " is immutable"@))
            },
            None => Ok(
                ProjectionV { policies: insert_by_key::<RatificationPolicy>(s.policies, p), ..s },
            ),
        },
    }
}

/// A projection built from policies added one after another.
pub open spec fn policies_result(ps: Seq<PolicyV>) -> Result<ProjectionV, EngineFault>
    decreases ps.len(),
{
    if ps.len() == 0 {
        Ok(empty_projection())
    } else {
        match policies_result(ps.drop_last()) {
            Err(f) => Err(f),
            Ok(s) => add_policy_result(s, ps.last()),
        }
    }
}

// ---------------------------------------------------------------------------
// Helpers over lists of strings and claims.
// ---------------------------------------------------------------------------

/// The first of `srcs` that was deleted, if any.
fn first_deleted_in(srcs: &Vec<String>, deleted: &Vec<String>) -> (r: Option<String>)
    ensures
        match first_deleted(views(srcs@), views(deleted@)) {
            Some(x) => r is Some && r->0@ == x,
            None => r is None,
        },
{
    let ghost v = views(srcs@);
    let n = srcs.len();
    let mut i: usize = 0;
    assert(v.skip(0) =~= v);
    while i < n
        invariant
            n == srcs@.len(),
            v == views(srcs@),
            i <= n,
            first_deleted(v, views(deleted@)) == first_deleted(v.skip(i as int), views(deleted@)),
        decreases n - i,
    {
        proof {
            assert(v.skip(i as int)[0] == srcs@[i as int]@);
            assert(v.skip(i as int).drop_first() =~= v.skip(i + 1));
        }
        if contains_str(deleted, srcs[i].as_str()) {
            return Some(srcs[i].clone());
        }
        i += 1;
    }
    assert(v.skip(n as int) =~= Seq::<Seq<char>>::empty());
    None
}

/// Those of `srcs` that were deleted, in order.
fn deleted_among(srcs: &Vec<String>, deleted: &Vec<String>) -> (r: Vec<String>)
    ensures
        views(r@) == keep_deleted(views(srcs@), views(deleted@)),
{
    let ghost v = views(srcs@);
    let mut out: Vec<String> = Vec::new();
    let n = srcs.len();
    let mut i: usize = 0;
    while i < n
        invariant
            n == srcs@.len(),
            v == views(srcs@),
            i <= n,
            views(out@) == keep_deleted(v.take(i as int), views(deleted@)),
        decreases n - i,
    {
        proof {
            assert(v.take(i + 1).drop_last() =~= v.take(i as int));
            assert(v.take(i + 1).last() == srcs@[i as int]@);
        }
        if contains_str(deleted, srcs[i].as_str()) {
            out.push(srcs[i].clone());
            proof {
                assert(views(out@) =~= keep_deleted(v.take(i as int), views(deleted@)).push(srcs@[i as int]@));
            }
        }
        i += 1;
    }
    assert(v.take(n as int) =~= v);
    out
}

/// Every item of `xs` is among `ys`.
fn all_in_strs(xs: &Vec<String>, ys: &Vec<String>) -> (r: bool)
    ensures
        r == all_in(views(xs@), views(ys@)),
{
    let n = xs.len();
    let mut i: usize = 0;
    while i < n
        invariant
            n == xs@.len(),
            i <= n,
            forall|k: int| 0 <= k < i ==> views(ys@).contains(#[trigger] views(xs@)[k]),
        decreases n - i,
    {
        if !contains_str(ys, xs[i].as_str()) {
            proof {
                assert(views(xs@)[i as int] == xs@[i as int]@);
            }
            return false;
        }
        proof {
            assert(views(xs@)[i as int] == xs@[i as int]@);
        }
        i += 1;
    }
    true
}

/// A claim of `claims` with identifier `id` is asserted.
fn is_asserted(claims: &Vec<Claim>, id: &str) -> (r: bool)
    ensures
        r == asserted(views(claims@), id@),
{
    let n = claims.len();
    let mut i: usize = 0;
    while i < n
        invariant
            n == claims@.len(),
            i <= n,
            forall|k: int| 0 <= k < i ==> !(#[trigger] views(claims@)[k].state == ClaimState::Asserted
                && views(claims@)[k].claim_id == id@),
        decreases n - i,
    {
        proof {
            assert(views(claims@)[i as int] == claims@[i as int]@);
        }
        if claims[i].state == ClaimState::Asserted && same_text(claims[i].claim_id.as_str(), id) {
            return true;
        }
        i += 1;
    }
    false
}

/// Every id names an asserted claim.
fn ids_asserted(ids: &Vec<String>, claims: &Vec<Claim>) -> (r: bool)
    ensures
        r == all_asserted(views(ids@), views(claims@)),
{
    let n = ids.len();
    let mut i: usize = 0;
    while i < n
        invariant
            n == ids@.len(),
            i <= n,
            forall|k: int| 0 <= k < i ==> asserted(views(claims@), #[trigger] views(ids@)[k]),
        decreases n - i,
    {
        proof {
            assert(views(ids@)[i as int] == ids@[i as int]@);
        }
        if !is_asserted(claims, ids[i].as_str()) {
            return false;
        }
        i += 1;
    }
    true
}

/// Every asserted claim's id is among `ids`.
fn covers(ids: &Vec<String>, claims: &Vec<Claim>) -> (r: bool)
    ensures
        r == covers_asserted(views(ids@), views(claims@)),
{
    let n = claims.len();
    let mut i: usize = 0;
    while i < n
        invariant
            n == claims@.len(),
            i <= n,
            forall|k: int|
                0 <= k < i && #[trigger] views(claims@)[k].state == ClaimState::Asserted ==> views(
                    ids@,
                ).contains(views(claims@)[k].claim_id),
        decreases n - i,
    {
        proof {
            assert(views(claims@)[i as int] == claims@[i as int]@);
        }
        if claims[i].state == ClaimState::Asserted && !contains_str(ids, claims[i].claim_id.as_str()) {
            proof {
                assert(views(claims@)[i as int].state == ClaimState::Asserted);
            }
            return false;
        }
        i += 1;
    }
    true
}

/// The identifiers of `claims`.
fn ids_of(claims: &Vec<Claim>) -> (r: Vec<String>)
    ensures
        views(r@) == claim_ids(views(claims@)),
{
    let mut out: Vec<String> = Vec::new();
    let n = claims.len();
    let mut i: usize = 0;
    while i < n
        invariant
            n == claims@.len(),
            i <= n,
            out@.len() == i,
            forall|k: int| 0 <= k < i ==> (#[trigger] out@[k])@ == claims@[k].claim_id@,
        decreases n - i,
    {
        out.push(claims[i].claim_id.clone());
        i += 1;
    }
    assert(views(out@) =~= claim_ids(views(claims@)));
    out
}

proof fn lemma_all_asserted_concat(a: Seq<Seq<char>>, b: Seq<Seq<char>>, claims: Seq<ClaimV>)
    ensures
        all_asserted(a + b, claims) == (all_asserted(a, claims) && all_asserted(b, claims)),
{
    let ab = a + b;
    if all_asserted(a, claims) && all_asserted(b, claims) {
        assert forall|i: int| 0 <= i < ab.len() implies asserted(claims, #[trigger] ab[i]) by {
            if i < a.len() {
                assert(ab[i] == a[i]);
            } else {
                assert(ab[i] == b[i - a.len()]);
            }
        }
    }
    if all_asserted(ab, claims) {
        assert forall|i: int| 0 <= i < a.len() implies asserted(claims, #[trigger] a[i]) by {
            assert(ab[i] == a[i]);
        }
        assert forall|i: int| 0 <= i < b.len() implies asserted(claims, #[trigger] b[i]) by {
            assert(ab[a.len() + i] == b[i]);
        }
    }
}

/// The digest of a proposal, as reviews and records quote it.
fn digest_of_proposal(p: &Proposal) -> (r: Result<String, EngineError>)
    ensures
        match quoted_digest(p@) {
            Some(d) => r is Ok && r->Ok_0@ == d,
            None => r is Err && engine_fault(r->Err_0) == EngineFault::Core(crate::error::Fault::Canonical),
        },
{
    reveal(quoted_digest);
    match p.digest() {
        Ok(d) => Ok(d),
        Err(err) => Err(EngineError::Core(err)),
    }
}

/// Check a proposal event's signature fields and payload.
fn validate_proposal_event(e: &EventEnvelope<Proposal>) -> (r: Result<(), EngineError>)
    ensures
        engine_reports(r, proposal_event_fault(e@)),
{
    reveal(proposal_event_fault);
    if let Err(err) = e.validate_envelope() {
        return Err(err);
    }
    core_result(e.payload.validate())
}

/// Check a review event's signature fields and payload.
fn validate_review_event(e: &EventEnvelope<Review>) -> (r: Result<(), EngineError>)
    ensures
        engine_reports(r, review_event_fault(e@)),
{
    reveal(review_event_fault);
    if let Err(err) = e.validate_envelope() {
        return Err(err);
    }
    core_result(e.payload.validate())
}

/// Check a record event's signature fields and payload.
fn validate_record_event(e: &EventEnvelope<MemoryRecord>) -> (r: Result<(), EngineError>)
    ensures
        engine_reports(r, record_event_fault(e@)),
{
    reveal(record_event_fault);
    if let Err(err) = e.validate_envelope() {
        return Err(err);
    }
    core_result(e.payload.validate())
}

/// Check an invalidation event's signature fields and payload.
fn validate_invalidation_event(e: &EventEnvelope<Invalidation>) -> (r: Result<(), EngineError>)
    ensures
        engine_reports(r, invalidation_event_fault(e@)),
{
    reveal(invalidation_event_fault);
    if let Err(err) = e.validate_envelope() {
        return Err(err);
    }
    core_result(e.payload.validate())
}

/// The position of the first record, in key order, whose payload has `record_id`.
fn find_record_id(records: &Vec<EventEnvelope<MemoryRecord>>, record_id: &str) -> (r: Option<usize>)
    ensures
        match record_with_id(views(records@), record_id@) {
            Some(x) => r is Some && r->0 < records@.len() && records@[r->0 as int]@ == x,
            None => r is None,
        },
{
    let ghost v = views(records@);
    let n = records.len();
    let mut i: usize = 0;
    assert(v.skip(0) =~= v);
    while i < n
        invariant
            n == records@.len(),
            v == views(records@),
            i <= n,
            record_with_id(v, record_id@) == record_with_id(v.skip(i as int), record_id@),
        decreases n - i,
    {
        proof {
            assert(v.skip(i as int)[0] == records@[i as int]@);
            assert(v.skip(i as int).drop_first() =~= v.skip(i + 1));
        }
        if same_text(records[i].payload.record_id.as_str(), record_id) {
            return Some(i);
        }
        i += 1;
    }
    assert(v.skip(n as int) =~= Seq::<EnvelopeV<MemoryRecordV>>::empty());
    None
}

/// An invalidation targets the record with event id `eid`.
fn is_invalidated(invs: &Vec<EventEnvelope<Invalidation>>, eid: &str) -> (r: bool)
    ensures
        r == invalidated(views(invs@), eid@),
{
    let n = invs.len();
    let mut i: usize = 0;
    while i < n
        invariant
            n == invs@.len(),
            i <= n,
            forall|k: int| 0 <= k < i ==> (#[trigger] views(invs@)[k]).payload.target_record_event_id != eid@,
        decreases n - i,
    {
        proof {
            assert(views(invs@)[i as int] == invs@[i as int]@);
        }
        if same_text(invs[i].payload.target_record_event_id.as_str(), eid) {
            return true;
        }
        i += 1;
    }
    false
}

/// The ids of the claims that cite one of `dels`.
fn affected_ids(claims: &Vec<Claim>, dels: &Vec<String>) -> (r: Vec<String>)
    ensures
        views(r@) == affected_claims(views(claims@), views(dels@)),
{
    let ghost v = views(claims@);
    let mut out: Vec<String> = Vec::new();
    let n = claims.len();
    let mut i: usize = 0;
    while i < n
        invariant
            n == claims@.len(),
            v == views(claims@),
            i <= n,
            views(out@) == affected_claims(v.take(i as int), views(dels@)),
        decreases n - i,
    {
        proof {
            assert(v.take(i + 1).drop_last() =~= v.take(i as int));
            assert(v.take(i + 1).last() == claims@[i as int]@);
        }
        let all = claims[i].all_evidence();
        let ghost cs = claim_sources(claims@[i as int]@);
        let m = all.len();
        let mut j: usize = 0;
        let mut hit = false;
        while j < m
            invariant
                m == all@.len(),
                cs == views(all@).map_values(|e: crate::evidence::EvidenceRefV| e.event_id),
                j <= m,
                hit == exists|k: int| 0 <= k < j && views(dels@).contains(#[trigger] cs[k]),
            decreases m - j,
        {
            proof {
                assert(cs[j as int] == all@[j as int]@.event_id);
            }
            if contains_str(dels, all[j].event_id.as_str()) {
                hit = true;
            }
            j += 1;
        }
        if hit {
            out.push(claims[i].claim_id.clone());
            proof {
                assert(views(out@) =~= affected_claims(v.take(i as int), views(dels@)).push(claims@[i as int].claim_id@));
            }
        }
        i += 1;
    }
    assert(v.take(n as int) =~= v);
    out
}

// ---------------------------------------------------------------------------
// The projection itself.
// ---------------------------------------------------------------------------

/// The state built by folding verified events: the known policies and the
/// accepted proposals, reviews, records and invalidations, the deleted
/// sources, and the digest of every applied event.
#[derive(Debug)]
pub struct Projection {
    policies: Vec<RatificationPolicy>,
    proposals: Vec<EventEnvelope<Proposal>>,
    reviews: Vec<EventEnvelope<Review>>,
    records: Vec<EventEnvelope<MemoryRecord>>,
    invalidations: Vec<EventEnvelope<Invalidation>>,
    deleted_sources: Vec<String>,
    event_digests: Vec<EventDigest>,
}

impl View for Projection {
    type V = ProjectionV;

    closed spec fn view(&self) -> ProjectionV {
        ProjectionV {
            policies: views(self.policies@),
            proposals: views(self.proposals@),
            reviews: views(self.reviews@),
            records: views(self.records@),
            invalidations: views(self.invalidations@),
            deleted_sources: views(self.deleted_sources@),
            event_digests: views(self.event_digests@),
        }
    }
}

impl Projection {
    #[verifier::type_invariant]
    spec fn wf(self) -> bool {
        projection_wf(self@)
    }

    fn empty() -> (r: Projection)
        ensures
            r@ == empty_projection(),
    {
        let r = Projection {
            policies: Vec::new(),
            proposals: Vec::new(),
            reviews: Vec::new(),
            records: Vec::new(),
            invalidations: Vec::new(),
            deleted_sources: Vec::new(),
            event_digests: Vec::new(),
        };
        assert(views(r.policies@) =~= Seq::<PolicyV>::empty());
        assert(views(r.proposals@) =~= Seq::<EnvelopeV<ProposalV>>::empty());
        assert(views(r.reviews@) =~= Seq::<EnvelopeV<ReviewV>>::empty());
        assert(views(r.records@) =~= Seq::<EnvelopeV<MemoryRecordV>>::empty());
        assert(views(r.invalidations@) =~= Seq::<EnvelopeV<InvalidationV>>::empty());
        assert(views(r.deleted_sources@) =~= Seq::<Seq<char>>::empty());
        assert(views(r.event_digests@) =~= Seq::<(Seq<char>, Seq<char>)>::empty());
        r
    }

    /// A projection that knows the given policies, added in order.
    pub fn new(policies: Vec<RatificationPolicy>) -> (r: Result<Projection, EngineError>)
        ensures
            match policies_result(views(policies@)) {
                Ok(s) => r is Ok && r->Ok_0@ == s,
                Err(f) => r is Err && engine_fault(r->Err_0) == f,
            },
            r matches Ok(p) ==> projection_wf(p@) && stored_consistent(p@),
    {
        proof {
            crate::laws::law_policies_consistent(views(policies@));
        }
        let ghost orig = policies@;
        let ghost all = views(policies@);
        assert(orig.len() == policies.len());
        let mut projection = Projection::empty();
        let mut rest = policies;
        let mut k: usize = 0;
        assert(all.take(0) =~= Seq::<PolicyV>::empty());
        while rest.len() > 0
            invariant
                k + rest@.len() == all.len(),
                all == views(orig),
                orig == policies@,
                orig.len() <= usize::MAX,
                rest@ == orig.skip(k as int),
                policies_result(all.take(k as int)) == Ok::<ProjectionV, EngineFault>(projection@),
            decreases rest@.len(),
        {
            let p = rest.remove(0);
            proof {
                assert(p == orig[k as int]);
                assert(rest@ =~= orig.skip(k + 1));
                assert(all.take(k + 1).drop_last() =~= all.take(k as int));
                assert(all.take(k + 1).last() == p@);
            }
            let ghost before = projection@;
            if let Err(e) = projection.add_policy(p) {
                proof {
                    assert(k + 1 <= all.len());
                    assert(policies_result(all.take(k + 1)) == add_policy_result(before, p@));
                    lemma_policies_stop(all, k + 1);
                }
                return Err(e);
            }
            k += 1;
        }
        assert(all.take(k as int) =~= all);
        Ok(projection)
    }

    /// Add a policy. A policy id that is already known must come with the
    /// same policy.
    pub fn add_policy(&mut self, policy: RatificationPolicy) -> (r: Result<(), EngineError>)
        ensures
            match add_policy_result(old(self)@, policy@) {
                Ok(s) => r is Ok && final(self)@ == s,
                Err(f) => r is Err && engine_fault(r->Err_0) == f && final(self)@ == old(self)@,
            },
            projection_wf(final(self)@),
            stored_consistent(old(self)@) ==> stored_consistent(final(self)@),
    {
        proof {
            use_type_invariant(&*self);
        }
        if let Err(e) = policy.validate() {
            return Err(e);
        }
        match find_key(&self.policies, policy.policy_id.as_str()) {
            Some(i) => {
                proof {
                    lemma_lookup_at::<RatificationPolicy>(self@.policies, i as int);
                    assert(self@.policies[i as int] == self.policies@[i as int]@);
                }
                if self.policies[i].same_as(&policy) {
                    Ok(())
                } else {
                    Err(
                        EngineError::InvalidEnvelope(
                            "policy ".to_owned().concat(policy.policy_id.as_str()).concat(
                                " is immutable",
                            ),
                        ),
                    )
                }
            },
            None => {
                let mut ps: Vec<RatificationPolicy> = Vec::new();
                std::mem::swap(&mut ps, &mut self.policies);
                insert_keyed(&mut ps, policy);
                self.policies = ps;
                proof {
                    use_type_invariant(&*self);
                }
                Ok(())
            },
        }
    }

    /// The stored proposal event with id `event_id`.
    pub fn proposal(&self, event_id: &str) -> (r: Option<&EventEnvelope<Proposal>>)
        ensures
            match r {
                Some(p) => lookup::<EventEnvelope<Proposal>>(self@.proposals, event_id@) == Some(p@),
                None => lookup::<EventEnvelope<Proposal>>(self@.proposals, event_id@) is None,
            },
    {
        proof {
            use_type_invariant(self);
        }
        match find_key(&self.proposals, event_id) {
            Some(i) => {
                proof {
                    lemma_lookup_at::<EventEnvelope<Proposal>>(self@.proposals, i as int);
                }
                Some(&self.proposals[i])
            },
            None => None,
        }
    }

    /// The stored review event with id `event_id`.
    pub fn review(&self, event_id: &str) -> (r: Option<&EventEnvelope<Review>>)
        ensures
            match r {
                Some(p) => lookup::<EventEnvelope<Review>>(self@.reviews, event_id@) == Some(p@),
                None => lookup::<EventEnvelope<Review>>(self@.reviews, event_id@) is None,
            },
    {
        proof {
            use_type_invariant(self);
        }
        match find_key(&self.reviews, event_id) {
            Some(i) => {
                proof {
                    lemma_lookup_at::<EventEnvelope<Review>>(self@.reviews, i as int);
                }
                Some(&self.reviews[i])
            },
            None => None,
        }
    }

    /// The stored record event with id `event_id`.
    pub fn record(&self, event_id: &str) -> (r: Option<&EventEnvelope<MemoryRecord>>)
        ensures
            match r {
                Some(p) => lookup::<EventEnvelope<MemoryRecord>>(self@.records, event_id@) == Some(p@),
                None => lookup::<EventEnvelope<MemoryRecord>>(self@.records, event_id@) is None,
            },
    {
        proof {
            use_type_invariant(self);
        }
        match find_key(&self.records, event_id) {
            Some(i) => {
                proof {
                    lemma_lookup_at::<EventEnvelope<MemoryRecord>>(self@.records, i as int);
                }
                Some(&self.records[i])
            },
            None => None,
        }
    }
}

impl Projection {
    /// Count the reviews of the proposal with event id `proposal_event_id`:
    /// unavailable when a source it cites was deleted, otherwise the tally
    /// under its policy.
    pub fn ratification(&self, proposal_event_id: &str) -> (r: Result<RatificationEvaluation, EngineError>)
        ensures
            match ratification_of(self@, proposal_event_id@) {
                Ok(ev) => r is Ok && r->Ok_0@ == ev,
                Err(f) => r is Err && engine_fault(r->Err_0) == f,
            },
    {
        proof {
            use_type_invariant(self);
        }
        let pi = match find_key(&self.proposals, proposal_event_id) {
            Some(i) => i,
            None => return Err(EngineError::ProposalNotFound(proposal_event_id.to_owned())),
        };
        proof {
            lemma_lookup_at::<EventEnvelope<Proposal>>(self@.proposals, pi as int);
        }
        let proposal = &self.proposals[pi];
        let sources = proposal.payload.evidence_event_ids();
        if first_deleted_in(&sources, &self.deleted_sources).is_some() {
            return Ok(unavailable());
        }
        match find_key(&self.policies, proposal.payload.policy_id.as_str()) {
            Some(k) => {
                proof {
                    lemma_lookup_at::<RatificationPolicy>(self@.policies, k as int);
                }
                Ok(evaluate(&self.reviews, proposal_event_id, &self.policies[k]))
            },
            None => Err(EngineError::UnknownPolicy(proposal.payload.policy_id.clone())),
        }
    }

    /// The supersession graph of the stored records.
    pub fn supersession_graph(&self) -> (r: SupersessionGraph)
        ensures
            r@ == graph_of(self@.records),
    {
        let ghost rs = self@.records;
        let mut graph = SupersessionGraph::new();
        let n = self.records.len();
        let mut i: usize = 0;
        while i < n
            invariant
                n == self.records@.len(),
                rs == views(self.records@),
                i <= n,
                graph@ == graph_of(rs.take(i as int)),
            decreases n - i,
        {
            proof {
                assert(rs.take(i + 1).drop_last() =~= rs.take(i as int));
                assert(rs.take(i + 1).last() == self.records@[i as int]@);
            }
            let rec = &self.records[i];
            graph.insert(rec.payload.record_id.clone(), copy_strings(&rec.payload.supersedes_record_ids));
            i += 1;
        }
        assert(rs.take(n as int) =~= rs);
        graph
    }

    fn check_proposal(&self, e: &EventEnvelope<Proposal>) -> (r: Result<(), EngineError>)
        ensures
            engine_reports(r, proposal_check(self@, e@)),
    {
        if let Err(err) = validate_proposal_event(e) {
            return Err(err);
        }
        if find_key(&self.policies, e.payload.policy_id.as_str()).is_none() {
            return Err(EngineError::UnknownPolicy(e.payload.policy_id.clone()));
        }
        let sources = e.payload.evidence_event_ids();
        match first_deleted_in(&sources, &self.deleted_sources) {
            Some(src) => Err(EngineError::SourceUnavailable(src)),
            None => Ok(()),
        }
    }

    fn check_review(&self, e: &EventEnvelope<Review>) -> (r: Result<(), EngineError>)
        ensures
            engine_reports(r, review_check(self@, e@)),
    {
        proof {
            use_type_invariant(self);
        }
        if let Err(err) = validate_review_event(e) {
            return Err(err);
        }
        let pi = match find_key(&self.proposals, e.payload.proposal_event_id.as_str()) {
            Some(i) => i,
            None => return Err(EngineError::ProposalNotFound(e.payload.proposal_event_id.clone())),
        };
        proof {
            lemma_lookup_at::<EventEnvelope<Proposal>>(self@.proposals, pi as int);
        }
        let p = &self.proposals[pi];
        let d = match digest_of_proposal(&p.payload) {
            Ok(d) => d,
            Err(err) => return Err(err),
        };
        if !same_text(d.as_str(), e.payload.proposal_digest.as_str()) {
            return Err(
                EngineError::ReferenceMismatch(
                    "review proposal digest does not match the referenced proposal".to_owned(),
                ),
            );
        }
        if !same_text(p.payload.policy_id.as_str(), e.payload.policy_id.as_str()) {
            return Err(
                EngineError::ReferenceMismatch(
                    "review policy does not match the proposal policy".to_owned(),
                ),
            );
        }
        proof {
            lemma_all_asserted_concat(
                e@.payload.accepted_claim_ids,
                e@.payload.rejected_claim_ids,
                p@.payload.claims,
            );
        }
        if !ids_asserted(&e.payload.accepted_claim_ids, &p.payload.claims) || !ids_asserted(
            &e.payload.rejected_claim_ids,
            &p.payload.claims,
        ) {
            return Err(
                EngineError::ReferenceMismatch(
                    "review references claims outside the proposal's asserted claim set".to_owned(),
                ),
            );
        }
        if e.payload.decision == ReviewDecision::Accept && !covers(
            &e.payload.accepted_claim_ids,
            &p.payload.claims,
        ) {
            return Err(
                EngineError::ReferenceMismatch(
                    "accept reviews must accept every asserted proposal claim".to_owned(),
                ),
            );
        }
        Ok(())
    }
}

impl Projection {
    fn check_supersedes(&self, ids: &Vec<String>, channel: &str) -> (r: Result<(), EngineError>)
        ensures
            engine_reports(r, supersede_fault(self@.records, views(ids@), channel@)),
    {
        let ghost v = views(ids@);
        let ghost rs = self@.records;
        let n = ids.len();
        let mut i: usize = 0;
        assert(v.skip(0) =~= v);
        while i < n
            invariant
                n == ids@.len(),
                v == views(ids@),
                rs == self@.records,
                i <= n,
                supersede_fault(rs, v, channel@) == supersede_fault(rs, v.skip(i as int), channel@),
            decreases n - i,
        {
            proof {
                assert(v.skip(i as int)[0] == ids@[i as int]@);
                assert(v.skip(i as int).drop_first() =~= v.skip(i + 1));
            }
            match find_record_id(&self.records, ids[i].as_str()) {
                None => return Err(EngineError::UnknownSupersededRecord(ids[i].clone())),
                Some(k) => {
                    if !same_text(self.records[k].payload.channel_id.as_str(), channel) {
                        return Err(
                            EngineError::ReferenceMismatch(
                                "a record may supersede records only in the same channel".to_owned(),
                            ),
                        );
                    }
                },
            }
            i += 1;
        }
        assert(v.skip(n as int) =~= Seq::<Seq<char>>::empty());
        Ok(())
    }

    fn check_record_links(&self, e: &EventEnvelope<MemoryRecord>) -> (r: Result<(), EngineError>)
        ensures
            engine_reports(r, record_links_check(self@, e@)),
    {
        let sources = e.payload.evidence_event_ids();
        if let Some(src) = first_deleted_in(&sources, &self.deleted_sources) {
            return Err(EngineError::SourceUnavailable(src));
        }
        if let Err(err) = self.check_supersedes(&e.payload.supersedes_record_ids, e.payload.channel_id.as_str()) {
            return Err(err);
        }
        let mut graph = self.supersession_graph();
        graph.insert(e.payload.record_id.clone(), copy_strings(&e.payload.supersedes_record_ids));
        if has_supersession_cycle(&graph) {
            return Err(EngineError::SupersessionCycle);
        }
        Ok(())
    }

    fn check_record_ratified(&self, e: &EventEnvelope<MemoryRecord>, p: &EventEnvelope<Proposal>) -> (r: Result<(), EngineError>)
        ensures
            engine_reports(r, record_ratified_check(self@, e@, p@)),
    {
        proof {
            use_type_invariant(self);
        }
        let ev = match self.ratification(e.payload.proposal_event_id.as_str()) {
            Ok(ev) => ev,
            Err(err) => return Err(err),
        };
        if ev.status != RatificationStatus::Ratified {
            return Err(EngineError::ProposalNotRatified(ev.status));
        }
        if !all_in_strs(&e.payload.review_event_ids, &ev.accepted_review_event_ids) {
            return Err(
                EngineError::ReferenceMismatch(
                    "record references a review that did not count toward ratification".to_owned(),
                ),
            );
        }
        let quorum = match find_key(&self.policies, p.payload.policy_id.as_str()) {
            Some(k) => {
                proof {
                    lemma_lookup_at::<RatificationPolicy>(self@.policies, k as int);
                }
                self.policies[k].approval_quorum
            },
            None => 0,
        };
        if e.payload.review_event_ids.len() < quorum {
            return Err(
                EngineError::ReferenceMismatch(
                    "record does not carry enough accepted review events for quorum".to_owned(),
                ),
            );
        }
        let record_ids = ids_of(&e.payload.claims);
        if !ids_asserted(&record_ids, &p.payload.claims) || !covers(&record_ids, &p.payload.claims) {
            return Err(
                EngineError::ReferenceMismatch(
                    "record claims must exactly equal the proposal's asserted claims".to_owned(),
                ),
            );
        }
        Ok(())
    }

    fn check_record(&self, e: &EventEnvelope<MemoryRecord>) -> (r: Result<(), EngineError>)
        ensures
            engine_reports(r, record_check(self@, e@)),
    {
        proof {
            use_type_invariant(self);
        }
        if let Err(err) = validate_record_event(e) {
            return Err(err);
        }
        let pi = match find_key(&self.proposals, e.payload.proposal_event_id.as_str()) {
            Some(i) => i,
            None => return Err(EngineError::ProposalNotFound(e.payload.proposal_event_id.clone())),
        };
        proof {
            lemma_lookup_at::<EventEnvelope<Proposal>>(self@.proposals, pi as int);
        }
        let p = &self.proposals[pi];
        let d = match digest_of_proposal(&p.payload) {
            Ok(d) => d,
            Err(err) => return Err(err),
        };
        if !same_text(d.as_str(), e.payload.proposal_digest.as_str()) {
            return Err(
                EngineError::ReferenceMismatch(
                    "record proposal digest does not match the referenced proposal".to_owned(),
                ),
            );
        }
        if !same_text(p.payload.channel_id.as_str(), e.payload.channel_id.as_str()) {
            return Err(EngineError::ReferenceMismatch("record and proposal channels must match".to_owned()));
        }
        if !same_text(p.author.as_str(), e.author.as_str()) {
            return Err(
                EngineError::ReferenceMismatch("record must be signed by the proposal author".to_owned()),
            );
        }
        if let Err(err) = self.check_record_ratified(e, p) {
            return Err(err);
        }
        self.check_record_links(e)
    }

    fn check_invalidation(&self, e: &EventEnvelope<Invalidation>) -> (r: Result<(), EngineError>)
        ensures
            engine_reports(r, invalidation_check(self@, e@)),
    {
        proof {
            use_type_invariant(self);
        }
        if let Err(err) = validate_invalidation_event(e) {
            return Err(err);
        }
        let ri = match find_key(&self.records, e.payload.target_record_event_id.as_str()) {
            Some(i) => i,
            None => return Err(EngineError::RecordNotFound(e.payload.target_record_event_id.clone())),
        };
        proof {
            lemma_lookup_at::<EventEnvelope<MemoryRecord>>(self@.records, ri as int);
        }
        let rec = &self.records[ri];
        if !same_text(rec.payload.record_id.as_str(), e.payload.target_record_id.as_str()) {
            return Err(
                EngineError::ReferenceMismatch("invalidation target record digest does not match".to_owned()),
            );
        }
        if !same_text(rec.author.as_str(), e.author.as_str()) {
            return Err(
                EngineError::ReferenceMismatch("invalidation must be signed by the record author".to_owned()),
            );
        }
        let record_ids = ids_of(&rec.payload.claims);
        if !all_in_strs(&e.payload.affected_claim_ids, &record_ids) {
            return Err(
                EngineError::ReferenceMismatch("invalidation references claims outside the record".to_owned()),
            );
        }
        let sources = rec.payload.evidence_event_ids();
        if !all_in_strs(&e.payload.source_event_ids, &sources) {
            return Err(
                EngineError::ReferenceMismatch("invalidation references sources outside the record".to_owned()),
            );
        }
        if e.payload.reason == InvalidationReason::SourceDeleted && !all_in_strs(
            &e.payload.source_event_ids,
            &self.deleted_sources,
        ) {
            return Err(
                EngineError::ReferenceMismatch(
                    "source-deleted invalidation requires observed source deletion".to_owned(),
                ),
            );
        }
        Ok(())
    }
}

impl Projection {
    /// Whether the record with event id `record_event_id` is available by
    /// itself: not invalidated and citing no deleted source.
    pub fn base_availability(&self, record_event_id: &str) -> (r: Option<bool>)
        ensures
            match lookup::<EventEnvelope<MemoryRecord>>(self@.records, record_event_id@) {
                None => r is None,
                Some(rec) => r == Some(base_available(self@, rec)),
            },
    {
        proof {
            use_type_invariant(self);
        }
        let i = match find_key(&self.records, record_event_id) {
            Some(i) => i,
            None => return None,
        };
        proof {
            lemma_lookup_at::<EventEnvelope<MemoryRecord>>(self@.records, i as int);
        }
        Some(self.available_at(i))
    }

    fn available_at(&self, i: usize) -> (r: bool)
        requires
            i < self@.records.len(),
        ensures
            r == base_available(self@, self@.records[i as int]),
    {
        let rec = &self.records[i];
        let invalidated = is_invalidated(&self.invalidations, rec.event_id.as_str());
        let sources = rec.payload.evidence_event_ids();
        let deleted = first_deleted_in(&sources, &self.deleted_sources).is_some();
        !invalidated && !deleted
    }

    fn is_superseded(&self, rec: &EventEnvelope<MemoryRecord>) -> (r: bool)
        ensures
            r == superseded(self@, rec@),
    {
        let n = self.records.len();
        let mut i: usize = 0;
        while i < n
            invariant
                n == self@.records.len(),
                i <= n,
                forall|k: int|
                    0 <= k < i ==> !((#[trigger] self@.records[k]).event_id != rec@.event_id
                        && base_available(self@, self@.records[k])
                        && self@.records[k].payload.supersedes_record_ids.contains(rec@.payload.record_id)),
            decreases n - i,
        {
            let other = &self.records[i];
            proof {
                assert(self@.records[i as int] == other@);
            }
            if !same_text(other.event_id.as_str(), rec.event_id.as_str()) && self.available_at(i)
                && contains_str(&other.payload.supersedes_record_ids, rec.payload.record_id.as_str()) {
                return true;
            }
            i += 1;
        }
        false
    }

    fn availability_at(&self, i: usize) -> (r: RecordAvailability)
        requires
            i < self@.records.len(),
        ensures
            r@ == availability(self@, self@.records[i as int]),
    {
        let rec = &self.records[i];
        proof {
            assert(self@.records[i as int] == rec@);
        }
        if is_invalidated(&self.invalidations, rec.event_id.as_str()) {
            return RecordAvailability::ExplicitlyInvalidated;
        }
        let sources = rec.payload.evidence_event_ids();
        let deleted = deleted_among(&sources, &self.deleted_sources);
        if deleted.len() > 0 {
            return RecordAvailability::SourceUnavailable(deleted);
        }
        if self.is_superseded(rec) {
            return RecordAvailability::Superseded;
        }
        RecordAvailability::Available
    }

    /// Whether the record with event id `record_event_id` can be relied on:
    /// explicitly invalidated, missing deleted sources, superseded by an
    /// available record, or available.
    pub fn record_availability(&self, record_event_id: &str) -> (r: Result<RecordAvailability, EngineError>)
        ensures
            match availability_of(self@, record_event_id@) {
                Ok(a) => r is Ok && r->Ok_0@ == a,
                Err(f) => r is Err && engine_fault(r->Err_0) == f,
            },
            projection_wf(self@),
    {
        proof {
            use_type_invariant(self);
        }
        let i = match find_key(&self.records, record_event_id) {
            Some(i) => i,
            None => return Err(EngineError::RecordNotFound(record_event_id.to_owned())),
        };
        proof {
            lemma_lookup_at::<EventEnvelope<MemoryRecord>>(self@.records, i as int);
        }
        Ok(self.availability_at(i))
    }

    /// The available records, in event id order.
    pub fn current_records(&self) -> (r: Vec<&EventEnvelope<MemoryRecord>>)
        ensures
            views(r@) == available_among(self@, self@.records),
            projection_wf(self@),
    {
        proof {
            use_type_invariant(self);
        }
        let ghost rs = self@.records;
        let mut out: Vec<&EventEnvelope<MemoryRecord>> = Vec::new();
        let n = self.records.len();
        let mut i: usize = 0;
        while i < n
            invariant
                n == self@.records.len(),
                rs == self@.records,
                i <= n,
                views(out@) == available_among(self@, rs.take(i as int)),
            decreases n - i,
        {
            proof {
                assert(rs.take(i + 1).drop_last() =~= rs.take(i as int));
                assert(rs.take(i + 1).last() == rs[i as int]);
            }
            let a = self.availability_at(i);
            if let RecordAvailability::Available = a {
                out.push(&self.records[i]);
                proof {
                    assert(views(out@) =~= available_among(self@, rs.take(i as int)).push(rs[i as int]));
                }
            }
            i += 1;
        }
        assert(rs.take(n as int) =~= rs);
        out
    }

    /// For each record that cites a deleted source and that no invalidation
    /// targets: the deleted sources and the claims that cite them.
    pub fn pending_invalidations(&self) -> (r: Vec<PendingInvalidation>)
        ensures
            views(r@) == pending_of(self@),
            projection_wf(self@),
    {
        proof {
            use_type_invariant(self);
        }
        let ghost rs = self@.records;
        let mut out: Vec<PendingInvalidation> = Vec::new();
        let n = self.records.len();
        let mut i: usize = 0;
        while i < n
            invariant
                n == self@.records.len(),
                rs == self@.records,
                i <= n,
                views(out@) == pending_list(rs.take(i as int), self@.invalidations, self@.deleted_sources),
            decreases n - i,
        {
            proof {
                assert(rs.take(i + 1).drop_last() =~= rs.take(i as int));
                assert(rs.take(i + 1).last() == rs[i as int]);
            }
            let rec = &self.records[i];
            proof {
                assert(rs[i as int] == rec@);
            }
            let sources = rec.payload.evidence_event_ids();
            let dels = deleted_among(&sources, &self.deleted_sources);
            if dels.len() > 0 && !is_invalidated(&self.invalidations, rec.event_id.as_str()) {
                let affected = affected_ids(&rec.payload.claims, &dels);
                out.push(
                    PendingInvalidation {
                        target_record_event_id: rec.event_id.clone(),
                        target_record_id: rec.payload.record_id.clone(),
                        affected_claim_ids: affected,
                        source_event_ids: dels,
                    },
                );
                proof {
                    assert(views(out@) =~= pending_list(rs.take(i as int), self@.invalidations, self@.deleted_sources).push(
                        PendingV {
                            target_record_event_id: rec@.event_id,
                            target_record_id: rec@.payload.record_id,
                            affected_claim_ids: affected_claims(rec@.payload.claims, keep_deleted(record_sources(rec@.payload), self@.deleted_sources)),
                            source_event_ids: keep_deleted(record_sources(rec@.payload), self@.deleted_sources),
                        },
                    ));
                }
            }
            i += 1;
        }
        assert(rs.take(n as int) =~= rs);
        out
    }
}

impl Projection {
    fn record_digest(&mut self, entry: EventDigest)
        ensures
            final(self)@ == (ProjectionV {
                event_digests: insert_by_key::<EventDigest>(old(self)@.event_digests, entry@),
                ..old(self)@
            }),
    {
        proof {
            use_type_invariant(&*self);
        }
        let ghost before = self@;
        proof {
            lemma_covered_grow::<EventEnvelope<Proposal>>(before.proposals, before.event_digests, entry@);
            lemma_covered_grow::<EventEnvelope<Review>>(before.reviews, before.event_digests, entry@);
            lemma_covered_grow::<EventEnvelope<MemoryRecord>>(before.records, before.event_digests, entry@);
            lemma_covered_grow::<EventEnvelope<Invalidation>>(before.invalidations, before.event_digests, entry@);
        }
        let mut proposals: Vec<EventEnvelope<Proposal>> = Vec::new();
        std::mem::swap(&mut proposals, &mut self.proposals);
        let mut reviews: Vec<EventEnvelope<Review>> = Vec::new();
        std::mem::swap(&mut reviews, &mut self.reviews);
        let mut records: Vec<EventEnvelope<MemoryRecord>> = Vec::new();
        std::mem::swap(&mut records, &mut self.records);
        let mut invalidations: Vec<EventEnvelope<Invalidation>> = Vec::new();
        std::mem::swap(&mut invalidations, &mut self.invalidations);
        let mut digests: Vec<EventDigest> = Vec::new();
        std::mem::swap(&mut digests, &mut self.event_digests);
        insert_keyed(&mut digests, entry);
        self.event_digests = digests;
        self.proposals = proposals;
        self.reviews = reviews;
        self.records = records;
        self.invalidations = invalidations;
    }

    fn check_event(&self, event: &EngineEvent) -> (r: Result<(), EngineError>)
        ensures
            match step(self@, event@) {
                Err(f) => r is Err && engine_fault(r->Err_0) == f,
                Ok(_) => r is Ok,
            },
    {
        reveal(step);
        match event {
            EngineEvent::Proposal(e) => self.check_proposal(e),
            EngineEvent::Review(e) => self.check_review(e),
            EngineEvent::Record(e) => self.check_record(e),
            EngineEvent::Invalidation(e) => self.check_invalidation(e),
            EngineEvent::SourceDeleted(d) => d.validate(),
        }
    }

    fn commit_event(&mut self, event: EngineEvent) -> (o: ApplyOutcome)
        requires
            step(old(self)@, event@) is Ok,
            has_key::<EventDigest>(old(self)@.event_digests, event_id_of(event@)),
        ensures
            final(self)@ == step(old(self)@, event@)->Ok_0.0,
            o@ == step(old(self)@, event@)->Ok_0.1,
    {
        reveal(step);
        proof {
            use_type_invariant(&*self);
        }
        let ghost digests = self@.event_digests;
        match event {
            EngineEvent::Proposal(e) => {
                proof {
                    lemma_covered_insert::<EventEnvelope<Proposal>>(self@.proposals, e@, digests);
                    crate::order::lemma_insert_props::<EventEnvelope<Proposal>>(self@.proposals, e@);
                }
                let mut v: Vec<EventEnvelope<Proposal>> = Vec::new();
                std::mem::swap(&mut v, &mut self.proposals);
                insert_keyed(&mut v, e);
                self.proposals = v;
                ApplyOutcome::Applied
            },
            EngineEvent::Review(e) => {
                proof {
                    lemma_covered_insert::<EventEnvelope<Review>>(self@.reviews, e@, digests);
                }
                let mut v: Vec<EventEnvelope<Review>> = Vec::new();
                std::mem::swap(&mut v, &mut self.reviews);
                insert_keyed(&mut v, e);
                self.reviews = v;
                ApplyOutcome::Applied
            },
            EngineEvent::Record(e) => {
                proof {
                    lemma_covered_insert::<EventEnvelope<MemoryRecord>>(self@.records, e@, digests);
                }
                let mut v: Vec<EventEnvelope<MemoryRecord>> = Vec::new();
                std::mem::swap(&mut v, &mut self.records);
                insert_keyed(&mut v, e);
                self.records = v;
                ApplyOutcome::Applied
            },
            EngineEvent::Invalidation(e) => {
                proof {
                    lemma_covered_insert::<EventEnvelope<Invalidation>>(self@.invalidations, e@, digests);
                }
                let mut v: Vec<EventEnvelope<Invalidation>> = Vec::new();
                std::mem::swap(&mut v, &mut self.invalidations);
                insert_keyed(&mut v, e);
                self.invalidations = v;
                ApplyOutcome::Applied
            },
            EngineEvent::SourceDeleted(d) => {
                let mut v: Vec<String> = Vec::new();
                std::mem::swap(&mut v, &mut self.deleted_sources);
                insert_keyed(&mut v, d.source_event_id);
                self.deleted_sources = v;
                ApplyOutcome::SourceDeleted { pending_invalidations: self.pending_invalidations() }
            },
        }
    }

    /// Fold one verified event into the projection. An event id seen before
    /// is a duplicate when the event's digest matches and a collision
    /// otherwise; an event that breaks a rule is refused and changes nothing.
    pub fn apply(&mut self, event: EngineEvent) -> (r: Result<ApplyOutcome, EngineError>)
        ensures
            match apply_result(old(self)@, event@) {
                Ok((s, o)) => r is Ok && r->Ok_0@ == o && final(self)@ == s,
                Err(f) => r is Err && engine_fault(r->Err_0) == f && final(self)@ == old(self)@,
            },
            projection_wf(final(self)@),
            stored_consistent(old(self)@) ==> stored_consistent(final(self)@),
    {
        proof {
            use_type_invariant(&*self);
            if apply_result(self@, event@) is Ok {
                crate::laws::law_apply_keeps_order(self@, event@);
                if stored_consistent(self@) {
                    crate::laws::law_apply_keeps_stored_consistent(self@, event@);
                }
            }
        }
        let event_id = event.event_id().to_owned();
        let digest = match event.digest() {
            Ok(d) => d,
            Err(err) => return Err(err),
        };
        if let Some(i) = find_key(&self.event_digests, event_id.as_str()) {
            proof {
                lemma_lookup_at::<EventDigest>(self@.event_digests, i as int);
            }
            if same_text(self.event_digests[i].digest.as_str(), digest.as_str()) {
                return Ok(ApplyOutcome::Duplicate);
            }
            return Err(EngineError::EventIdCollision(event_id));
        }
        if let Err(err) = self.check_event(&event) {
            return Err(err);
        }
        let ghost before = self@;
        let ghost entry = (event_id@, digest@);
        proof {
            lemma_insert_fresh::<EventDigest>(before.event_digests, entry);
        }
        self.record_digest(EventDigest { event_id, digest });
        proof {
            lemma_step_ignores_digests(before, self@.event_digests, event@);
        }
        let outcome = self.commit_event(event);
        Ok(outcome)
    }
}

/// What an event does does not depend on the digests recorded so far.
proof fn lemma_step_ignores_digests(s: ProjectionV, d: Seq<(Seq<char>, Seq<char>)>, e: EngineEventV)
    ensures
        step(ProjectionV { event_digests: d, ..s }, e) == match step(s, e) {
            Ok((s2, o)) => Ok::<(ProjectionV, OutcomeV), EngineFault>(
                (ProjectionV { event_digests: d, ..s2 }, o),
            ),
            Err(f) => Err(f),
        },
        step(s, e) is Ok ==> step(s, e)->Ok_0.0.event_digests == s.event_digests,
{
    reveal(step);
    let sd = ProjectionV { event_digests: d, ..s };
    match e {
        EngineEventV::Proposal(x) => {
            assert(proposal_check(sd, x) == proposal_check(s, x));
        },
        EngineEventV::Review(x) => {
            assert(review_check(sd, x) == review_check(s, x));
        },
        EngineEventV::Record(x) => {
            assert(ratification_of(sd, x.payload.proposal_event_id) == ratification_of(s, x.payload.proposal_event_id));
            assert(quorum_of(sd, x.payload.proposal_event_id) == quorum_of(s, x.payload.proposal_event_id));
            assert(record_check(sd, x) == record_check(s, x));
        },
        EngineEventV::Invalidation(x) => {
            assert(invalidation_check(sd, x) == invalidation_check(s, x));
        },
        EngineEventV::SourceDeleted(dl) => {
            let s2 = ProjectionV {
                deleted_sources: insert_by_key::<String>(s.deleted_sources, dl.source_event_id),
                ..s
            };
            let sd2 = ProjectionV { event_digests: d, ..s2 };
            assert(pending_of(sd2) == pending_of(s2));
        },
    }
}

proof fn lemma_policies_stop(all: Seq<PolicyV>, k: int)
    requires
        0 < k <= all.len(),
        policies_result(all.take(k)) is Err,
    ensures
        policies_result(all) == policies_result(all.take(k)),
    decreases all.len() - k,
{
    if k < all.len() {
        assert(all.take(k + 1).drop_last() =~= all.take(k));
        lemma_policies_stop(all, k + 1);
    } else {
        assert(all.take(k) =~= all);
    }
}

} // verus!
