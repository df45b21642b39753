use comb::claim::{Claim, ClaimState};
use comb::coverage::{CoverageLane, CoverageRecord, CoverageStatus, TemporalWindow};
use comb::envelope::{EngineError, EngineEvent, EventEnvelope, SourceDeletion};
use comb::evidence::{EvidenceLocator, EvidenceRef, EvidenceRole};
use comb::graph::{has_supersession_cycle, SupersessionGraph};
use comb::invalidation::{Invalidation, InvalidationReason};
use comb::projection::{ApplyOutcome, Projection, RecordAvailability};
use comb::proposal::{GeneratorInfo, Proposal};
use comb::ratify::{RatificationPolicy, RatificationStatus};
use comb::record::MemoryRecord;
use comb::review::{Review, ReviewDecision};
use comb::snapshot::{
    RetrievalSnapshot, INVALIDATION_SCHEMA_V1, PROPOSAL_SCHEMA_V1, RECORD_SCHEMA_V1,
    REVIEW_SCHEMA_V1, SNAPSHOT_SCHEMA_V1,
};

const CHANNEL: &str = "channel-a";

fn id(byte: u8) -> String {
    hex::encode([byte; 32])
}

fn evidence(source: u8) -> EvidenceRef {
    EvidenceRef {
        relay: "wss://buzz.example".into(),
        community: "buzz.example".into(),
        channel_id: CHANNEL.into(),
        event_id: id(source),
        kind: 9,
        author: id(0xa0),
        created_at: 100,
        role: EvidenceRole::Supports,
        content_digest: id(source.wrapping_add(1)),
        locator: EvidenceLocator::WholeEvent,
    }
}

fn claim(source: u8, text: &str) -> Claim {
    Claim {
        claim_id: String::new(),
        text: text.into(),
        state: ClaimState::Asserted,
        valid_from: 100,
        valid_until: None,
        evidence: vec![evidence(source)],
        counterevidence: vec![],
        supersedes: vec![],
    }
    .seal()
    .unwrap()
}

fn proposal(claims: Vec<Claim>) -> Proposal {
    let mut source_event_ids: Vec<String> = claims
        .iter()
        .flat_map(|claim| claim.all_evidence())
        .map(|evidence| evidence.event_id.clone())
        .collect();
    source_event_ids.sort();
    source_event_ids.dedup();
    let count = source_event_ids.len() as u64;
    let mut coverage = CoverageRecord {
        status: CoverageStatus::Complete,
        requested_window: TemporalWindow { since: 10, until: 20 },
        capture_started_at: 21,
        capture_completed_at: 22,
        lanes: vec![CoverageLane {
            channel_id: CHANNEL.into(),
            kinds: vec![9],
            count_before: count,
            retrieved: count,
            count_after: count,
            signature_failures: 0,
            unresolved_sources: 0,
        }],
        gaps: vec![],
    };
    coverage.normalize();
    let snapshot = RetrievalSnapshot {
        schema: SNAPSHOT_SCHEMA_V1.into(),
        snapshot_id: String::new(),
        community: "buzz.example".into(),
        channel_id: CHANNEL.into(),
        source_event_ids,
        coverage,
    }
    .seal()
    .unwrap();
    Proposal {
        schema: PROPOSAL_SCHEMA_V1.into(),
        proposal_id: String::new(),
        channel_id: CHANNEL.into(),
        created_at: 200,
        generator: GeneratorInfo {
            name: "fixture".into(),
            version: "1".into(),
            model: None,
            prompt_version: None,
        },
        policy_id: "default".into(),
        snapshot,
        claims,
    }
    .seal()
    .unwrap()
}

fn policy(ratifiers: &[u8], quorum: usize) -> RatificationPolicy {
    RatificationPolicy {
        policy_id: "default".into(),
        ratifiers: ratifiers.iter().map(|byte| id(*byte)).collect(),
        approval_quorum: quorum,
        rejection_threshold: 1,
    }
}

fn proposal_event(proposal: Proposal) -> EventEnvelope<Proposal> {
    EventEnvelope {
        event_id: id(0x10),
        author: id(0xc0),
        created_at: 200,
        payload: proposal,
    }
}

fn review_event(
    event_byte: u8,
    signer: u8,
    proposal_event: &EventEnvelope<Proposal>,
    decision: ReviewDecision,
) -> EventEnvelope<Review> {
    let claim_ids: Vec<String> = proposal_event
        .payload
        .claims
        .iter()
        .filter(|claim| claim.state == ClaimState::Asserted)
        .map(|claim| claim.claim_id.clone())
        .collect();
    let (accepted, rejected) = match decision {
        ReviewDecision::Accept => (claim_ids, vec![]),
        ReviewDecision::Reject => (vec![], claim_ids),
        ReviewDecision::Revise => (vec![], vec![]),
    };
    EventEnvelope {
        event_id: id(event_byte),
        author: id(signer),
        created_at: 210,
        payload: Review {
            schema: REVIEW_SCHEMA_V1.into(),
            review_id: String::new(),
            proposal_event_id: proposal_event.event_id.clone(),
            proposal_digest: proposal_event.payload.digest().unwrap(),
            decision,
            accepted_claim_ids: accepted,
            rejected_claim_ids: rejected,
            policy_id: "default".into(),
        }
        .seal()
        .unwrap(),
    }
}

fn record_event(
    event_byte: u8,
    proposal: &EventEnvelope<Proposal>,
    reviews: &[&EventEnvelope<Review>],
    supersedes: Vec<String>,
) -> EventEnvelope<MemoryRecord> {
    EventEnvelope {
        event_id: id(event_byte),
        author: proposal.author.clone(),
        created_at: 220,
        payload: MemoryRecord {
            schema: RECORD_SCHEMA_V1.into(),
            record_id: String::new(),
            channel_id: proposal.payload.channel_id.clone(),
            created_at: 220,
            proposal_event_id: proposal.event_id.clone(),
            proposal_digest: proposal.payload.digest().unwrap(),
            review_event_ids: reviews.iter().map(|review| review.event_id.clone()).collect(),
            claims: proposal
                .payload
                .claims
                .iter()
                .filter(|claim| claim.state == ClaimState::Asserted)
                .cloned()
                .collect(),
            supersedes_record_ids: supersedes,
        }
        .seal()
        .unwrap(),
    }
}

fn deletion(event_byte: u8, source: u8, observed_at: i64) -> SourceDeletion {
    SourceDeletion {
        deletion_event_id: id(event_byte),
        source_event_id: id(source),
        author: id(0xa0),
        observed_at,
    }
}

#[test]
fn quorum_ratifies_and_unauthorized_reviews_are_visible_but_ignored() {
    let proposal = proposal_event(proposal(vec![claim(1, "Delay launch")]));
    let review_a = review_event(0x20, 0x41, &proposal, ReviewDecision::Accept);
    let review_b = review_event(0x21, 0x42, &proposal, ReviewDecision::Accept);
    let outsider = review_event(0x22, 0x99, &proposal, ReviewDecision::Reject);
    let mut projection = Projection::new(vec![policy(&[0x41, 0x42], 2)]).unwrap();
    projection.apply(EngineEvent::Proposal(proposal.clone())).unwrap();
    projection.apply(EngineEvent::Review(review_a.clone())).unwrap();
    projection.apply(EngineEvent::Review(review_b.clone())).unwrap();
    projection.apply(EngineEvent::Review(outsider.clone())).unwrap();

    let evaluation = projection.ratification(&proposal.event_id).unwrap();
    assert_eq!(evaluation.status, RatificationStatus::Ratified);
    assert_eq!(evaluation.accepted_review_event_ids.len(), 2);
    assert_eq!(evaluation.unauthorized_review_event_ids, vec![outsider.event_id]);
}

#[test]
fn accept_and_reject_make_proposal_contested_without_ordering() {
    let proposal = proposal_event(proposal(vec![claim(1, "Delay launch")]));
    let accept = review_event(0x20, 0x41, &proposal, ReviewDecision::Accept);
    let reject = review_event(0x21, 0x42, &proposal, ReviewDecision::Reject);
    let mut projection = Projection::new(vec![policy(&[0x41, 0x42], 1)]).unwrap();
    projection.apply(EngineEvent::Proposal(proposal.clone())).unwrap();
    projection.apply(EngineEvent::Review(reject)).unwrap();
    projection.apply(EngineEvent::Review(accept)).unwrap();
    assert_eq!(
        projection.ratification(&proposal.event_id).unwrap().status,
        RatificationStatus::Contested
    );
}

#[test]
fn one_reviewer_cannot_submit_conflicting_decisions() {
    let proposal = proposal_event(proposal(vec![claim(1, "Delay launch")]));
    let accept = review_event(0x20, 0x41, &proposal, ReviewDecision::Accept);
    let reject = review_event(0x21, 0x41, &proposal, ReviewDecision::Reject);
    let mut projection = Projection::new(vec![policy(&[0x41], 1)]).unwrap();
    projection.apply(EngineEvent::Proposal(proposal.clone())).unwrap();
    projection.apply(EngineEvent::Review(accept)).unwrap();
    projection.apply(EngineEvent::Review(reject)).unwrap();
    let evaluation = projection.ratification(&proposal.event_id).unwrap();
    assert_eq!(evaluation.status, RatificationStatus::Contested);
    assert_eq!(evaluation.conflicting_reviewers, vec![id(0x41)]);
}

#[test]
fn record_requires_ratification_and_exact_claim_set() {
    let proposal = proposal_event(proposal(vec![claim(1, "Delay launch")]));
    let review = review_event(0x20, 0x41, &proposal, ReviewDecision::Accept);
    let record = record_event(0x30, &proposal, &[&review], vec![]);
    let mut projection = Projection::new(vec![policy(&[0x41], 1)]).unwrap();
    projection.apply(EngineEvent::Proposal(proposal.clone())).unwrap();
    assert!(matches!(
        projection.apply(EngineEvent::Record(record.clone())),
        Err(EngineError::ProposalNotRatified(RatificationStatus::Pending))
    ));
    projection.apply(EngineEvent::Review(review.clone())).unwrap();
    projection.apply(EngineEvent::Record(record)).unwrap();
    assert_eq!(projection.current_records().len(), 1);
}

#[test]
fn review_with_wrong_proposal_digest_is_rejected() {
    let proposal = proposal_event(proposal(vec![claim(1, "Delay launch")]));
    let mut review = review_event(0x20, 0x41, &proposal, ReviewDecision::Accept);
    review.payload.proposal_digest = id(0xee);
    review.payload.review_id = String::new();
    review.payload = review.payload.seal().unwrap();
    let mut projection = Projection::new(vec![policy(&[0x41], 1)]).unwrap();
    projection.apply(EngineEvent::Proposal(proposal.clone())).unwrap();
    assert!(matches!(
        projection.apply(EngineEvent::Review(review)),
        Err(EngineError::ReferenceMismatch(_))
    ));
}

#[test]
fn deletion_observed_before_proposal_prevents_publication() {
    let proposal = proposal_event(proposal(vec![claim(1, "Delay launch")]));
    let mut projection = Projection::new(vec![policy(&[0x41], 1)]).unwrap();
    projection.apply(EngineEvent::SourceDeleted(deletion(0x40, 1, 199))).unwrap();
    assert!(matches!(
        projection.apply(EngineEvent::Proposal(proposal)),
        Err(EngineError::SourceUnavailable(_))
    ));
}

#[test]
fn source_deletion_fails_closed_and_yields_pending_invalidation() {
    let proposal = proposal_event(proposal(vec![claim(1, "Delay launch")]));
    let review = review_event(0x20, 0x41, &proposal, ReviewDecision::Accept);
    let record = record_event(0x30, &proposal, &[&review], vec![]);
    let mut projection = Projection::new(vec![policy(&[0x41], 1)]).unwrap();
    projection.apply(EngineEvent::Proposal(proposal.clone())).unwrap();
    projection.apply(EngineEvent::Review(review.clone())).unwrap();
    projection.apply(EngineEvent::Record(record.clone())).unwrap();

    let outcome = projection.apply(EngineEvent::SourceDeleted(deletion(0x40, 1, 230))).unwrap();
    let ApplyOutcome::SourceDeleted { pending_invalidations } = outcome else {
        panic!("expected deletion outcome");
    };
    assert_eq!(pending_invalidations.len(), 1);
    assert_eq!(pending_invalidations[0].target_record_event_id, record.event_id);
    assert_eq!(
        projection.record_availability(&record.event_id).unwrap(),
        RecordAvailability::SourceUnavailable(vec![id(1)])
    );
    assert_eq!(
        projection.ratification(&proposal.event_id).unwrap().status,
        RatificationStatus::Unavailable
    );
    assert!(projection.current_records().is_empty());
}

#[test]
fn explicit_invalidation_must_be_record_author_and_source_bound() {
    let proposal = proposal_event(proposal(vec![claim(1, "Delay launch")]));
    let review = review_event(0x20, 0x41, &proposal, ReviewDecision::Accept);
    let record = record_event(0x30, &proposal, &[&review], vec![]);
    let mut projection = Projection::new(vec![policy(&[0x41], 1)]).unwrap();
    projection.apply(EngineEvent::Proposal(proposal.clone())).unwrap();
    projection.apply(EngineEvent::Review(review.clone())).unwrap();
    projection.apply(EngineEvent::Record(record.clone())).unwrap();
    projection.apply(EngineEvent::SourceDeleted(deletion(0x40, 1, 230))).unwrap();
    let invalidation = Invalidation {
        schema: INVALIDATION_SCHEMA_V1.into(),
        invalidation_id: String::new(),
        target_record_event_id: record.event_id.clone(),
        target_record_id: record.payload.record_id.clone(),
        affected_claim_ids: vec![record.payload.claims[0].claim_id.clone()],
        source_event_ids: vec![id(1)],
        reason: InvalidationReason::SourceDeleted,
        detected_at: 231,
    }
    .seal()
    .unwrap();
    let envelope = EventEnvelope {
        event_id: id(0x41),
        author: proposal.author.clone(),
        created_at: 231,
        payload: invalidation,
    };
    projection.apply(EngineEvent::Invalidation(envelope)).unwrap();
    assert_eq!(
        projection.record_availability(&record.event_id).unwrap(),
        RecordAvailability::ExplicitlyInvalidated
    );
    assert!(projection.pending_invalidations().is_empty());
}

#[test]
fn supersession_hides_old_record_but_invalid_new_record_restores_it() {
    let proposal_a = proposal_event(proposal(vec![claim(1, "Launch Friday")]));
    let review_a = review_event(0x20, 0x41, &proposal_a, ReviewDecision::Accept);
    let record_a = record_event(0x30, &proposal_a, &[&review_a], vec![]);
    let mut proposal_b = proposal_event(proposal(vec![claim(2, "Delay launch")]));
    proposal_b.event_id = id(0x11);
    let review_b = review_event(0x21, 0x41, &proposal_b, ReviewDecision::Accept);
    let record_b = record_event(
        0x31,
        &proposal_b,
        &[&review_b],
        vec![record_a.payload.record_id.clone()],
    );
    let mut projection = Projection::new(vec![policy(&[0x41], 1)]).unwrap();
    for event in [
        EngineEvent::Proposal(proposal_a.clone()),
        EngineEvent::Review(review_a),
        EngineEvent::Record(record_a.clone()),
        EngineEvent::Proposal(proposal_b.clone()),
        EngineEvent::Review(review_b),
        EngineEvent::Record(record_b.clone()),
    ] {
        projection.apply(event).unwrap();
    }
    assert_eq!(
        projection.record_availability(&record_a.event_id).unwrap(),
        RecordAvailability::Superseded
    );
    projection.apply(EngineEvent::SourceDeleted(deletion(0x42, 2, 240))).unwrap();
    assert_eq!(
        projection.record_availability(&record_a.event_id).unwrap(),
        RecordAvailability::Available
    );
}

#[test]
fn unknown_superseded_record_is_rejected_and_graph_cycle_guard_is_active() {
    let proposal = proposal_event(proposal(vec![claim(1, "Delay launch")]));
    let review = review_event(0x20, 0x41, &proposal, ReviewDecision::Accept);
    let record = record_event(0x30, &proposal, &[&review], vec![id(0xfe)]);
    let mut projection = Projection::new(vec![policy(&[0x41], 1)]).unwrap();
    projection.apply(EngineEvent::Proposal(proposal.clone())).unwrap();
    projection.apply(EngineEvent::Review(review)).unwrap();
    assert!(matches!(
        projection.apply(EngineEvent::Record(record)),
        Err(EngineError::UnknownSupersededRecord(_))
    ));

    let mut graph = SupersessionGraph::new();
    graph.insert(id(1), vec![id(2)]);
    graph.insert(id(2), vec![id(1)]);
    assert!(has_supersession_cycle(&graph));
}

#[test]
fn apply_is_idempotent_and_detects_event_id_collision() {
    let proposal = proposal_event(proposal(vec![claim(1, "Delay launch")]));
    let mut projection = Projection::new(vec![policy(&[0x41], 1)]).unwrap();
    assert_eq!(
        projection.apply(EngineEvent::Proposal(proposal.clone())).unwrap(),
        ApplyOutcome::Applied
    );
    assert_eq!(
        projection.apply(EngineEvent::Proposal(proposal.clone())).unwrap(),
        ApplyOutcome::Duplicate
    );
    let mut changed = proposal;
    changed.created_at += 1;
    assert!(matches!(
        projection.apply(EngineEvent::Proposal(changed)),
        Err(EngineError::EventIdCollision(_))
    ));
}

fn ratified_projection() -> (
    Projection,
    EventEnvelope<Proposal>,
    EventEnvelope<Review>,
    EventEnvelope<MemoryRecord>,
) {
    let proposal = proposal_event(proposal(vec![claim(1, "Delay launch")]));
    let review = review_event(0x20, 0x41, &proposal, ReviewDecision::Accept);
    let record = record_event(0x30, &proposal, &[&review], vec![]);
    let mut projection = Projection::new(vec![policy(&[0x41], 1)]).unwrap();
    projection.apply(EngineEvent::Proposal(proposal.clone())).unwrap();
    projection.apply(EngineEvent::Review(review.clone())).unwrap();
    projection.apply(EngineEvent::Record(record.clone())).unwrap();
    (projection, proposal, review, record)
}

#[test]
fn reviews_in_either_order_give_the_same_evaluation() {
    let proposal = proposal_event(proposal(vec![claim(1, "Delay launch")]));
    let accept = review_event(0x20, 0x41, &proposal, ReviewDecision::Accept);
    let reject = review_event(0x21, 0x42, &proposal, ReviewDecision::Reject);
    let mut first = Projection::new(vec![policy(&[0x41, 0x42], 1)]).unwrap();
    let mut second = Projection::new(vec![policy(&[0x41, 0x42], 1)]).unwrap();
    first.apply(EngineEvent::Proposal(proposal.clone())).unwrap();
    second.apply(EngineEvent::Proposal(proposal.clone())).unwrap();
    first.apply(EngineEvent::Review(accept.clone())).unwrap();
    first.apply(EngineEvent::Review(reject.clone())).unwrap();
    second.apply(EngineEvent::Review(reject)).unwrap();
    second.apply(EngineEvent::Review(accept)).unwrap();
    let a = first.ratification(&proposal.event_id).unwrap();
    let b = second.ratification(&proposal.event_id).unwrap();
    assert_eq!(a, b);
    assert_eq!(a.status, RatificationStatus::Contested);
    assert_eq!(a.accepted_review_event_ids, vec![id(0x20)]);
    assert_eq!(a.rejected_review_event_ids, vec![id(0x21)]);
}

#[test]
fn repeated_reviews_by_one_ratifier_count_once() {
    let proposal = proposal_event(proposal(vec![claim(1, "Delay launch")]));
    let first = review_event(0x22, 0x41, &proposal, ReviewDecision::Accept);
    let second = review_event(0x21, 0x41, &proposal, ReviewDecision::Accept);
    let mut projection = Projection::new(vec![policy(&[0x41, 0x42], 2)]).unwrap();
    projection.apply(EngineEvent::Proposal(proposal.clone())).unwrap();
    projection.apply(EngineEvent::Review(first)).unwrap();
    projection.apply(EngineEvent::Review(second)).unwrap();
    let evaluation = projection.ratification(&proposal.event_id).unwrap();
    assert_eq!(evaluation.accepted_review_event_ids, vec![id(0x21)]);
    assert_eq!(evaluation.status, RatificationStatus::Pending);
}

#[test]
fn revise_and_reject_thresholds() {
    let other = proposal_event(proposal(vec![claim(3, "Ship now")]));
    let proposal = proposal_event(proposal(vec![claim(1, "Delay launch")]));
    let revise = review_event(0x20, 0x41, &proposal, ReviewDecision::Revise);
    let mut projection = Projection::new(vec![policy(&[0x41, 0x42], 2)]).unwrap();
    projection.apply(EngineEvent::Proposal(proposal.clone())).unwrap();
    assert_eq!(
        projection.ratification(&proposal.event_id).unwrap().status,
        RatificationStatus::Pending
    );
    projection.apply(EngineEvent::Review(revise)).unwrap();
    assert_eq!(
        projection.ratification(&proposal.event_id).unwrap().status,
        RatificationStatus::RevisionRequested
    );

    let mut rejecting = Projection::new(vec![policy(&[0x41, 0x42], 2)]).unwrap();
    rejecting.apply(EngineEvent::Proposal(other.clone())).unwrap();
    rejecting.apply(EngineEvent::Review(review_event(0x20, 0x42, &other, ReviewDecision::Reject))).unwrap();
    assert_eq!(
        rejecting.ratification(&other.event_id).unwrap().status,
        RatificationStatus::Rejected
    );
}

#[test]
fn unknown_references_are_reported() {
    let mut projection = Projection::new(vec![policy(&[0x41], 1)]).unwrap();
    assert!(matches!(
        projection.ratification(&id(0x77)),
        Err(EngineError::ProposalNotFound(missing)) if missing == id(0x77)
    ));
    assert!(matches!(
        projection.record_availability(&id(0x78)),
        Err(EngineError::RecordNotFound(missing)) if missing == id(0x78)
    ));
    assert_eq!(projection.base_availability(&id(0x78)), None);
    let proposal = proposal_event(proposal(vec![claim(1, "Delay launch")]));
    let review = review_event(0x20, 0x41, &proposal, ReviewDecision::Accept);
    assert!(matches!(
        projection.apply(EngineEvent::Review(review)),
        Err(EngineError::ProposalNotFound(_))
    ));
    let mut other_policy = proposal.clone();
    other_policy.payload.policy_id = "other".into();
    other_policy.payload.proposal_id = String::new();
    other_policy.payload = other_policy.payload.seal().unwrap();
    assert!(matches!(
        projection.apply(EngineEvent::Proposal(other_policy)),
        Err(EngineError::UnknownPolicy(name)) if name == "other"
    ));
}

#[test]
fn malformed_envelopes_and_payloads_are_refused() {
    let mut projection = Projection::new(vec![policy(&[0x41], 1)]).unwrap();
    let mut bad_id = proposal_event(proposal(vec![claim(1, "Delay launch")]));
    bad_id.event_id = "xyz".into();
    let error = projection.apply(EngineEvent::Proposal(bad_id)).unwrap_err();
    assert_eq!(
        error,
        EngineError::InvalidEnvelope(
            "eventId must be 32 bytes encoded as 64 hexadecimal characters".into()
        )
    );
    let mut tampered = proposal_event(proposal(vec![claim(1, "Delay launch")]));
    tampered.payload.channel_id = "channel-b".into();
    assert!(matches!(
        projection.apply(EngineEvent::Proposal(tampered)),
        Err(EngineError::Core(_))
    ));
    assert!(projection.proposal(&id(0x10)).is_none());
}

#[test]
fn policies_are_validated_and_immutable() {
    let mut projection = Projection::new(vec![policy(&[0x41], 1)]).unwrap();
    assert!(projection.add_policy(policy(&[0x41, 0x41], 1)).is_ok());
    assert_eq!(
        projection.add_policy(policy(&[0x41, 0x42], 1)).unwrap_err(),
        EngineError::InvalidEnvelope("policy default is immutable".into())
    );
    let mut blank = policy(&[0x41], 1);
    blank.policy_id = " ".into();
    assert_eq!(
        blank.validate().unwrap_err(),
        EngineError::InvalidEnvelope("policyId must not be empty".into())
    );
    assert_eq!(
        policy(&[], 1).validate().unwrap_err(),
        EngineError::InvalidEnvelope("ratifiers must not be empty".into())
    );
    assert_eq!(
        policy(&[0x41, 0x41], 2).validate().unwrap_err(),
        EngineError::InvalidEnvelope("approvalQuorum must be between one and the ratifier count".into())
    );
    let mut threshold = policy(&[0x41], 1);
    threshold.rejection_threshold = 0;
    assert_eq!(
        threshold.validate().unwrap_err(),
        EngineError::InvalidEnvelope(
            "rejectionThreshold must be between one and the ratifier count".into()
        )
    );
    let mut key = policy(&[0x41], 1);
    key.ratifiers.push("nope".into());
    assert_eq!(
        key.validate().unwrap_err(),
        EngineError::InvalidEnvelope(
            "ratifier must be 32 bytes encoded as 64 hexadecimal characters".into()
        )
    );
    assert!(Projection::new(vec![policy(&[0x41], 1), policy(&[0x42], 1)]).is_err());
}

#[test]
fn stored_events_can_be_read_back() {
    let (projection, proposal, review, record) = ratified_projection();
    assert_eq!(projection.proposal(&proposal.event_id), Some(&proposal));
    assert_eq!(projection.review(&review.event_id), Some(&review));
    assert_eq!(projection.record(&record.event_id), Some(&record));
    assert_eq!(projection.base_availability(&record.event_id), Some(true));
    let graph = projection.supersession_graph();
    assert_eq!(graph.len(), 1);
    assert_eq!(graph.targets(&record.payload.record_id), Some(vec![]));
}

#[test]
fn pending_invalidation_names_claims_and_sources() {
    let (mut projection, _, _, record) = ratified_projection();
    projection.apply(EngineEvent::SourceDeleted(deletion(0x40, 1, 230))).unwrap();
    let pending = projection.pending_invalidations();
    assert_eq!(pending.len(), 1);
    assert_eq!(pending[0].target_record_id, record.payload.record_id);
    assert_eq!(pending[0].affected_claim_ids, vec![record.payload.claims[0].claim_id.clone()]);
    assert_eq!(pending[0].source_event_ids, vec![id(1)]);
    assert_eq!(projection.base_availability(&record.event_id), Some(false));
}

#[test]
fn invalidation_outside_the_record_is_refused() {
    let (mut projection, proposal, _, record) = ratified_projection();
    let invalidation = Invalidation {
        schema: INVALIDATION_SCHEMA_V1.into(),
        invalidation_id: String::new(),
        target_record_event_id: record.event_id.clone(),
        target_record_id: record.payload.record_id.clone(),
        affected_claim_ids: vec![record.payload.claims[0].claim_id.clone()],
        source_event_ids: vec![id(1)],
        reason: InvalidationReason::SourceDeleted,
        detected_at: 231,
    }
    .seal()
    .unwrap();
    let envelope = EventEnvelope {
        event_id: id(0x41),
        author: proposal.author.clone(),
        created_at: 231,
        payload: invalidation.clone(),
    };
    assert_eq!(
        projection.apply(EngineEvent::Invalidation(envelope)).unwrap_err(),
        EngineError::ReferenceMismatch(
            "source-deleted invalidation requires observed source deletion".into()
        )
    );
    let stranger = EventEnvelope {
        event_id: id(0x42),
        author: id(0x99),
        created_at: 231,
        payload: invalidation,
    };
    assert_eq!(
        projection.apply(EngineEvent::Invalidation(stranger)).unwrap_err(),
        EngineError::ReferenceMismatch("invalidation must be signed by the record author".into())
    );
}

#[test]
fn record_with_too_few_reviews_is_refused() {
    let proposal = proposal_event(proposal(vec![claim(1, "Delay launch")]));
    let review_a = review_event(0x20, 0x41, &proposal, ReviewDecision::Accept);
    let review_b = review_event(0x21, 0x42, &proposal, ReviewDecision::Accept);
    let record = record_event(0x30, &proposal, &[&review_a], vec![]);
    let mut projection = Projection::new(vec![policy(&[0x41, 0x42], 2)]).unwrap();
    projection.apply(EngineEvent::Proposal(proposal.clone())).unwrap();
    projection.apply(EngineEvent::Review(review_a)).unwrap();
    projection.apply(EngineEvent::Review(review_b)).unwrap();
    assert_eq!(
        projection.apply(EngineEvent::Record(record)).unwrap_err(),
        EngineError::ReferenceMismatch(
            "record does not carry enough accepted review events for quorum".into()
        )
    );
}

#[test]
fn engine_errors_read_as_text() {
    assert_eq!(EngineError::SupersessionCycle.message(), "record supersession cycle detected");
    assert_eq!(
        EngineError::ProposalNotRatified(RatificationStatus::Pending).message(),
        "proposal is not ratified: Pending"
    );
    assert_eq!(
        EngineError::EventIdCollision("x".into()).message(),
        "event id collision for x"
    );
}

#[test]
fn sealing_a_sealed_artifact_gives_it_back_unchanged() {
    let sealed_claim = claim(0x20, "Delay launch");
    assert_eq!(sealed_claim.clone().seal().unwrap(), sealed_claim);

    let sealed_proposal = proposal(vec![claim(0x20, "Delay launch")]);
    assert_eq!(sealed_proposal.clone().seal().unwrap(), sealed_proposal);
    assert_eq!(
        sealed_proposal.snapshot.clone().seal().unwrap(),
        sealed_proposal.snapshot
    );

    let proposal_event = proposal_event(sealed_proposal);
    let review = review_event(0x30, 0xb1, &proposal_event, ReviewDecision::Accept);
    assert_eq!(review.payload.clone().seal().unwrap(), review.payload);

    let record = record_event(0x40, &proposal_event, &[&review], vec![]);
    assert_eq!(record.payload.clone().seal().unwrap(), record.payload);

    let invalidation = Invalidation {
        schema: INVALIDATION_SCHEMA_V1.into(),
        invalidation_id: String::new(),
        target_record_event_id: record.event_id.clone(),
        target_record_id: record.payload.record_id.clone(),
        affected_claim_ids: vec![record.payload.claims[0].claim_id.clone()],
        source_event_ids: vec![id(0x20)],
        reason: InvalidationReason::SourceDeleted,
        detected_at: 230,
    }
    .seal()
    .unwrap();
    assert_eq!(invalidation.clone().seal().unwrap(), invalidation);
}

#[test]
fn events_in_any_order_that_all_apply_give_the_same_projection() {
    let proposal = proposal_event(proposal(vec![claim(1, "Delay launch")]));
    let accept = review_event(0x20, 0x41, &proposal, ReviewDecision::Accept);
    let second_accept = review_event(0x21, 0x42, &proposal, ReviewDecision::Accept);
    let unrelated = deletion(0x50, 0x77, 215);
    let events = vec![
        EngineEvent::Proposal(proposal.clone()),
        EngineEvent::Review(accept.clone()),
        EngineEvent::Review(second_accept.clone()),
        EngineEvent::SourceDeleted(unrelated.clone()),
    ];
    let reordered = vec![
        EngineEvent::SourceDeleted(unrelated),
        EngineEvent::Proposal(proposal.clone()),
        EngineEvent::Review(second_accept),
        EngineEvent::Review(accept),
    ];
    let mut first = Projection::new(vec![policy(&[0x41, 0x42], 2)]).unwrap();
    let mut second = Projection::new(vec![policy(&[0x41, 0x42], 2)]).unwrap();
    for event in events {
        first.apply(event).unwrap();
    }
    for event in reordered {
        second.apply(event).unwrap();
    }
    let a = first.ratification(&proposal.event_id).unwrap();
    assert_eq!(a, second.ratification(&proposal.event_id).unwrap());
    assert_eq!(a.status, RatificationStatus::Ratified);
    assert_eq!(a.accepted_review_event_ids, vec![id(0x20), id(0x21)]);
}

#[test]
fn stored_events_persist_and_the_graph_stays_acyclic() {
    let (mut projection, proposal, review, record) = ratified_projection();
    let later = record_event(0x31, &proposal, &[&review], vec![record.payload.record_id.clone()]);
    assert_eq!(
        projection.apply(EngineEvent::Record(later.clone())).unwrap(),
        ApplyOutcome::Applied
    );
    projection
        .apply(EngineEvent::SourceDeleted(deletion(0x60, 0x99, 230)))
        .unwrap();
    assert_eq!(projection.proposal(&proposal.event_id), Some(&proposal));
    assert_eq!(projection.review(&review.event_id), Some(&review));
    assert_eq!(projection.record(&record.event_id), Some(&record));
    assert_eq!(projection.record(&later.event_id), Some(&later));
    assert!(!has_supersession_cycle(&projection.supersession_graph()));
}
