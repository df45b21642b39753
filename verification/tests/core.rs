use comb::claim::{Claim, ClaimState};
use comb::coverage::{CoverageLane, CoverageRecord, CoverageStatus, TemporalWindow};
use comb::digest::jcs_sha256;
use comb::error::{CoreError, Validate};
use comb::evidence::{EvidenceLocator, EvidenceRef, EvidenceRole};
use comb::graph::{has_supersession_cycle, SupersessionGraph};
use comb::proposal::{GeneratorInfo, Proposal};
use comb::snapshot::{RetrievalSnapshot, PROPOSAL_SCHEMA_V1, SNAPSHOT_SCHEMA_V1};

fn hex_id(byte: u8) -> String {
    hex::encode([byte; 32])
}

fn evidence(event: u8, channel: &str) -> EvidenceRef {
    EvidenceRef {
        relay: "wss://buzz.example".into(),
        community: "buzz.example".into(),
        channel_id: channel.into(),
        event_id: hex_id(event),
        kind: 9,
        author: hex_id(0xa0),
        created_at: 100,
        role: EvidenceRole::Supports,
        content_digest: hex_id(event.wrapping_add(1)),
        locator: EvidenceLocator::WholeEvent,
    }
}

fn complete_coverage(channel: &str) -> CoverageRecord {
    let mut coverage = CoverageRecord {
        status: CoverageStatus::Complete,
        requested_window: TemporalWindow { since: 10, until: 20 },
        capture_started_at: 21,
        capture_completed_at: 22,
        lanes: vec![CoverageLane {
            channel_id: channel.into(),
            kinds: vec![9],
            count_before: 1,
            retrieved: 1,
            count_after: 1,
            signature_failures: 0,
            unresolved_sources: 0,
        }],
        gaps: vec![],
    };
    coverage.normalize();
    coverage
}

fn error_text(error: CoreError) -> String {
    error.message()
}

#[test]
fn jcs_digest_ignores_json_object_insertion_order() {
    let left = jcs_sha256(br#"{"b":2,"a":1}"#).expect("json");
    let right = jcs_sha256(br#"{"a":1,"b":2}"#).expect("json");
    assert_eq!(left, right);
}

#[test]
fn jcs_digest_is_sha256_of_the_canonical_bytes_and_refuses_malformed_json() {
    let digest = jcs_sha256(br#"{ "a" : 1 }"#).expect("json");
    assert_eq!(digest, "015abd7f5cc57a2dd94b7590f04ad8084273905ee33ec5cebeae62276a97f862");
    assert!(matches!(jcs_sha256(b"{not json"), Err(CoreError::Canonical(_))));
}

#[test]
fn sealing_a_claim_normalizes_evidence_and_is_deterministic() {
    let claim = Claim {
        claim_id: String::new(),
        text: "Launch waits for rollback proof.".into(),
        state: ClaimState::Asserted,
        valid_from: 100,
        valid_until: None,
        evidence: vec![evidence(2, "channel-a"), evidence(1, "channel-a")],
        counterevidence: vec![],
        supersedes: vec![],
    }
    .seal()
    .unwrap();
    assert_eq!(claim.evidence[0].event_id, hex_id(1));
    claim.validate().unwrap();
    assert_eq!(claim.claim_id, claim.computed_id().unwrap());
}

#[test]
fn canonical_id_detects_payload_tampering() {
    let mut claim = Claim {
        claim_id: String::new(),
        text: "Launch waits for rollback proof.".into(),
        state: ClaimState::Asserted,
        valid_from: 100,
        valid_until: None,
        evidence: vec![evidence(1, "channel-a")],
        counterevidence: vec![],
        supersedes: vec![],
    }
    .seal()
    .unwrap();
    claim.text = "Launch immediately.".into();
    assert!(error_text(claim.validate().unwrap_err()).contains("claimId"));
}

#[test]
fn asserted_claim_without_evidence_is_rejected() {
    let error = Claim {
        claim_id: hex_id(1),
        text: "Unsupported assertion".into(),
        state: ClaimState::Asserted,
        valid_from: 0,
        valid_until: None,
        evidence: vec![],
        counterevidence: vec![],
        supersedes: vec![],
    }
    .validate()
    .unwrap_err();
    assert!(error_text(error).contains("require primary supporting evidence"));
}

#[test]
fn complete_coverage_requires_stable_exact_inventory() {
    let mut coverage = complete_coverage("channel-a");
    coverage.lanes[0].count_after = 2;
    assert!(!coverage.satisfies_complete_contract());
    assert!(coverage.validate().is_err());

    coverage.status = CoverageStatus::Partial;
    coverage.validate().unwrap();
}

#[test]
fn complete_coverage_rejects_live_unsettled_window() {
    let mut coverage = complete_coverage("channel-a");
    coverage.requested_window.until = coverage.capture_started_at + 1;
    assert!(coverage.validate().is_err());
}

#[test]
fn complete_snapshot_manifest_must_equal_retrieved_inventory() {
    let error = RetrievalSnapshot {
        schema: SNAPSHOT_SCHEMA_V1.into(),
        snapshot_id: String::new(),
        community: "buzz.example".into(),
        channel_id: "channel-a".into(),
        source_event_ids: vec![hex_id(1), hex_id(2)],
        coverage: complete_coverage("channel-a"),
    }
    .seal()
    .unwrap_err();
    assert!(error_text(error).contains("manifest size"));
}

#[test]
fn snapshot_rejects_overlapping_coverage_lanes() {
    let mut coverage = complete_coverage("channel-a");
    coverage.status = CoverageStatus::Partial;
    coverage.lanes.push(coverage.lanes[0].clone());
    coverage.lanes[1].count_before = 0;
    coverage.lanes[1].retrieved = 0;
    coverage.lanes[1].count_after = 0;
    coverage.normalize();
    let error = RetrievalSnapshot {
        schema: SNAPSHOT_SCHEMA_V1.into(),
        snapshot_id: String::new(),
        community: "buzz.example".into(),
        channel_id: "channel-a".into(),
        source_event_ids: vec![hex_id(1)],
        coverage,
    }
    .seal()
    .unwrap_err();
    assert!(error_text(error).contains("must not overlap"));
}

fn fixture_proposal(channel: &str, claim: Claim, snapshot: RetrievalSnapshot) -> Proposal {
    Proposal {
        schema: PROPOSAL_SCHEMA_V1.into(),
        proposal_id: String::new(),
        channel_id: channel.into(),
        created_at: 200,
        generator: GeneratorInfo {
            name: "fixture".into(),
            version: "1".into(),
            model: None,
            prompt_version: None,
        },
        policy_id: "default".into(),
        snapshot,
        claims: vec![claim],
    }
}

#[test]
fn proposal_rejects_cross_channel_or_invented_evidence() {
    let channel = "channel-a";
    let claim = Claim {
        claim_id: String::new(),
        text: "A decision".into(),
        state: ClaimState::Asserted,
        valid_from: 100,
        valid_until: None,
        evidence: vec![evidence(1, "channel-b")],
        counterevidence: vec![],
        supersedes: vec![],
    }
    .seal()
    .unwrap();
    let snapshot = RetrievalSnapshot {
        schema: SNAPSHOT_SCHEMA_V1.into(),
        snapshot_id: String::new(),
        community: "buzz.example".into(),
        channel_id: channel.into(),
        source_event_ids: vec![hex_id(1)],
        coverage: complete_coverage(channel),
    }
    .seal()
    .unwrap();
    let error = fixture_proposal(channel, claim, snapshot).seal().unwrap_err();
    assert!(error_text(error).contains("cross-channel evidence"));
}

#[test]
fn proposal_requires_all_evidence_in_snapshot() {
    let channel = "channel-a";
    let claim = Claim {
        claim_id: String::new(),
        text: "A decision".into(),
        state: ClaimState::Asserted,
        valid_from: 100,
        valid_until: None,
        evidence: vec![evidence(2, channel)],
        counterevidence: vec![],
        supersedes: vec![],
    }
    .seal()
    .unwrap();
    let snapshot = RetrievalSnapshot {
        schema: SNAPSHOT_SCHEMA_V1.into(),
        snapshot_id: String::new(),
        community: "buzz.example".into(),
        channel_id: channel.into(),
        source_event_ids: vec![hex_id(1)],
        coverage: complete_coverage(channel),
    }
    .seal()
    .unwrap();
    let error = fixture_proposal(channel, claim, snapshot).seal().unwrap_err();
    assert!(error_text(error).contains("retrieval snapshot"));
}

#[test]
fn supersession_cycle_detector_rejects_self_and_multi_node_cycles() {
    let mut graph = SupersessionGraph::new();
    graph.insert("a".into(), vec!["a".into()]);
    assert!(has_supersession_cycle(&graph));

    graph.clear();
    graph.insert("a".into(), vec!["b".into()]);
    graph.insert("b".into(), vec!["c".into()]);
    graph.insert("c".into(), vec!["a".into()]);
    assert!(has_supersession_cycle(&graph));

    graph.insert("c".into(), vec![]);
    assert!(!has_supersession_cycle(&graph));
}

#[test]
fn normalizing_twice_is_normalizing_once() {
    let mut claim = Claim {
        claim_id: String::new(),
        text: "Launch waits for rollback proof.".into(),
        state: ClaimState::Asserted,
        valid_from: 100,
        valid_until: None,
        evidence: vec![evidence(3, "channel-a"), evidence(1, "channel-a"), evidence(3, "channel-a")],
        counterevidence: vec![evidence(2, "channel-a"), evidence(2, "channel-a")],
        supersedes: vec![hex_id(9), hex_id(8), hex_id(9)],
    };
    claim.normalize();
    let once = claim.clone();
    assert_eq!(
        once.evidence.iter().map(|e| e.event_id.clone()).collect::<Vec<_>>(),
        vec![hex_id(1), hex_id(3)]
    );
    assert_eq!(once.counterevidence.len(), 1);
    assert_eq!(once.supersedes, vec![hex_id(8), hex_id(9)]);
    claim.normalize();
    assert_eq!(claim, once);

    let mut coverage = CoverageRecord {
        status: CoverageStatus::Partial,
        requested_window: TemporalWindow { since: 10, until: 20 },
        capture_started_at: 21,
        capture_completed_at: 22,
        lanes: vec![CoverageLane {
            channel_id: "channel-a".into(),
            kinds: vec![9, 7, 9],
            count_before: 1,
            retrieved: 1,
            count_after: 1,
            signature_failures: 0,
            unresolved_sources: 0,
        }],
        gaps: vec![],
    };
    coverage.normalize();
    assert_eq!(coverage.lanes[0].kinds, vec![7, 9]);
    let once = coverage.clone();
    coverage.normalize();
    assert_eq!(coverage, once);
}

#[test]
fn sealing_ignores_the_order_and_repetition_of_evidence() {
    let base = Claim {
        claim_id: String::new(),
        text: "Launch waits for rollback proof.".into(),
        state: ClaimState::Asserted,
        valid_from: 100,
        valid_until: None,
        evidence: vec![evidence(1, "channel-a"), evidence(2, "channel-a")],
        counterevidence: vec![],
        supersedes: vec![],
    };
    let mut shuffled = base.clone();
    shuffled.evidence = vec![evidence(2, "channel-a"), evidence(1, "channel-a"), evidence(2, "channel-a")];
    assert_eq!(base.seal().unwrap(), shuffled.seal().unwrap());
}

#[test]
fn json_strings_are_escaped_as_serde_json_escapes_them() {
    let text = "quote \" backslash \\ newline \n tab \t return \r back \u{8} feed \u{c} bell \u{7} unit \u{1f} é";
    let mut bytes = Vec::new();
    comb::json::push_json_str(&mut bytes, text);
    assert_eq!(String::from_utf8(bytes).unwrap(), serde_json::to_string(text).unwrap());
}

#[test]
fn blankness_agrees_with_std_whitespace() {
    for code in 0u32..0x3100 {
        if let Some(c) = char::from_u32(code) {
            assert_eq!(comb::text::blank(&c.to_string()), c.is_whitespace(), "code point {code:#x}");
        }
    }
    assert!(comb::text::blank(""));
    assert!(!comb::text::blank(" x "));
}
