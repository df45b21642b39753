use comb::cli::{
    coverage_consistent, evidence_ref, is_expected_private_channel_denial, outsider_denied,
    relay_host, timestamp_from, unix_now, window_start, SourceEvent,
};
use comb::evidence::{EvidenceLocator, EvidenceRole};
use comb::observer::poll_seconds;

#[test]
fn exact_private_channel_denial_is_accepted() {
    let error = "relay closed query: restricted: not a channel member".to_string();
    assert!(is_expected_private_channel_denial(&error));
}

#[test]
fn network_or_auth_failures_cannot_pass_as_privacy() {
    for message in [
        "operation timed out",
        "failed to connect to ws://127.0.0.1:4300",
        "relay closed query: auth-required: must authenticate",
    ] {
        let error = message.to_string();
        assert!(!is_expected_private_channel_denial(&error));
    }
}

#[test]
fn relay_host_strips_scheme_and_path() {
    assert_eq!(relay_host("wss://buzz.example/relay"), "buzz.example");
    assert_eq!(relay_host("ws://127.0.0.1:4300"), "127.0.0.1:4300");
    assert_eq!(relay_host("buzz.example/x"), "buzz.example");
    assert_eq!(relay_host("plain"), "plain");
}

#[test]
fn outsider_probe_passes_only_on_silence_or_denial() {
    assert_eq!(outsider_denied(Ok(0)), Ok(true));
    assert_eq!(outsider_denied(Ok(3)), Ok(false));
    assert_eq!(
        outsider_denied(Err("relay closed query: restricted: not a channel member".to_string())),
        Ok(true)
    );
    assert_eq!(
        outsider_denied(Err("operation timed out".to_string())),
        Err("operation timed out".to_string())
    );
}

#[test]
fn coverage_counts_must_agree() {
    assert!(coverage_consistent(6, 6, 6, 6));
    assert!(!coverage_consistent(6, 6, 5, 6));
    assert!(!coverage_consistent(6, 6, 6, 7));
    assert!(!coverage_consistent(5, 6, 6, 6));
}

#[test]
fn window_starts_a_second_before_the_earliest_message() {
    assert_eq!(window_start(&vec![30, 12, 40], 99), 11);
    assert_eq!(window_start(&vec![], 99), 98);
    assert_eq!(window_start(&vec![i64::MIN], 0), i64::MIN);
}

#[test]
fn clock_readings_become_timestamps() {
    assert_eq!(timestamp_from(Some(42)), Ok(42));
    assert!(timestamp_from(None).is_err());
    assert!(timestamp_from(Some(u64::MAX)).is_err());
    assert!(unix_now().unwrap() > 1_600_000_000);
}

#[test]
fn evidence_receipt_records_the_message() {
    let event = SourceEvent {
        id: "a".repeat(64),
        kind: 9,
        pubkey: "b".repeat(64),
        created_at: 1234,
        content: "Decision: move launch".to_string(),
    };
    let receipt = evidence_ref("wss://buzz.example/", "channel-a", &event, EvidenceRole::Supports).unwrap();
    assert_eq!(receipt.community, "buzz.example");
    assert_eq!(receipt.event_id, "a".repeat(64));
    assert_eq!(receipt.created_at, 1234);
    assert_eq!(receipt.locator, EvidenceLocator::WholeEvent);
    assert_eq!(receipt.content_digest.len(), 64);
    assert_ne!(receipt.content_digest, hex::encode(b"Decision: move launch"));
}

#[test]
fn observer_polls_at_the_requested_interval_unless_it_is_too_short() {
    assert_eq!(poll_seconds(None), 30);
    assert_eq!(poll_seconds(Some(4)), 30);
    assert_eq!(poll_seconds(Some(5)), 5);
    assert_eq!(poll_seconds(Some(120)), 120);
}
