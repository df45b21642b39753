use comb::buzz::{
    compatibility_tags, create_channel_tags, delete_tags, event_content, profile_name,
    sign_add_member, sign_channel_message, sign_compatibility_event, sign_create_channel,
    sign_delete_event, sign_profile, BuzzError, CombEventRole, CompatibilityTags,
};
use nostr::event::{EventBuilder, FinalizeEvent, Kind};
use nostr::key::Keys;

const CHANNEL: &str = "3eb4d915-fcbf-4d7a-9fc6-7bc70a1e7c3e";

fn tag_values(event: &nostr::event::Event) -> Vec<Vec<String>> {
    event.tags.iter().map(|tag| tag.as_slice().to_vec()).collect()
}

fn note(keys: &Keys, text: &str) -> nostr::event::Event {
    EventBuilder::new(Kind::TextNote, text).finalize(keys).unwrap()
}

fn body_json(key: &str, value: &str) -> String {
    let mut map = serde_json::Map::new();
    map.insert(key.to_owned(), serde_json::Value::String(value.to_owned()));
    serde_json::Value::Object(map).to_string()
}

#[test]
fn proposal_is_signed_and_channel_scoped() {
    let keys = Keys::generate();
    let source = note(&keys, "source");
    let event = sign_compatibility_event(
        &keys,
        CHANNEL,
        CombEventRole::Proposal,
        "knowledge.launch-date.v1",
        &body_json("title", "Launch"),
        &CompatibilityTags {
            source_event_ids: vec![source.id.to_hex()],
            ..CompatibilityTags::default()
        },
    )
    .unwrap();
    assert_eq!(event.kind, 9);
    assert_eq!(event.event.kind.as_u16(), 9);
    assert_eq!(event.tags, tag_values(&event.event));
    assert_eq!(event.content, event.event.content);
    let event = event.event;
    event.verify().unwrap();
    let tags = tag_values(&event);
    assert!(tags.contains(&vec!["h".to_string(), CHANNEL.to_string()]));
    assert!(tags.contains(&vec!["comb".into(), "proposal".into(), "v1".into()]));
    assert!(tags.contains(&vec!["e".into(), source.id.to_hex(), "".into(), "source".into()]));
}

#[test]
fn reviewer_signs_their_own_review() {
    let comb = Keys::generate();
    let signer = Keys::generate();
    let proposal = note(&comb, "proposal");
    let review = sign_compatibility_event(
        &signer,
        CHANNEL,
        CombEventRole::Review,
        "review.launch-date.alex",
        &body_json("decision", "approve"),
        &CompatibilityTags {
            target_event_id: Some(proposal.id.to_hex()),
            ..CompatibilityTags::default()
        },
    )
    .unwrap()
    .event;
    assert_eq!(review.pubkey, signer.public_key());
    assert_ne!(review.pubkey, comb.public_key());
}

#[test]
fn invalidation_body_is_empty_and_only_carries_receipt_ids() {
    let keys = Keys::generate();
    let record = note(&keys, "record");
    let invalidation = sign_compatibility_event(
        &keys,
        CHANNEL,
        CombEventRole::Invalidation,
        "invalidation.launch-date.v1",
        &body_json("must", "not leak"),
        &CompatibilityTags {
            target_event_id: Some(record.id.to_hex()),
            ..CompatibilityTags::default()
        },
    )
    .unwrap();
    assert!(invalidation.content.is_empty());
    let invalidation = invalidation.event;
    assert!(invalidation.content.is_empty());
    assert!(!invalidation.as_json().contains("must"));
}

#[test]
fn malformed_evidence_id_is_rejected_before_signing() {
    let result = sign_compatibility_event(
        &Keys::generate(),
        CHANNEL,
        CombEventRole::Proposal,
        "knowledge.test.v1",
        "{}",
        &CompatibilityTags {
            source_event_ids: vec!["not-an-event".into()],
            ..CompatibilityTags::default()
        },
    );
    assert!(result.is_err());
}

#[test]
fn role_wire_names_are_stable() {
    assert_eq!(CombEventRole::Proposal.as_str(), "proposal");
    assert_eq!(CombEventRole::Review.as_str(), "review");
    assert_eq!(CombEventRole::Record.as_str(), "record");
    assert_eq!(CombEventRole::Invalidation.as_str(), "invalidation");
}

#[test]
fn compatibility_tags_list_every_reference_in_order() {
    let source = "a".repeat(64);
    let older = "b".repeat(64);
    let target = "c".repeat(64);
    let tags = compatibility_tags(
        CHANNEL,
        CombEventRole::Record,
        "record.v1",
        &CompatibilityTags {
            source_event_ids: vec![source.clone()],
            supersedes_event_ids: vec![older.clone()],
            target_event_id: Some(target.clone()),
        },
    )
    .unwrap();
    assert_eq!(
        tags,
        vec![
            vec!["h".to_string(), CHANNEL.to_string()],
            vec!["comb".to_string(), "record".to_string(), "v1".to_string()],
            vec!["comb-id".to_string(), "record.v1".to_string()],
            vec!["e".to_string(), source, "".to_string(), "source".to_string()],
            vec!["e".to_string(), older, "".to_string(), "supersedes".to_string()],
            vec!["e".to_string(), target, "".to_string(), "record".to_string()],
        ]
    );
}

#[test]
fn blank_stable_id_and_bad_target_are_rejected() {
    assert_eq!(
        compatibility_tags(CHANNEL, CombEventRole::Proposal, "  ", &CompatibilityTags::default()),
        Err(BuzzError::Rejected("stable Comb ID cannot be empty".to_string()))
    );
    assert_eq!(
        compatibility_tags(
            CHANNEL,
            CombEventRole::Review,
            "review.v1",
            &CompatibilityTags {
                target_event_id: Some("xyz".to_string()),
                ..CompatibilityTags::default()
            },
        ),
        Err(BuzzError::Rejected("invalid Nostr event ID: xyz".to_string()))
    );
}

#[test]
fn invalidation_content_drops_the_body() {
    assert_eq!(event_content(CombEventRole::Invalidation, "{\"must\":1}"), "");
    assert_eq!(event_content(CombEventRole::Record, "{\"must\":1}"), "{\"must\":1}");
}

#[test]
fn deletion_and_channel_tags() {
    let target = "d".repeat(64);
    assert_eq!(
        delete_tags(CHANNEL, &target).unwrap(),
        vec![vec!["h".to_string(), CHANNEL.to_string()], vec!["e".to_string(), target]]
    );
    assert!(delete_tags(CHANNEL, "short").is_err());
    let tags = create_channel_tags(CHANNEL, "#launch", true).unwrap();
    assert_eq!(tags[2], vec!["visibility".to_string(), "private".to_string()]);
    assert!(create_channel_tags(CHANNEL, " ", false).is_err());
}

#[test]
fn profile_name_is_lower_case_with_dashes() {
    assert_eq!(profile_name("Mina at That's Cool"), "mina-at-that's-cool");
}

fn pair(a: &str, b: &str) -> Vec<String> {
    vec![a.to_string(), b.to_string()]
}

#[test]
fn every_signed_event_carries_its_protocol_kind_and_tags() {
    let keys = Keys::generate();
    let target = note(&keys, "target").id.to_hex();

    let delete = sign_delete_event(&keys, CHANNEL, &target).unwrap();
    assert_eq!((delete.kind, delete.content.as_str()), (5, ""));
    assert_eq!(delete.tags, vec![pair("h", CHANNEL), pair("e", &target)]);
    assert_eq!(delete.event.kind.as_u16(), 5);
    assert_eq!(tag_values(&delete.event), delete.tags);

    let create = sign_create_channel(&keys, CHANNEL, "launch", true).unwrap();
    assert_eq!(create.kind, 9007);
    assert_eq!(create.tags[0], pair("h", CHANNEL));
    assert_eq!(create.tags[2], pair("visibility", "private"));
    assert_eq!(create.event.kind.as_u16(), 9007);

    let member = keys.public_key().to_hex();
    let add = sign_add_member(&keys, CHANNEL, &member, Some("bot")).unwrap();
    assert_eq!(add.kind, 9000);
    assert_eq!(add.tags, vec![pair("h", CHANNEL), pair("p", &member), pair("role", "bot")]);
    assert_eq!(tag_values(&add.event), add.tags);

    let profile = sign_profile(&keys, "Mina Lee", "approver").unwrap();
    assert_eq!(profile.kind, 0);
    assert!(profile.tags.is_empty());
    assert!(profile.content.contains("mina-lee"));
    assert_eq!(profile.event.content, profile.content);

    let message = sign_channel_message(&keys, CHANNEL, "hello").unwrap();
    assert_eq!((message.kind, message.content.as_str()), (9, "hello"));
    assert_eq!(message.tags, vec![pair("h", CHANNEL)]);
    assert_eq!(message.event.content, "hello");
}
