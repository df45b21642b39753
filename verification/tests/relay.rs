use comb::relay::{
    auth_step, count_step, ok_step, query_step, AuthStep, CountStep, OkStep, QueryStep,
    RelayMessage,
};

#[test]
fn query_collects_until_the_end_of_stored_events() {
    assert_eq!(query_step(&RelayMessage::Event { has_payload: true }), QueryStep::Collect);
    assert_eq!(query_step(&RelayMessage::EndOfStored), QueryStep::Finish);
    assert_eq!(
        query_step(&RelayMessage::Event { has_payload: false }),
        QueryStep::Fail("EVENT response missing event payload".into())
    );
    assert_eq!(
        query_step(&RelayMessage::Closed(Some("restricted: not a channel member".into()))),
        QueryStep::Fail("relay closed query: restricted: not a channel member".into())
    );
    assert_eq!(
        query_step(&RelayMessage::Notice(None)),
        QueryStep::Fail("relay notice during query: unknown".into())
    );
    assert_eq!(query_step(&RelayMessage::Other), QueryStep::Skip);
}

#[test]
fn count_takes_only_its_own_subscription() {
    let mine = RelayMessage::Count { subscription: Some("s1".into()), count: Some(6) };
    let other = RelayMessage::Count { subscription: Some("s2".into()), count: Some(9) };
    let empty = RelayMessage::Count { subscription: Some("s1".into()), count: None };
    assert_eq!(count_step(&mine, "s1"), CountStep::Done(6));
    assert_eq!(count_step(&other, "s1"), CountStep::Skip);
    assert_eq!(
        count_step(&empty, "s1"),
        CountStep::Fail("COUNT response missing numeric count".into())
    );
    assert_eq!(
        count_step(&RelayMessage::Closed(Some("auth-required".into())), "s1"),
        CountStep::Fail("relay closed count: auth-required".into())
    );
}

#[test]
fn publication_waits_for_its_own_verdict() {
    let yes = RelayMessage::Accepted { event_id: Some("e1".into()), accepted: Some(true), reason: None };
    let no = RelayMessage::Accepted {
        event_id: Some("e1".into()),
        accepted: Some(false),
        reason: Some("blocked".into()),
    };
    assert_eq!(ok_step(&yes, "e1"), OkStep::Accepted);
    assert_eq!(ok_step(&yes, "e2"), OkStep::Skip);
    assert_eq!(ok_step(&no, "e1"), OkStep::Rejected("relay rejected event e1: blocked".into()));
}

#[test]
fn authentication_needs_a_challenge() {
    assert_eq!(auth_step(&RelayMessage::Auth(Some("c".into()))), AuthStep::Challenge("c".into()));
    assert_eq!(
        auth_step(&RelayMessage::Auth(None)),
        AuthStep::Fail("AUTH message missing challenge".into())
    );
    assert_eq!(auth_step(&RelayMessage::EndOfStored), AuthStep::Skip);
}
