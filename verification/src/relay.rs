//! The client side of the relay conversation: what each message the relay
//! sends means for a query, a count, a publication or an authentication.

use vstd::prelude::*;

use crate::snapshot::same_text;

verus! {

/// A message from the relay, as the client reads it.
#[derive(Clone, Debug, PartialEq, Eq)]
pub enum RelayMessage {
    /// `["EVENT", subscription, event]`; whether the event is present.
    Event { has_payload: bool },
    /// `["EOSE", subscription]`: every stored event was sent.
    EndOfStored,
    /// `["CLOSED", subscription, reason]`; the reason when it is text.
    Closed(Option<String>),
    /// `["NOTICE", reason]`; the reason when it is text.
    Notice(Option<String>),
    /// `["COUNT", subscription, {"count": n}]`; the parts that are present.
    Count { subscription: Option<String>, count: Option<u64> },
    /// `["OK", event id, accepted, reason]`; the parts that are present.
    Accepted { event_id: Option<String>, accepted: Option<bool>, reason: Option<String> },
    /// `["AUTH", challenge]`; the challenge when it is text.
    Auth(Option<String>),
    /// Any other message.
    Other,
}

/// What a query does with a message.
#[derive(Clone, Debug, PartialEq, Eq)]
pub enum QueryStep {
    /// Keep the event (after checking its signature) and read on.
    Collect,
    /// The query is complete.
    Finish,
    /// The query failed with this text.
    Fail(String),
    /// Ignore the message and read on.
    Skip,
}

/// What a count does with a message.
#[derive(Clone, Debug, PartialEq, Eq)]
pub enum CountStep {
    Done(u64),
    Fail(String),
    Skip,
}

/// What waiting for a relay's verdict on an event does with a message.
#[derive(Clone, Debug, PartialEq, Eq)]
pub enum OkStep {
    Accepted,
    Rejected(String),
    Skip,
}

/// What waiting for an authentication challenge does with a message.
#[derive(Clone, Debug, PartialEq, Eq)]
pub enum AuthStep {
    Challenge(String),
    Fail(String),
    Skip,
}

/// A reason, or `unknown` when the relay gave none.
pub open spec fn reason_text(reason: Option<String>) -> Seq<char> {
    match reason {
        Some(r) => r@,
        None => "unknown"@,
    }
}

fn reason_of(reason: &Option<String>) -> (r: String)
    ensures
        r@ == reason_text(*reason),
{
    match reason {
        Some(r) => r.clone(),
        None => "unknown".to_owned(),
    }
}

/// The text of a query the relay closed.
pub open spec fn closed_query_text(reason: Option<String>) -> Seq<char> {
    "relay closed query: "@ + reason_text(reason)
}

/// What a query does with a message: keep events, finish at the end of the
/// stored events, fail on a closed query, a notice or an event without a
/// payload, and ignore anything else.
pub fn query_step(m: &RelayMessage) -> (r: QueryStep)
    ensures
        match m {
            RelayMessage::Event { has_payload } => if *has_payload {
                r == QueryStep::Collect
            } else {
                r matches QueryStep::Fail(t) && t@ == "EVENT response missing event payload"@
            },
            RelayMessage::EndOfStored => r == QueryStep::Finish,
            RelayMessage::Closed(reason) => r matches QueryStep::Fail(t) && t@ == closed_query_text(
                *reason,
            ),
            RelayMessage::Notice(reason) => r matches QueryStep::Fail(t) && t@
                == "relay notice during query: "@ + reason_text(*reason),
            _ => r == QueryStep::Skip,
        },
{
    match m {
        RelayMessage::Event { has_payload } => {
            if *has_payload {
                QueryStep::Collect
            } else {
                QueryStep::Fail("EVENT response missing event payload".to_owned())
            }
        },
        RelayMessage::EndOfStored => QueryStep::Finish,
        RelayMessage::Closed(reason) => QueryStep::Fail(
            "relay closed query: ".to_owned().concat(reason_of(reason).as_str()),
        ),
        RelayMessage::Notice(reason) => QueryStep::Fail(
            "relay notice during query: ".to_owned().concat(reason_of(reason).as_str()),
        ),
        _ => QueryStep::Skip,
    }
}

/// What a count under `subscription` does with a message: take the count of
/// its own subscription, fail when that count is missing, on a closed count
/// or on a notice, and ignore anything else.
pub fn count_step(m: &RelayMessage, subscription: &str) -> (r: CountStep)
    ensures
        match m {
            RelayMessage::Count { subscription: s, count } => if s is Some && s->0@ == subscription@ {
                match count {
                    Some(n) => r == CountStep::Done(*n),
                    None => r matches CountStep::Fail(t) && t@
                        == "COUNT response missing numeric count"@,
                }
            } else {
                r == CountStep::Skip
            },
            RelayMessage::Closed(reason) => r matches CountStep::Fail(t) && t@
                == "relay closed count: "@ + reason_text(*reason),
            RelayMessage::Notice(reason) => r matches CountStep::Fail(t) && t@
                == "relay notice during count: "@ + reason_text(*reason),
            _ => r == CountStep::Skip,
        },
{
    match m {
        RelayMessage::Count { subscription: s, count } => {
            let mine = match s {
                Some(x) => same_text(x.as_str(), subscription),
                None => false,
            };
            if mine {
                match count {
                    Some(n) => CountStep::Done(*n),
                    None => CountStep::Fail("COUNT response missing numeric count".to_owned()),
                }
            } else {
                CountStep::Skip
            }
        },
        RelayMessage::Closed(reason) => CountStep::Fail(
            "relay closed count: ".to_owned().concat(reason_of(reason).as_str()),
        ),
        RelayMessage::Notice(reason) => CountStep::Fail(
            "relay notice during count: ".to_owned().concat(reason_of(reason).as_str()),
        ),
        _ => CountStep::Skip,
    }
}

/// What waiting for the verdict on `event_id` does with a message: only the
/// relay's `OK` for that event counts, and it accepts only when it says so.
pub fn ok_step(m: &RelayMessage, event_id: &str) -> (r: OkStep)
    ensures
        match m {
            RelayMessage::Accepted { event_id: e, accepted, reason } => if e is Some && e->0@
                == event_id@ {
                if *accepted == Some(true) {
                    r == OkStep::Accepted
                } else {
                    r matches OkStep::Rejected(t) && t@ == "relay rejected event "@ + event_id@
                        + ": "@ + reason_text(*reason)
                }
            } else {
                r == OkStep::Skip
            },
            _ => r == OkStep::Skip,
        },
{
    match m {
        RelayMessage::Accepted { event_id: e, accepted, reason } => {
            let mine = match e {
                Some(x) => same_text(x.as_str(), event_id),
                None => false,
            };
            if !mine {
                return OkStep::Skip;
            }
            let yes = match accepted {
                Some(b) => *b,
                None => false,
            };
            if yes {
                OkStep::Accepted
            } else {
                OkStep::Rejected(
                    "relay rejected event ".to_owned().concat(event_id).concat(": ").concat(
                        reason_of(reason).as_str(),
                    ),
                )
            }
        },
        _ => OkStep::Skip,
    }
}

/// What waiting for an authentication challenge does with a message.
pub fn auth_step(m: &RelayMessage) -> (r: AuthStep)
    ensures
        match m {
            RelayMessage::Auth(Some(c)) => r matches AuthStep::Challenge(t) && t@ == c@,
            RelayMessage::Auth(None) => r matches AuthStep::Fail(t) && t@
                == "AUTH message missing challenge"@,
            _ => r == AuthStep::Skip,
        },
{
    match m {
        RelayMessage::Auth(Some(c)) => AuthStep::Challenge(c.clone()),
        RelayMessage::Auth(None) => AuthStep::Fail("AUTH message missing challenge".to_owned()),
        _ => AuthStep::Skip,
    }
}

/// A query the relay closed counts as the relay's refusal of a non-member
/// exactly when the reason it gave is `restricted: not a channel member`.
pub proof fn law_closed_query_is_denial_exactly(reason: Option<String>)
    ensures
        closed_query_text(reason) == crate::cli::private_channel_denial() <==> reason_text(reason)
            == "restricted: not a channel member"@,
{
    reveal_strlit("relay closed query: ");
    reveal_strlit("restricted: not a channel member");
    reveal_strlit("relay closed query: restricted: not a channel member");
    let head = "relay closed query: "@;
    let tail = "restricted: not a channel member"@;
    assert(crate::cli::private_channel_denial() =~= head + tail);
    head.lemma_concat_injective(reason_text(reason), tail);
}

} // verus!
