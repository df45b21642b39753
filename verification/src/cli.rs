//! The decisions of the operator's end-to-end proof run: evidence receipts
//! for captured messages, the relay's host, the coverage and privacy checks,
//! and the clock.

use vstd::prelude::*;

use crate::digest::{jcs_sha256, digest_of};
use crate::error::CoreError;
use crate::evidence::{EvidenceLocator, EvidenceRef, EvidenceRole};
use crate::json::{json_str, push_json_str};
use crate::snapshot::same_text;

verus! {

/// The three characters that end a URL scheme.
pub open spec fn scheme_mark_at(s: Seq<char>, i: int) -> bool {
    0 <= i && i + 3 <= s.len() && s[i] == ':' && s[i + 1] == '/' && s[i + 2] == '/'
}

/// The position of the first `://` in `s`, if any.
#[verifier::opaque]
pub open spec fn first_scheme_mark(s: Seq<char>) -> Option<int> {
    if exists|i: int| scheme_mark_at(s, i) {
        Some(choose|i: int| scheme_mark_at(s, i) && forall|j: int| 0 <= j < i ==> !scheme_mark_at(s, j))
    } else {
        None
    }
}

/// The number of leading characters of `s` before its first `/`.
#[verifier::opaque]
pub open spec fn before_slash(s: Seq<char>) -> int {
    if exists|i: int| 0 <= i < s.len() && s[i] == '/' {
        choose|i: int| 0 <= i < s.len() && s[i] == '/' && forall|j: int| 0 <= j < i ==> s[j] != '/'
    } else {
        s.len() as int
    }
}

/// What follows the first `://`, or the whole text when there is none.
pub open spec fn after_scheme(relay: Seq<char>) -> Seq<char> {
    match first_scheme_mark(relay) {
        Some(i) => relay.skip(i + 3),
        None => relay,
    }
}

/// The host of a relay URL: what follows the first `://` (or the whole text
/// when there is none), up to the first `/`.
pub open spec fn host_of(relay: Seq<char>) -> Seq<char> {
    after_scheme(relay).take(before_slash(after_scheme(relay)))
}

/// Where the host part of a relay URL starts.
fn host_start(relay: &str) -> (r: usize)
    ensures
        r <= relay@.len(),
        relay@.skip(r as int) == after_scheme(relay@),
{
    reveal(first_scheme_mark);
    let n = relay.unicode_len();
    if n < 3 {
        proof {
            assert forall|j: int| !scheme_mark_at(relay@, j) by {}
            assert(relay@.skip(0) =~= relay@);
        }
        return 0;
    }
    let mut i: usize = 0;
    while i <= n - 3
        invariant
            n == relay@.len(),
            n >= 3,
            i <= n - 2,
            forall|j: int| 0 <= j < i ==> !scheme_mark_at(relay@, j),
        decreases n - i,
    {
        if relay.get_char(i) == ':' && relay.get_char(i + 1) == '/' && relay.get_char(i + 2) == '/' {
            proof {
                assert(scheme_mark_at(relay@, i as int) && forall|j: int| 0 <= j < i ==> !scheme_mark_at(relay@, j));
                reveal(first_scheme_mark);
                assert(exists|j: int| scheme_mark_at(relay@, j));
                let k = choose|i: int| scheme_mark_at(relay@, i) && forall|j: int| 0 <= j < i ==> !scheme_mark_at(relay@, j);
                if k < i {
                    assert(!scheme_mark_at(relay@, k));
                }
                if k > i {
                    assert(!scheme_mark_at(relay@, i as int));
                }
                assert(k == i);
                assert(first_scheme_mark(relay@) == Some(i as int));
            }
            return i + 3;
        }
        i += 1;
    }
    proof {
        assert forall|j: int| !scheme_mark_at(relay@, j) by {
            if 0 <= j < i {
            }
        }
        assert(relay@.skip(0) =~= relay@);
    }
    0
}

/// Where the host part of a relay URL ends, given where it starts.
fn host_end(relay: &str, from: usize) -> (r: usize)
    requires
        from <= relay@.len(),
    ensures
        from <= r <= relay@.len(),
        r - from == before_slash(relay@.skip(from as int)),
{
    reveal(before_slash);
    let n = relay.unicode_len();
    let ghost rest = relay@.skip(from as int);
    let mut k: usize = from;
    while k < n && relay.get_char(k) != '/'
        invariant
            n == relay@.len(),
            from <= k <= n,
            rest == relay@.skip(from as int),
            forall|j: int| 0 <= j < k - from ==> rest[j] != '/',
        decreases n - k,
    {
        k += 1;
    }
    proof {
        if k < n {
            assert(rest[k - from] == '/');
            let m = choose|m: int| 0 <= m < rest.len() && rest[m] == '/' && forall|j: int| 0 <= j < m ==> rest[j] != '/';
            assert(m == k - from);
        }
    }
    k
}

/// The host of a relay URL.
pub fn relay_host(relay: &str) -> (r: String)
    ensures
        r@ == host_of(relay@),
{
    let from = host_start(relay);
    let to = host_end(relay, from);
    let host = relay.substring_char(from, to);
    proof {
        assert(host@ =~= relay@.skip(from as int).take(to - from));
    }
    host.to_owned()
}

/// The text with which a relay refuses a query from a non-member.
pub open spec fn private_channel_denial() -> Seq<char> {
    "relay closed query: restricted: not a channel member"@
}

/// True for the relay's own refusal of a non-member's query, and for no
/// other failure: a network or authentication error must not pass as privacy.
pub fn is_expected_private_channel_denial(message: &str) -> (r: bool)
    ensures
        r == (message@ == private_channel_denial()),
{
    same_text(message, "relay closed query: restricted: not a channel member")
}

/// What the outsider's query of a private channel shows: no events, or the
/// relay's refusal of a non-member, means the channel stayed private; any
/// other failure is passed on.
pub fn outsider_denied(result: Result<usize, String>) -> (r: Result<bool, String>)
    ensures
        match result {
            Ok(n) => r == Ok::<bool, String>(n == 0),
            Err(m) => if m@ == private_channel_denial() {
                r == Ok::<bool, String>(true)
            } else {
                r is Err && r->Err_0@ == m@
            },
        },
{
    match result {
        Ok(n) => Ok(n == 0),
        Err(m) => {
            if is_expected_private_channel_denial(m.as_str()) {
                Ok(true)
            } else {
                Err(m)
            }
        },
    }
}

/// The counts bracketing a capture agree: the channel held the expected
/// number of messages before and after, and every one was retrieved.
pub fn coverage_consistent(expected: u64, before: u64, retrieved: u64, after: u64) -> (r: bool)
    ensures
        r == (before == expected && before == after && retrieved == before),
{
    before == expected && before == after && retrieved == before
}

/// The least of a non-empty sequence of times.
pub open spec fn least(times: Seq<i64>) -> i64
    decreases times.len(),
{
    if times.len() <= 1 {
        times[0]
    } else if times.last() < least(times.drop_last()) {
        times.last()
    } else {
        least(times.drop_last())
    }
}

/// One second earlier, stopping at the smallest timestamp.
pub open spec fn second_before(t: i64) -> i64 {
    if t == i64::MIN {
        t
    } else {
        (t - 1) as i64
    }
}

/// One second earlier, stopping at the smallest timestamp.
pub fn one_second_before(t: i64) -> (r: i64)
    ensures
        r == second_before(t),
{
    if t == i64::MIN {
        t
    } else {
        t - 1
    }
}

/// The start of the requested window: one second before the earliest
/// captured message, or before `fallback` when none was captured.
pub fn window_start(times: &Vec<i64>, fallback: i64) -> (r: i64)
    ensures
        r == second_before(if times@.len() == 0 { fallback } else { least(times@) }),
{
    let n = times.len();
    if n == 0 {
        return one_second_before(fallback);
    }
    let mut low = times[0];
    let mut i: usize = 1;
    assert(times@.take(1) =~= seq![times@[0]]);
    while i < n
        invariant
            n == times@.len(),
            1 <= i <= n,
            low == least(times@.take(i as int)),
        decreases n - i,
    {
        proof {
            assert(times@.take(i + 1).drop_last() =~= times@.take(i as int));
            assert(times@.take(i + 1).last() == times@[i as int]);
        }
        if times[i] < low {
            low = times[i];
        }
        i += 1;
    }
    assert(times@.take(n as int) =~= times@);
    one_second_before(low)
}

/// Every check of the proof run held.
pub fn proof_passed(
    outsider_denied: bool,
    reviewer_signed_own_event: bool,
    source_deleted: bool,
    record_invalidated: bool,
    restart_idempotence_receipt: bool,
) -> (r: bool)
    ensures
        r == (outsider_denied && reviewer_signed_own_event && source_deleted && record_invalidated
            && restart_idempotence_receipt),
{
    outsider_denied && reviewer_signed_own_event && source_deleted && record_invalidated
        && restart_idempotence_receipt
}

/// What a receipt needs of a captured, signed channel message.
#[derive(Clone, Debug, PartialEq, Eq)]
pub struct SourceEvent {
    /// The event id in hexadecimal.
    pub id: String,
    /// The event kind.
    pub kind: u16,
    /// The author's public key in hexadecimal.
    pub pubkey: String,
    /// The creation time in Unix seconds.
    pub created_at: u64,
    /// The message text.
    pub content: String,
}

/// The content digest of a message: the content address of its text as a
/// JSON string.
pub open spec fn content_digest_of(content: Seq<char>) -> Option<Seq<char>> {
    digest_of(json_str(content))
}

/// A whole-event evidence receipt for a captured message in a channel.
pub fn evidence_ref(relay: &str, channel_id: &str, event: &SourceEvent, role: EvidenceRole) -> (r: Result<
    EvidenceRef,
    CoreError,
>)
    ensures
        match content_digest_of(event.content@) {
            None => r is Err && r->Err_0 is Canonical,
            Some(d) => r is Ok && {
                let e = r->Ok_0@;
                &&& e.relay == relay@
                &&& e.community == host_of(relay@)
                &&& e.channel_id == channel_id@
                &&& e.event_id == event.id@
                &&& e.kind == event.kind as u32
                &&& e.author == event.pubkey@
                &&& e.created_at == event.created_at as i64
                &&& e.role == role
                &&& e.content_digest == d
                &&& e.locator == EvidenceLocator::WholeEvent
            },
        },
{
    let mut json: Vec<u8> = Vec::new();
    push_json_str(&mut json, event.content.as_str());
    assert(json@ =~= json_str(event.content@));
    let digest = jcs_sha256(json.as_slice())?;
    Ok(
        EvidenceRef {
            relay: relay.to_owned(),
            community: relay_host(relay),
            channel_id: channel_id.to_owned(),
            event_id: event.id.clone(),
            kind: event.kind as u32,
            author: event.pubkey.clone(),
            created_at: event.created_at as i64,
            role,
            content_digest: digest,
            locator: EvidenceLocator::WholeEvent,
        },
    )
}

/// A timestamp from the seconds since the Unix epoch that the clock gave:
/// refused when the clock predates the epoch or the count exceeds `i64`.
pub fn timestamp_from(seconds: Option<u64>) -> (r: Result<i64, String>)
    ensures
        match seconds {
            None => r is Err && r->Err_0@ == "system clock predates Unix epoch"@,
            Some(s) => if s <= i64::MAX {
                r == Ok::<i64, String>(s as i64)
            } else {
                r is Err && r->Err_0@ == "Unix timestamp exceeds i64"@
            },
        },
{
    match seconds {
        None => Err("system clock predates Unix epoch".to_owned()),
        Some(s) => {
            if s <= 9223372036854775807u64 {
                Ok(s as i64)
            } else {
                Err("Unix timestamp exceeds i64".to_owned())
            }
        },
    }
}

#[verifier::external_type_specification]
#[verifier::external_body]
pub struct ExSystemTime(std::time::SystemTime);

/// `std::time::SystemTime::now`: the system clock's current time. Nothing
/// is claimed of it.
#[verifier::external_body]
fn system_now() -> (r: std::time::SystemTime) {
    std::time::SystemTime::now()
}

/// `std::time::SystemTime::duration_since` the Unix epoch; `None` for a time
/// before the epoch. Nothing is claimed of the duration.
#[verifier::external_body]
fn since_epoch(t: &std::time::SystemTime) -> (r: Option<std::time::Duration>) {
    t.duration_since(std::time::UNIX_EPOCH).ok()
}

/// `std::time::Duration::as_secs`: the duration's whole seconds. Nothing is
/// claimed of the count.
#[verifier::external_body]
fn whole_seconds(d: &std::time::Duration) -> (r: u64) {
    d.as_secs()
}

/// The current time in Unix seconds. The clock decides the value; whatever
/// it is, a success is not negative, and a failure says that the clock
/// predates the Unix epoch or that its reading does not fit an `i64`.
pub fn unix_now() -> (r: Result<i64, String>)
    ensures
        r is Ok ==> r->Ok_0 >= 0,
        r is Err ==> r->Err_0@ == "system clock predates Unix epoch"@ || r->Err_0@
            == "Unix timestamp exceeds i64"@,
{
    let now = system_now();
    let seconds = match since_epoch(&now) {
        Some(d) => Some(whole_seconds(&d)),
        None => None,
    };
    timestamp_from(seconds)
}

} // verus!
