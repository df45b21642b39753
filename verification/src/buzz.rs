//! The compatibility protocol on an unmodified Buzz relay: the tags of Comb's
//! signed events, the checks made before signing, and the signing itself.

use nostr::event::{EventBuilder, FinalizeEvent, Kind, Tag};
use nostr::key::Keys;
use vstd::prelude::*;

use crate::digest::is_hex_text;
use crate::text::{blank, is_blank};

verus! {

/// Buzz message kind used by the compatibility protocol.
pub const BUZZ_MESSAGE_KIND: u16 = 9;

/// Event roles in Comb's compatibility protocol.
#[derive(Clone, Copy, Debug, PartialEq, Eq, Structural)]
pub enum CombEventRole {
    /// A machine-generated, human-reviewable knowledge proposal.
    Proposal,
    /// A review signed by the reviewing human.
    Review,
    /// A ratified record with evidence receipts.
    Record,
    /// A body-free notice that earlier evidence is no longer available.
    Invalidation,
}

/// The stable wire name of a role.
pub open spec fn role_text(role: CombEventRole) -> Seq<char> {
    match role {
        CombEventRole::Proposal => "proposal"@,
        CombEventRole::Review => "review"@,
        CombEventRole::Record => "record"@,
        CombEventRole::Invalidation => "invalidation"@,
    }
}

impl CombEventRole {
    /// Stable wire name used in the signed `comb` tag.
    pub fn as_str(self) -> (r: &'static str)
        ensures
            r@ == role_text(self),
    {
        match self {
            CombEventRole::Proposal => "proposal",
            CombEventRole::Review => "review",
            CombEventRole::Record => "record",
            CombEventRole::Invalidation => "invalidation",
        }
    }
}

/// Options shared by Comb compatibility events.
#[derive(Clone, Debug, Default, PartialEq, Eq)]
pub struct CompatibilityTags {
    /// Signed source event IDs that support the artifact.
    pub source_event_ids: Vec<String>,
    /// Earlier proposal or record IDs this event supersedes.
    pub supersedes_event_ids: Vec<String>,
    /// Optional proposal or record that this event reviews or invalidates.
    pub target_event_id: Option<String>,
}

/// Why an event was not signed.
#[derive(Clone, Debug, PartialEq, Eq)]
pub enum BuzzError {
    /// An input broke a rule of the protocol.
    Rejected(String),
    /// The Nostr library refused to build or sign the event.
    Signing(String),
}

/// The text of a rejection, if the error is one.
pub open spec fn rejection(e: BuzzError) -> Option<Seq<char>> {
    match e {
        BuzzError::Rejected(m) => Some(m@),
        BuzzError::Signing(_) => None,
    }
}

/// Text that Nostr accepts as a 32-byte identifier: an even number, at
/// least 64, of hexadecimal digits of either case. The first 64 digits are
/// the identifier.
pub open spec fn nostr_hex_id(s: Seq<char>) -> bool {
    is_hex_text(s) && s.len() >= 64
}

/// `nostr::event::EventId::from_hex`: succeeds exactly on text `nostr_hex_id` accepts.
#[verifier::external_body]
fn event_id_accepted(s: &str) -> (r: bool)
    ensures
        r == nostr_hex_id(s@),
{
    nostr::event::EventId::from_hex(s).is_ok()
}

/// `nostr::key::PublicKey::from_hex`: succeeds exactly on text `nostr_hex_id`
/// accepts (the key is not checked to lie on the curve).
#[verifier::external_body]
fn public_key_accepted(s: &str) -> (r: bool)
    ensures
        r == nostr_hex_id(s@),
{
    nostr::key::PublicKey::from_hex(s).is_ok()
}

#[verifier::external_type_specification]
#[verifier::external_body]
pub struct ExKeys(nostr::key::Keys);

#[verifier::external_type_specification]
#[verifier::external_body]
pub struct ExEvent(nostr::event::Event);

/// An event signed with an actor's own key, with the kind, content and tags
/// it carries read back from it.
#[derive(Debug)]
pub struct SignedEvent {
    /// The signed Nostr event.
    pub event: nostr::event::Event,
    /// The event's kind.
    pub kind: u16,
    /// The event's content.
    pub content: String,
    /// The event's tags, each as its list of strings.
    pub tags: Vec<Vec<String>>,
}

/// `nostr::event::Tag::parse` of each tag, then `nostr::event::EventBuilder::new`
/// with a custom kind, `tags` and `finalize` with `keys`; the kind, content
/// and tags are read back from the event. The builder keeps the kind, the
/// content and the tags it is given, so a signed event carries them. The
/// signature carries fresh randomness and the time, so whether signing
/// succeeds, and the event id and signature, are left unsaid.
#[verifier::external_body]
fn sign_event(keys: &Keys, kind: u16, content: &str, tags: &Vec<Vec<String>>) -> (r: Result<SignedEvent, String>)
    ensures
        r matches Ok(s) ==> s.kind == kind && s.content@ == content@ && tag_views(s.tags@) == tag_views(tags@),
{
    let mut parsed = Vec::new();
    for tag in tags {
        parsed.push(Tag::parse(tag.clone()).map_err(|e| e.to_string())?);
    }
    let event = EventBuilder::new(Kind::Custom(kind), content).tags(parsed).finalize(keys).map_err(|e| e.to_string())?;
    let mut read = Vec::new();
    for tag in event.tags.iter() {
        read.push(tag.as_slice().to_vec());
    }
    Ok(SignedEvent { kind: event.kind.as_u16(), content: event.content.clone(), tags: read, event })
}

/// A tag of two values.
pub open spec fn tag2(a: Seq<char>, b: Seq<char>) -> Seq<Seq<char>> {
    seq![a, b]
}

/// An `e` tag naming an event with a marker.
pub open spec fn e_tag(id: Seq<char>, marker: Seq<char>) -> Seq<Seq<char>> {
    seq!["e"@, id, ""@, marker]
}

/// The `e` tags of `ids`, each with `marker`.
pub open spec fn e_tags(ids: Seq<Seq<char>>, marker: Seq<char>) -> Seq<Seq<Seq<char>>> {
    ids.map_values(|id: Seq<char>| e_tag(id, marker))
}

/// The views of a list of tags.
pub open spec fn tag_views(tags: Seq<Vec<String>>) -> Seq<Seq<Seq<char>>> {
    tags.map_values(|t: Vec<String>| t@.map_values(|s: String| s@))
}

/// The tags of a compatibility event: channel, role, stable id, then the
/// sources, the superseded events and the target.
pub open spec fn compatibility_tag_list(
    channel: Seq<char>,
    role: CombEventRole,
    stable_id: Seq<char>,
    sources: Seq<Seq<char>>,
    supersedes: Seq<Seq<char>>,
    target: Option<Seq<char>>,
) -> Seq<Seq<Seq<char>>> {
    seq![tag2("h"@, channel), seq!["comb"@, role_text(role), "v1"@], tag2("comb-id"@, stable_id)]
        + e_tags(sources, "source"@) + e_tags(supersedes, "supersedes"@) + match target {
        Some(t) => seq![e_tag(t, role_text(role))],
        None => Seq::empty(),
    }
}

/// The text of a rejected event identifier.
pub open spec fn bad_id(id: Seq<char>) -> Seq<char> {
    "invalid Nostr event ID: "@ + id
}

/// The first of `ids` that is not an event identifier.
pub open spec fn first_bad_id(ids: Seq<Seq<char>>) -> Option<Seq<char>>
    decreases ids.len(),
{
    if ids.len() == 0 {
        None
    } else if !nostr_hex_id(ids[0]) {
        Some(ids[0])
    } else {
        first_bad_id(ids.drop_first())
    }
}

/// Why a compatibility event may not be signed, if it may not.
pub open spec fn compatibility_fault(
    stable_id: Seq<char>,
    sources: Seq<Seq<char>>,
    supersedes: Seq<Seq<char>>,
    target: Option<Seq<char>>,
) -> Option<Seq<char>> {
    if is_blank(stable_id) {
        Some("stable Comb ID cannot be empty"@)
    } else if first_bad_id(sources) is Some {
        Some(bad_id(first_bad_id(sources)->0))
    } else if first_bad_id(supersedes) is Some {
        Some(bad_id(first_bad_id(supersedes)->0))
    } else if target is Some && !nostr_hex_id(target->0) {
        Some(bad_id(target->0))
    } else {
        None
    }
}

/// The views of an optional string.
pub open spec fn opt_text(s: Option<String>) -> Option<Seq<char>> {
    match s {
        Some(v) => Some(v@),
        None => None,
    }
}

fn text_tag(a: &str, b: &str) -> (r: Vec<String>)
    ensures
        r@.map_values(|s: String| s@) == tag2(a@, b@),
{
    let mut t: Vec<String> = Vec::new();
    t.push(a.to_owned());
    t.push(b.to_owned());
    assert(t@.map_values(|s: String| s@) =~= tag2(a@, b@));
    t
}

fn event_tag(id: &str, marker: &str) -> (r: Vec<String>)
    ensures
        r@.map_values(|s: String| s@) == e_tag(id@, marker@),
{
    let mut t: Vec<String> = Vec::new();
    t.push("e".to_owned());
    t.push(id.to_owned());
    t.push("".to_owned());
    t.push(marker.to_owned());
    assert(t@.map_values(|s: String| s@) =~= e_tag(id@, marker@));
    t
}

/// Check each of `ids` and append its `e` tag with `marker`.
fn push_event_tags(tags: &mut Vec<Vec<String>>, ids: &Vec<String>, marker: &str) -> (r: Result<(), BuzzError>)
    ensures
        match first_bad_id(ids@.map_values(|s: String| s@)) {
            Some(id) => r is Err && rejection(r->Err_0) == Some(bad_id(id)),
            None => r is Ok && tag_views(final(tags)@) == tag_views(old(tags)@) + e_tags(
                ids@.map_values(|s: String| s@),
                marker@,
            ),
        },
{
    let ghost v = ids@.map_values(|s: String| s@);
    let ghost start = tag_views(tags@);
    let n = ids.len();
    let mut i: usize = 0;
    assert(v.skip(0) =~= v);
    assert(start + e_tags(v.take(0), marker@) =~= start);
    while i < n
        invariant
            n == ids@.len(),
            v == ids@.map_values(|s: String| s@),
            i <= n,
            first_bad_id(v) == first_bad_id(v.skip(i as int)),
            tag_views(tags@) == start + e_tags(v.take(i as int), marker@),
        decreases n - i,
    {
        proof {
            assert(v.skip(i as int)[0] == ids@[i as int]@);
            assert(v.skip(i as int).drop_first() =~= v.skip(i + 1));
        }
        if !event_id_accepted(ids[i].as_str()) {
            return Err(BuzzError::Rejected("invalid Nostr event ID: ".to_owned().concat(ids[i].as_str())));
        }
        let t = event_tag(ids[i].as_str(), marker);
        let ghost before = tags@;
        tags.push(t);
        proof {
            assert(tag_views(tags@) =~= tag_views(before).push(e_tag(ids@[i as int]@, marker@)));
            assert(e_tags(v.take(i + 1), marker@) =~= e_tags(v.take(i as int), marker@).push(
                e_tag(v[i as int], marker@),
            ));
            assert(tag_views(tags@) =~= start + e_tags(v.take(i + 1), marker@));
        }
        i += 1;
    }
    assert(v.take(n as int) =~= v);
    assert(v.skip(n as int) =~= Seq::<Seq<char>>::empty());
    Ok(())
}

/// The tags of a compatibility event, after checking the stable id and
/// every event id it names.
pub fn compatibility_tags(
    channel_id: &str,
    role: CombEventRole,
    stable_id: &str,
    options: &CompatibilityTags,
) -> (r: Result<Vec<Vec<String>>, BuzzError>)
    ensures
        match compatibility_fault(
            stable_id@,
            options.source_event_ids@.map_values(|s: String| s@),
            options.supersedes_event_ids@.map_values(|s: String| s@),
            opt_text(options.target_event_id),
        ) {
            Some(m) => r is Err && rejection(r->Err_0) == Some(m),
            None => r is Ok && tag_views(r->Ok_0@) == compatibility_tag_list(
                channel_id@,
                role,
                stable_id@,
                options.source_event_ids@.map_values(|s: String| s@),
                options.supersedes_event_ids@.map_values(|s: String| s@),
                opt_text(options.target_event_id),
            ),
        },
{
    if blank(stable_id) {
        return Err(BuzzError::Rejected("stable Comb ID cannot be empty".to_owned()));
    }
    let mut tags: Vec<Vec<String>> = Vec::new();
    let h = text_tag("h", channel_id);
    let mut comb: Vec<String> = Vec::new();
    comb.push("comb".to_owned());
    comb.push(role.as_str().to_owned());
    comb.push("v1".to_owned());
    assert(comb@.map_values(|s: String| s@) =~= seq!["comb"@, role_text(role), "v1"@]);
    let id = text_tag("comb-id", stable_id);
    tags.push(h);
    tags.push(comb);
    tags.push(id);
    let ghost head = tag_views(tags@);
    assert(head[0] == tag2("h"@, channel_id@));
    assert(head[1] == seq!["comb"@, role_text(role), "v1"@]);
    assert(head[2] == tag2("comb-id"@, stable_id@));
    proof {
        assert(head =~= seq![
            tag2("h"@, channel_id@),
            seq!["comb"@, role_text(role), "v1"@],
            tag2("comb-id"@, stable_id@),
        ]);
    }
    push_event_tags(&mut tags, &options.source_event_ids, "source")?;
    push_event_tags(&mut tags, &options.supersedes_event_ids, "supersedes")?;
    match &options.target_event_id {
        Some(target) => {
            if !event_id_accepted(target.as_str()) {
                return Err(BuzzError::Rejected("invalid Nostr event ID: ".to_owned().concat(target.as_str())));
            }
            let ghost before = tags@;
            tags.push(event_tag(target.as_str(), role.as_str()));
            proof {
                assert(tag_views(tags@) =~= tag_views(before).push(e_tag(target@, role_text(role))));
            }
        },
        None => {},
    }
    proof {
        assert(tag_views(tags@) =~= compatibility_tag_list(
            channel_id@,
            role,
            stable_id@,
            options.source_event_ids@.map_values(|s: String| s@),
            options.supersedes_event_ids@.map_values(|s: String| s@),
            opt_text(options.target_event_id),
        ));
    }
    Ok(tags)
}

/// The content of a compatibility event: an invalidation carries no body,
/// every other role carries the artifact's JSON.
pub open spec fn compatibility_content(role: CombEventRole, body_json: Seq<char>) -> Seq<char> {
    if role == CombEventRole::Invalidation {
        Seq::empty()
    } else {
        body_json
    }
}

/// The content of a compatibility event.
pub fn event_content(role: CombEventRole, body_json: &str) -> (r: String)
    ensures
        r@ == compatibility_content(role, body_json@),
{
    if role == CombEventRole::Invalidation {
        let r = String::new();
        assert(r@ =~= Seq::<char>::empty());
        r
    } else {
        body_json.to_owned()
    }
}

/// Sign a channel-local Comb compatibility event with the actor's own key.
/// `body_json` is the artifact's JSON; an invalidation leaves it out.
pub fn sign_compatibility_event(
    keys: &nostr::key::Keys,
    channel_id: &str,
    role: CombEventRole,
    stable_id: &str,
    body_json: &str,
    options: &CompatibilityTags,
) -> (r: Result<SignedEvent, BuzzError>)
    ensures
        compatibility_fault(
            stable_id@,
            options.source_event_ids@.map_values(|s: String| s@),
            options.supersedes_event_ids@.map_values(|s: String| s@),
            opt_text(options.target_event_id),
        ) matches Some(m) ==> r is Err && rejection(r->Err_0) == Some(m),
        compatibility_fault(
            stable_id@,
            options.source_event_ids@.map_values(|s: String| s@),
            options.supersedes_event_ids@.map_values(|s: String| s@),
            opt_text(options.target_event_id),
        ) is None ==> r is Ok || rejection(r->Err_0) is None,
        r matches Ok(e) ==> e.kind == BUZZ_MESSAGE_KIND && e.content@ == compatibility_content(role, body_json@)
            && tag_views(e.tags@) == compatibility_tag_list(
            channel_id@,
            role,
            stable_id@,
            options.source_event_ids@.map_values(|s: String| s@),
            options.supersedes_event_ids@.map_values(|s: String| s@),
            opt_text(options.target_event_id),
        ),
{
    let tags = compatibility_tags(channel_id, role, stable_id, options)?;
    let content = event_content(role, body_json);
    match sign_event(keys, BUZZ_MESSAGE_KIND, content.as_str(), &tags) {
        Ok(e) => Ok(e),
        Err(m) => Err(BuzzError::Signing(m)),
    }
}

/// The tags of a deletion of one event in a channel.
pub fn delete_tags(channel_id: &str, target_event_id: &str) -> (r: Result<Vec<Vec<String>>, BuzzError>)
    ensures
        nostr_hex_id(target_event_id@) ==> r is Ok && tag_views(r->Ok_0@) == seq![
            tag2("h"@, channel_id@),
            tag2("e"@, target_event_id@),
        ],
        !nostr_hex_id(target_event_id@) ==> r is Err && rejection(r->Err_0) == Some(
            bad_id(target_event_id@),
        ),
{
    if !event_id_accepted(target_event_id) {
        return Err(BuzzError::Rejected("invalid Nostr event ID: ".to_owned().concat(target_event_id)));
    }
    let mut tags: Vec<Vec<String>> = Vec::new();
    tags.push(text_tag("h", channel_id));
    tags.push(text_tag("e", target_event_id));
    assert(tag_views(tags@) =~= seq![tag2("h"@, channel_id@), tag2("e"@, target_event_id@)]);
    Ok(tags)
}

/// Sign a Buzz-compatible channel deletion event for a Comb-authored message.
pub fn sign_delete_event(keys: &nostr::key::Keys, channel_id: &str, target_event_id: &str) -> (r: Result<
    SignedEvent,
    BuzzError,
>)
    ensures
        !nostr_hex_id(target_event_id@) ==> r is Err && rejection(r->Err_0) == Some(
            bad_id(target_event_id@),
        ),
        nostr_hex_id(target_event_id@) ==> r is Ok || rejection(r->Err_0) is None,
        r matches Ok(e) ==> e.kind == 5 && e.content@ == Seq::<char>::empty() && tag_views(e.tags@) == seq![
            tag2("h"@, channel_id@),
            tag2("e"@, target_event_id@),
        ],
{
    let tags = delete_tags(channel_id, target_event_id)?;
    proof {
        reveal_strlit("");
    }
    match sign_event(keys, 5, "", &tags) {
        Ok(e) => Ok(e),
        Err(m) => Err(BuzzError::Signing(m)),
    }
}

/// The visibility word of a channel.
pub open spec fn visibility_text(private: bool) -> Seq<char> {
    if private {
        "private"@
    } else {
        "open"@
    }
}

/// The description given to the proof's disposable channel.
pub open spec fn proof_channel_about() -> Seq<char> {
    "Disposable That's Cool workspace for the Comb compatibility proof"@
}

/// The tags of a channel creation.
pub fn create_channel_tags(channel_id: &str, name: &str, private: bool) -> (r: Result<
    Vec<Vec<String>>,
    BuzzError,
>)
    ensures
        is_blank(name@) ==> r is Err && rejection(r->Err_0) == Some("channel name cannot be empty"@),
        !is_blank(name@) ==> r is Ok && tag_views(r->Ok_0@) == seq![
            tag2("h"@, channel_id@),
            tag2("name"@, name@),
            tag2("visibility"@, visibility_text(private)),
            tag2("channel_type"@, "stream"@),
            tag2("about"@, proof_channel_about()),
        ],
{
    if blank(name) {
        return Err(BuzzError::Rejected("channel name cannot be empty".to_owned()));
    }
    let visibility = if private {
        "private"
    } else {
        "open"
    };
    let mut tags: Vec<Vec<String>> = Vec::new();
    tags.push(text_tag("h", channel_id));
    tags.push(text_tag("name", name));
    tags.push(text_tag("visibility", visibility));
    tags.push(text_tag("channel_type", "stream"));
    tags.push(text_tag("about", "Disposable That's Cool workspace for the Comb compatibility proof"));
    assert(tag_views(tags@) =~= seq![
        tag2("h"@, channel_id@),
        tag2("name"@, name@),
        tag2("visibility"@, visibility_text(private)),
        tag2("channel_type"@, "stream"@),
        tag2("about"@, proof_channel_about()),
    ]);
    Ok(tags)
}

/// Sign a Buzz NIP-29 channel creation event.
pub fn sign_create_channel(keys: &nostr::key::Keys, channel_id: &str, name: &str, private: bool) -> (r: Result<
    SignedEvent,
    BuzzError,
>)
    ensures
        is_blank(name@) ==> r is Err && rejection(r->Err_0) == Some("channel name cannot be empty"@),
        !is_blank(name@) ==> r is Ok || rejection(r->Err_0) is None,
        r matches Ok(e) ==> e.kind == 9007 && e.content@ == Seq::<char>::empty() && tag_views(e.tags@) == seq![
            tag2("h"@, channel_id@),
            tag2("name"@, name@),
            tag2("visibility"@, visibility_text(private)),
            tag2("channel_type"@, "stream"@),
            tag2("about"@, proof_channel_about()),
        ],
{
    let tags = create_channel_tags(channel_id, name, private)?;
    proof {
        reveal_strlit("");
    }
    match sign_event(keys, 9007, "", &tags) {
        Ok(e) => Ok(e),
        Err(m) => Err(BuzzError::Signing(m)),
    }
}

/// The member roles Buzz knows.
pub open spec fn known_role(role: Seq<char>) -> bool {
    role == "owner"@ || role == "admin"@ || role == "member"@ || role == "bot"@
}

/// Why a member may not be added, if it may not.
pub open spec fn member_fault(pubkey: Seq<char>, role: Option<Seq<char>>) -> Option<Seq<char>> {
    if !nostr_hex_id(pubkey) {
        Some("invalid member public key: "@ + pubkey)
    } else if role is Some && !known_role(role->0) {
        Some("unsupported Buzz member role: "@ + role->0)
    } else {
        None
    }
}

fn is_known_role(role: &str) -> (r: bool)
    ensures
        r == known_role(role@),
{
    let owner = "owner";
    let admin = "admin";
    let member = "member";
    let bot = "bot";
    crate::snapshot::same_text(role, owner) || crate::snapshot::same_text(role, admin)
        || crate::snapshot::same_text(role, member) || crate::snapshot::same_text(role, bot)
}

/// The tags of a member addition.
pub fn add_member_tags(channel_id: &str, target_pubkey: &str, role: Option<&str>) -> (r: Result<
    Vec<Vec<String>>,
    BuzzError,
>)
    ensures
        match member_fault(
            target_pubkey@,
            match role {
                Some(x) => Some(x@),
                None => None,
            },
        ) {
            Some(m) => r is Err && rejection(r->Err_0) == Some(m),
            None => r is Ok && tag_views(r->Ok_0@) == seq![
                tag2("h"@, channel_id@),
                tag2("p"@, target_pubkey@),
            ] + match role {
                Some(x) => seq![tag2("role"@, x@)],
                None => Seq::empty(),
            },
        },
{
    if !public_key_accepted(target_pubkey) {
        return Err(BuzzError::Rejected("invalid member public key: ".to_owned().concat(target_pubkey)));
    }
    let mut tags: Vec<Vec<String>> = Vec::new();
    tags.push(text_tag("h", channel_id));
    tags.push(text_tag("p", target_pubkey));
    let ghost head = tag_views(tags@);
    assert(head =~= seq![tag2("h"@, channel_id@), tag2("p"@, target_pubkey@)]);
    match role {
        Some(x) => {
            if !is_known_role(x) {
                return Err(BuzzError::Rejected("unsupported Buzz member role: ".to_owned().concat(x)));
            }
            tags.push(text_tag("role", x));
            assert(tag_views(tags@) =~= head + seq![tag2("role"@, x@)]);
        },
        None => {
            assert(tag_views(tags@) =~= head + Seq::<Seq<Seq<char>>>::empty());
        },
    }
    Ok(tags)
}

/// Sign a Buzz NIP-29 member-add event.
pub fn sign_add_member(
    owner_keys: &nostr::key::Keys,
    channel_id: &str,
    target_pubkey: &str,
    role: Option<&str>,
) -> (r: Result<SignedEvent, BuzzError>)
    ensures
        member_fault(
            target_pubkey@,
            match role {
                Some(x) => Some(x@),
                None => None,
            },
        ) matches Some(m) ==> r is Err && rejection(r->Err_0) == Some(m),
        member_fault(
            target_pubkey@,
            match role {
                Some(x) => Some(x@),
                None => None,
            },
        ) is None ==> r is Ok || rejection(r->Err_0) is None,
        r matches Ok(e) ==> e.kind == 9000 && e.content@ == Seq::<char>::empty() && tag_views(e.tags@) == seq![
            tag2("h"@, channel_id@),
            tag2("p"@, target_pubkey@),
        ] + match role {
            Some(x) => seq![tag2("role"@, x@)],
            None => Seq::empty(),
        },
{
    let tags = add_member_tags(channel_id, target_pubkey, role)?;
    proof {
        reveal_strlit("");
    }
    match sign_event(owner_keys, 9000, "", &tags) {
        Ok(e) => Ok(e),
        Err(m) => Err(BuzzError::Signing(m)),
    }
}

/// A character lowered if it is an ASCII capital.
pub open spec fn ascii_lower(c: char) -> char {
    if 'A' <= c <= 'Z' {
        ((c as u32) + 32) as char
    } else {
        c
    }
}

/// A character with a space turned into a dash.
pub open spec fn dash_space(c: char) -> char {
    if c == ' ' {
        '-'
    } else {
        c
    }
}

/// A display name in lower case with spaces turned into dashes.
pub open spec fn slug(s: Seq<char>) -> Seq<char> {
    s.map_values(|c: char| dash_space(ascii_lower(c)))
}

/// `str::to_ascii_lowercase`: ASCII capitals lowered, every other character kept.
#[verifier::external_body]
fn to_ascii_lowercase(s: &str) -> (r: String)
    ensures
        r@ == s@.map_values(|c: char| ascii_lower(c)),
{
    s.to_ascii_lowercase()
}

/// `str::replace` of the character `' '` by `"-"`: each space becomes a dash.
#[verifier::external_body]
fn spaces_to_dashes(s: &str) -> (r: String)
    ensures
        r@ == s@.map_values(|c: char| dash_space(c)),
{
    s.replace(' ', "-")
}

/// A display name in lower case with spaces turned into dashes.
pub fn profile_name(display_name: &str) -> (r: String)
    ensures
        r@ == slug(display_name@),
{
    let lower = to_ascii_lowercase(display_name);
    let r = spaces_to_dashes(lower.as_str());
    assert(r@ =~= slug(display_name@));
    r
}

/// What `serde_json::to_string` makes of the object with members
/// `display_name`, `name` and `about` holding these strings.
pub uninterp spec fn profile_json(display_name: Seq<char>, name: Seq<char>, about: Seq<char>) -> Seq<char>;

/// `serde_json::to_string` of a `serde_json::Map` with the members
/// `display_name`, `name` and `about`; the text is named by `profile_json`.
#[verifier::external_body]
fn profile_content(display_name: &str, name: &str, about: &str) -> (r: String)
    ensures
        r@ == profile_json(display_name@, name@, about@),
{
    let mut map = serde_json::Map::new();
    map.insert("display_name".to_owned(), serde_json::Value::String(display_name.to_owned()));
    map.insert("name".to_owned(), serde_json::Value::String(name.to_owned()));
    map.insert("about".to_owned(), serde_json::Value::String(about.to_owned()));
    serde_json::Value::Object(map).to_string()
}

/// The content of a profile event.
pub fn profile_event_content(display_name: &str, about: &str) -> (r: Result<String, BuzzError>)
    ensures
        is_blank(display_name@) ==> r is Err && rejection(r->Err_0) == Some(
            "profile display name cannot be empty"@,
        ),
        !is_blank(display_name@) ==> r is Ok && r->Ok_0@ == profile_json(
            display_name@,
            slug(display_name@),
            about@,
        ),
{
    if blank(display_name) {
        return Err(BuzzError::Rejected("profile display name cannot be empty".to_owned()));
    }
    let name = profile_name(display_name);
    Ok(profile_content(display_name, name.as_str(), about))
}

/// Sign a minimal Nostr profile so a disposable proof identity is legible in Buzz.
pub fn sign_profile(keys: &nostr::key::Keys, display_name: &str, about: &str) -> (r: Result<
    SignedEvent,
    BuzzError,
>)
    ensures
        is_blank(display_name@) ==> r is Err && rejection(r->Err_0) == Some(
            "profile display name cannot be empty"@,
        ),
        !is_blank(display_name@) ==> r is Ok || rejection(r->Err_0) is None,
        r matches Ok(e) ==> e.kind == 0 && e.tags@.len() == 0 && e.content@ == profile_json(
            display_name@,
            slug(display_name@),
            about@,
        ),
{
    let content = profile_event_content(display_name, about)?;
    let tags: Vec<Vec<String>> = Vec::new();
    let ghost empty = tag_views(tags@);
    assert(empty.len() == 0);
    match sign_event(keys, 0, content.as_str(), &tags) {
        Ok(e) => Ok(e),
        Err(m) => Err(BuzzError::Signing(m)),
    }
}

/// Sign an ordinary Buzz channel message used as primary evidence.
pub fn sign_channel_message(keys: &nostr::key::Keys, channel_id: &str, content: &str) -> (r: Result<
    SignedEvent,
    BuzzError,
>)
    ensures
        is_blank(content@) ==> r is Err && rejection(r->Err_0) == Some(
            "channel message cannot be empty"@,
        ),
        !is_blank(content@) ==> r is Ok || rejection(r->Err_0) is None,
        r matches Ok(e) ==> e.kind == BUZZ_MESSAGE_KIND && e.content@ == content@ && tag_views(e.tags@) == seq![
            tag2("h"@, channel_id@),
        ],
{
    if blank(content) {
        return Err(BuzzError::Rejected("channel message cannot be empty".to_owned()));
    }
    let mut tags: Vec<Vec<String>> = Vec::new();
    tags.push(text_tag("h", channel_id));
    assert(tag_views(tags@) =~= seq![tag2("h"@, channel_id@)]);
    match sign_event(keys, BUZZ_MESSAGE_KIND, content, &tags) {
        Ok(e) => Ok(e),
        Err(m) => Err(BuzzError::Signing(m)),
    }
}

} // verus!
