//! Evidence references: the exact signed source events a claim rests on.

use vstd::prelude::*;

use crate::error::{
    invalid, invalid_fault, or_else, require_hex_32, require_non_empty, CoreError, Fault, Validate,
};
use crate::digest::is_hex_32;
use crate::json::{json_int, json_str, lit, push_json_int, push_json_str, push_json_uint, push_lit, ToJson};
use crate::order::SortKey;
use crate::text::{chars_lt, is_blank, lemma_chars_lt_order, str_order, Rank};

verus! {

/// The fault of blank text in `field`.
pub open spec fn blank_fault(field: &str, s: Seq<char>) -> Option<Fault> {
    if is_blank(s) {
        Some(invalid_fault(field, "must not be empty"))
    } else {
        None
    }
}

/// The fault of text in `field` that is not 32 bytes of hexadecimal.
pub open spec fn hex_fault(field: &str, s: Seq<char>) -> Option<Fault> {
    if !is_hex_32(s) {
        Some(invalid_fault(field, "must be 32 bytes encoded as 64 hexadecimal characters"))
    } else {
        None
    }
}

/// How a piece of evidence bears on a claim.
#[derive(Debug, Clone, Copy, PartialEq, Eq, Structural)]
pub enum EvidenceRole {
    Supports,
    Contradicts,
    Context,
}

/// Position of a role in declaration order.
pub open spec fn role_index(r: EvidenceRole) -> int {
    match r {
        EvidenceRole::Supports => 0,
        EvidenceRole::Contradicts => 1,
        EvidenceRole::Context => 2,
    }
}

/// The wire name of a role.
pub open spec fn role_json(r: EvidenceRole) -> Seq<u8> {
    match r {
        EvidenceRole::Supports => lit("\"supports\""),
        EvidenceRole::Contradicts => lit("\"contradicts\""),
        EvidenceRole::Context => lit("\"context\""),
    }
}

/// Which part of a source event is cited.
#[derive(Debug, Clone, Copy, PartialEq, Eq, Structural)]
pub enum EvidenceLocator {
    WholeEvent,
    Utf8ByteSpan { start: u64, end: u64 },
    MediaTimeRange { start_ms: u64, end_ms: u64 },
}

/// Derived order of locators: by variant, then by fields.
pub open spec fn locator_lt(a: EvidenceLocator, b: EvidenceLocator) -> bool {
    match (a, b) {
        (EvidenceLocator::WholeEvent, EvidenceLocator::WholeEvent) => false,
        (EvidenceLocator::WholeEvent, _) => true,
        (EvidenceLocator::Utf8ByteSpan { .. }, EvidenceLocator::WholeEvent) => false,
        (
            EvidenceLocator::Utf8ByteSpan { start: s1, end: e1 },
            EvidenceLocator::Utf8ByteSpan { start: s2, end: e2 },
        ) => s1 < s2 || (s1 == s2 && e1 < e2),
        (EvidenceLocator::Utf8ByteSpan { .. }, EvidenceLocator::MediaTimeRange { .. }) => true,
        (
            EvidenceLocator::MediaTimeRange { start_ms: s1, end_ms: e1 },
            EvidenceLocator::MediaTimeRange { start_ms: s2, end_ms: e2 },
        ) => s1 < s2 || (s1 == s2 && e1 < e2),
        (EvidenceLocator::MediaTimeRange { .. }, _) => false,
    }
}

/// The JSON of a locator, tagged by `type`.
pub open spec fn locator_json(l: EvidenceLocator) -> Seq<u8> {
    match l {
        EvidenceLocator::WholeEvent => lit("{\"type\":\"whole_event\"}"),
        EvidenceLocator::Utf8ByteSpan { start, end } => lit("{\"type\":\"utf8_byte_span\",\"start\":")
            + json_int(start as int) + lit(",\"end\":") + json_int(end as int) + lit("}"),
        EvidenceLocator::MediaTimeRange { start_ms, end_ms } => lit(
            "{\"type\":\"media_time_range\",\"start_ms\":",
        ) + json_int(start_ms as int) + lit(",\"end_ms\":") + json_int(end_ms as int) + lit("}"),
    }
}

/// The rule a locator breaks, if any: spans and ranges must be non-empty.
pub open spec fn locator_fault(l: EvidenceLocator) -> Option<Fault> {
    match l {
        EvidenceLocator::WholeEvent => None,
        EvidenceLocator::Utf8ByteSpan { start, end } => if start >= end {
            Some(invalid_fault("locator", "UTF-8 byte span must be non-empty"))
        } else {
            None
        },
        EvidenceLocator::MediaTimeRange { start_ms, end_ms } => if start_ms >= end_ms {
            Some(invalid_fault("locator", "media time range must be non-empty"))
        } else {
            None
        },
    }
}

impl View for EvidenceLocator {
    type V = EvidenceLocator;

    open spec fn view(&self) -> EvidenceLocator {
        *self
    }
}

impl Validate for EvidenceLocator {
    open spec fn first_fault(v: EvidenceLocator) -> Option<Fault> {
        locator_fault(v)
    }

    fn validate(&self) -> (r: Result<(), CoreError>) {
        match self {
            EvidenceLocator::WholeEvent => Ok(()),
            EvidenceLocator::Utf8ByteSpan { start, end } => {
                if *start >= *end {
                    return Err(invalid("locator", "UTF-8 byte span must be non-empty"));
                }
                Ok(())
            },
            EvidenceLocator::MediaTimeRange { start_ms, end_ms } => {
                if *start_ms >= *end_ms {
                    return Err(invalid("locator", "media time range must be non-empty"));
                }
                Ok(())
            },
        }
    }
}

fn write_locator(l: &EvidenceLocator, buf: &mut Vec<u8>)
    ensures
        final(buf)@ == old(buf)@ + locator_json(*l),
{
    let mut out: Vec<u8> = Vec::new();
    match l {
        EvidenceLocator::WholeEvent => {
            push_lit(&mut out, "{\"type\":\"whole_event\"}");
        },
        EvidenceLocator::Utf8ByteSpan { start, end } => {
            push_lit(&mut out, "{\"type\":\"utf8_byte_span\",\"start\":");
            push_json_uint(&mut out, *start);
            push_lit(&mut out, ",\"end\":");
            push_json_uint(&mut out, *end);
            push_lit(&mut out, "}");
        },
        EvidenceLocator::MediaTimeRange { start_ms, end_ms } => {
            push_lit(&mut out, "{\"type\":\"media_time_range\",\"start_ms\":");
            push_json_uint(&mut out, *start_ms);
            push_lit(&mut out, ",\"end_ms\":");
            push_json_uint(&mut out, *end_ms);
            push_lit(&mut out, "}");
        },
    }
    assert(out@ =~= locator_json(*l));
    buf.append(&mut out);
}

/// A reference to one signed source event in one channel.
#[derive(Debug, Clone, PartialEq, Eq)]
pub struct EvidenceRef {
    pub relay: String,
    pub community: String,
    pub channel_id: String,
    pub event_id: String,
    pub kind: u32,
    pub author: String,
    pub created_at: i64,
    pub role: EvidenceRole,
    pub content_digest: String,
    pub locator: EvidenceLocator,
}

/// The content of an evidence reference.
pub struct EvidenceRefV {
    pub relay: Seq<char>,
    pub community: Seq<char>,
    pub channel_id: Seq<char>,
    pub event_id: Seq<char>,
    pub kind: u32,
    pub author: Seq<char>,
    pub created_at: i64,
    pub role: EvidenceRole,
    pub content_digest: Seq<char>,
    pub locator: EvidenceLocator,
}

impl View for EvidenceRef {
    type V = EvidenceRefV;

    open spec fn view(&self) -> EvidenceRefV {
        EvidenceRefV {
            relay: self.relay@,
            community: self.community@,
            channel_id: self.channel_id@,
            event_id: self.event_id@,
            kind: self.kind,
            author: self.author@,
            created_at: self.created_at,
            role: self.role,
            content_digest: self.content_digest@,
            locator: self.locator,
        }
    }
}

/// The derived order of evidence references: field by field, in declaration order.
pub open spec fn evidence_lt(a: EvidenceRefV, b: EvidenceRefV) -> bool {
    if a.relay != b.relay {
        chars_lt(a.relay, b.relay)
    } else if a.community != b.community {
        chars_lt(a.community, b.community)
    } else if a.channel_id != b.channel_id {
        chars_lt(a.channel_id, b.channel_id)
    } else if a.event_id != b.event_id {
        chars_lt(a.event_id, b.event_id)
    } else if a.kind != b.kind {
        a.kind < b.kind
    } else if a.author != b.author {
        chars_lt(a.author, b.author)
    } else if a.created_at != b.created_at {
        a.created_at < b.created_at
    } else if a.role != b.role {
        role_index(a.role) < role_index(b.role)
    } else if a.content_digest != b.content_digest {
        chars_lt(a.content_digest, b.content_digest)
    } else {
        locator_lt(a.locator, b.locator)
    }
}

/// The JSON of an evidence reference.
pub open spec fn evidence_json(e: EvidenceRefV) -> Seq<u8> {
    lit("{\"relay\":") + json_str(e.relay) + lit(",\"community\":") + json_str(e.community) + lit(
        ",\"channelId\":",
    ) + json_str(e.channel_id) + lit(",\"eventId\":") + json_str(e.event_id) + lit(",\"kind\":")
        + json_int(e.kind as int) + lit(",\"author\":") + json_str(e.author) + lit(
        ",\"createdAt\":",
    ) + json_int(e.created_at as int) + lit(",\"role\":") + role_json(e.role) + lit(
        ",\"contentDigest\":",
    ) + json_str(e.content_digest) + lit(",\"locator\":") + locator_json(e.locator) + lit("}")
}

/// The first rule an evidence reference breaks, in check order.
pub open spec fn evidence_fault(e: EvidenceRefV) -> Option<Fault> {
    or_else(
        blank_fault("relay", e.relay),
        or_else(
            blank_fault("community", e.community),
            or_else(
                blank_fault("channelId", e.channel_id),
                or_else(
                    hex_fault("eventId", e.event_id),
                    or_else(
                        hex_fault("author", e.author),
                        or_else(hex_fault("contentDigest", e.content_digest), locator_fault(e.locator)),
                    ),
                ),
            ),
        ),
    )
}

fn role_rank(r: EvidenceRole) -> (n: u8)
    ensures
        n as int == role_index(r),
{
    match r {
        EvidenceRole::Supports => 0,
        EvidenceRole::Contradicts => 1,
        EvidenceRole::Context => 2,
    }
}

fn u64_order(a: u64, b: u64) -> (r: Rank)
    ensures
        r == Rank::Before <==> a < b,
        r == Rank::After <==> b < a,
        r == Rank::Same <==> a == b,
{
    if a < b {
        Rank::Before
    } else if b < a {
        Rank::After
    } else {
        Rank::Same
    }
}

fn locator_order(a: &EvidenceLocator, b: &EvidenceLocator) -> (r: Rank)
    ensures
        r == Rank::Before <==> locator_lt(*a, *b),
        r == Rank::After <==> locator_lt(*b, *a),
        r == Rank::Same <==> *a == *b,
{
    match (a, b) {
        (EvidenceLocator::WholeEvent, EvidenceLocator::WholeEvent) => Rank::Same,
        (EvidenceLocator::WholeEvent, _) => Rank::Before,
        (_, EvidenceLocator::WholeEvent) => Rank::After,
        (
            EvidenceLocator::Utf8ByteSpan { start: s1, end: e1 },
            EvidenceLocator::Utf8ByteSpan { start: s2, end: e2 },
        ) => {
            let first = u64_order(*s1, *s2);
            if first == Rank::Same {
                u64_order(*e1, *e2)
            } else {
                first
            }
        },
        (EvidenceLocator::Utf8ByteSpan { .. }, EvidenceLocator::MediaTimeRange { .. }) => Rank::Before,
        (EvidenceLocator::MediaTimeRange { .. }, EvidenceLocator::Utf8ByteSpan { .. }) => Rank::After,
        (
            EvidenceLocator::MediaTimeRange { start_ms: s1, end_ms: e1 },
            EvidenceLocator::MediaTimeRange { start_ms: s2, end_ms: e2 },
        ) => {
            let first = u64_order(*s1, *s2);
            if first == Rank::Same {
                u64_order(*e1, *e2)
            } else {
                first
            }
        },
    }
}

impl EvidenceRef {
    /// A copy with the same content.
    pub fn duplicate(&self) -> (r: EvidenceRef)
        ensures
            r@ == self@,
    {
        EvidenceRef {
            relay: self.relay.clone(),
            community: self.community.clone(),
            channel_id: self.channel_id.clone(),
            event_id: self.event_id.clone(),
            kind: self.kind,
            author: self.author.clone(),
            created_at: self.created_at,
            role: self.role,
            content_digest: self.content_digest.clone(),
            locator: self.locator,
        }
    }
}

impl SortKey for EvidenceRef {
    type Key = EvidenceRefV;

    open spec fn key(v: EvidenceRefV) -> EvidenceRefV {
        v
    }

    open spec fn key_lt(a: EvidenceRefV, b: EvidenceRefV) -> bool {
        evidence_lt(a, b)
    }

    proof fn lemma_key_order(a: EvidenceRefV, b: EvidenceRefV, c: EvidenceRefV) {
        lemma_chars_lt_order(a.relay, b.relay, c.relay);
        lemma_chars_lt_order(a.community, b.community, c.community);
        lemma_chars_lt_order(a.channel_id, b.channel_id, c.channel_id);
        lemma_chars_lt_order(a.event_id, b.event_id, c.event_id);
        lemma_chars_lt_order(a.author, b.author, c.author);
        lemma_chars_lt_order(a.content_digest, b.content_digest, c.content_digest);
        lemma_chars_lt_order(a.relay, c.relay, b.relay);
        lemma_chars_lt_order(a.community, c.community, b.community);
        lemma_chars_lt_order(a.channel_id, c.channel_id, b.channel_id);
        lemma_chars_lt_order(a.event_id, c.event_id, b.event_id);
        lemma_chars_lt_order(a.author, c.author, b.author);
        lemma_chars_lt_order(a.content_digest, c.content_digest, b.content_digest);
        lemma_chars_lt_order(b.relay, a.relay, c.relay);
        lemma_chars_lt_order(b.community, a.community, c.community);
        lemma_chars_lt_order(b.channel_id, a.channel_id, c.channel_id);
        lemma_chars_lt_order(b.event_id, a.event_id, c.event_id);
        lemma_chars_lt_order(b.author, a.author, c.author);
        lemma_chars_lt_order(b.content_digest, a.content_digest, c.content_digest);
    }

    fn key_rank(&self, other: &EvidenceRef) -> (r: Rank) {
        let r = str_order(self.relay.as_str(), other.relay.as_str());
        if r != Rank::Same {
            return r;
        }
        let r = str_order(self.community.as_str(), other.community.as_str());
        if r != Rank::Same {
            return r;
        }
        let r = str_order(self.channel_id.as_str(), other.channel_id.as_str());
        if r != Rank::Same {
            return r;
        }
        let r = str_order(self.event_id.as_str(), other.event_id.as_str());
        if r != Rank::Same {
            return r;
        }
        let r = u64_order(self.kind as u64, other.kind as u64);
        if r != Rank::Same {
            return r;
        }
        let r = str_order(self.author.as_str(), other.author.as_str());
        if r != Rank::Same {
            return r;
        }
        let r = if self.created_at < other.created_at {
            Rank::Before
        } else if other.created_at < self.created_at {
            Rank::After
        } else {
            Rank::Same
        };
        if r != Rank::Same {
            return r;
        }
        let r = u64_order(role_rank(self.role) as u64, role_rank(other.role) as u64);
        if r != Rank::Same {
            return r;
        }
        let r = str_order(self.content_digest.as_str(), other.content_digest.as_str());
        if r != Rank::Same {
            return r;
        }
        locator_order(&self.locator, &other.locator)
    }
}

impl ToJson for EvidenceRef {
    open spec fn json_of(v: EvidenceRefV) -> Seq<u8> {
        evidence_json(v)
    }

    fn write_json(&self, buf: &mut Vec<u8>) {
        let mut out: Vec<u8> = Vec::new();
        push_lit(&mut out, "{\"relay\":");
        assert(out@ =~= lit("{\"relay\":"));
        push_json_str(&mut out, self.relay.as_str());
        push_lit(&mut out, ",\"community\":");
        push_json_str(&mut out, self.community.as_str());
        push_lit(&mut out, ",\"channelId\":");
        push_json_str(&mut out, self.channel_id.as_str());
        push_lit(&mut out, ",\"eventId\":");
        push_json_str(&mut out, self.event_id.as_str());
        push_lit(&mut out, ",\"kind\":");
        push_json_uint(&mut out, self.kind as u64);
        push_lit(&mut out, ",\"author\":");
        push_json_str(&mut out, self.author.as_str());
        push_lit(&mut out, ",\"createdAt\":");
        push_json_int(&mut out, self.created_at);
        push_lit(&mut out, ",\"role\":");
        match self.role {
            EvidenceRole::Supports => push_lit(&mut out, "\"supports\""),
            EvidenceRole::Contradicts => push_lit(&mut out, "\"contradicts\""),
            EvidenceRole::Context => push_lit(&mut out, "\"context\""),
        }
        push_lit(&mut out, ",\"contentDigest\":");
        push_json_str(&mut out, self.content_digest.as_str());
        push_lit(&mut out, ",\"locator\":");
        write_locator(&self.locator, &mut out);
        push_lit(&mut out, "}");
        buf.append(&mut out);
    }
}

impl Validate for EvidenceRef {
    open spec fn first_fault(v: EvidenceRefV) -> Option<Fault> {
        evidence_fault(v)
    }

    fn validate(&self) -> (r: Result<(), CoreError>) {
        require_non_empty("relay", self.relay.as_str())?;
        require_non_empty("community", self.community.as_str())?;
        require_non_empty("channelId", self.channel_id.as_str())?;
        require_hex_32("eventId", self.event_id.as_str())?;
        require_hex_32("author", self.author.as_str())?;
        require_hex_32("contentDigest", self.content_digest.as_str())?;
        self.locator.validate()
    }
}

} // verus!
