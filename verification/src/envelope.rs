//! Signed event envelopes, the events the engine folds, and the engine's errors.

use vstd::prelude::*;

use crate::digest::{jcs_sha256, digest_of, hex_32, is_hex_32};
use crate::error::{fault_of, CoreError, Fault};
use crate::invalidation::{Invalidation, InvalidationV};
use crate::keyed::Keyed;
use crate::order::SortKey;
use crate::text::{chars_lt, lemma_chars_lt_order, str_order, Rank};
use crate::json::{json_int, json_str, lit, push_json_int, push_json_str, push_lit, ToJson};
use crate::proposal::{Proposal, ProposalV};
use crate::ratify::{status_name, status_text, RatificationStatus};
use crate::record::{MemoryRecord, MemoryRecordV};
use crate::review::{Review, ReviewV};

verus! {

/// Why the engine refused an event or a query.
#[derive(Debug, Clone, PartialEq, Eq)]
pub enum EngineError {
    Core(CoreError),
    InvalidEnvelope(String),
    EventIdCollision(String),
    UnknownPolicy(String),
    ProposalNotFound(String),
    RecordNotFound(String),
    ReviewNotFound(String),
    ProposalNotRatified(RatificationStatus),
    ReferenceMismatch(String),
    SourceUnavailable(String),
    SupersessionCycle,
    UnknownSupersededRecord(String),
}

/// What an engine error says, apart from a serializer's message.
pub enum EngineFault {
    Core(Fault),
    InvalidEnvelope(Seq<char>),
    EventIdCollision(Seq<char>),
    UnknownPolicy(Seq<char>),
    ProposalNotFound(Seq<char>),
    RecordNotFound(Seq<char>),
    ReviewNotFound(Seq<char>),
    ProposalNotRatified(RatificationStatus),
    ReferenceMismatch(Seq<char>),
    SourceUnavailable(Seq<char>),
    SupersessionCycle,
    UnknownSupersededRecord(Seq<char>),
}

/// The fault an engine error reports.
pub open spec fn engine_fault(e: EngineError) -> EngineFault {
    match e {
        EngineError::Core(c) => EngineFault::Core(fault_of(c)),
        EngineError::InvalidEnvelope(m) => EngineFault::InvalidEnvelope(m@),
        EngineError::EventIdCollision(m) => EngineFault::EventIdCollision(m@),
        EngineError::UnknownPolicy(m) => EngineFault::UnknownPolicy(m@),
        EngineError::ProposalNotFound(m) => EngineFault::ProposalNotFound(m@),
        EngineError::RecordNotFound(m) => EngineFault::RecordNotFound(m@),
        EngineError::ReviewNotFound(m) => EngineFault::ReviewNotFound(m@),
        EngineError::ProposalNotRatified(s) => EngineFault::ProposalNotRatified(s),
        EngineError::ReferenceMismatch(m) => EngineFault::ReferenceMismatch(m@),
        EngineError::SourceUnavailable(m) => EngineFault::SourceUnavailable(m@),
        EngineError::SupersessionCycle => EngineFault::SupersessionCycle,
        EngineError::UnknownSupersededRecord(m) => EngineFault::UnknownSupersededRecord(m@),
    }
}

/// The fault of a result that failed.
pub open spec fn engine_fault_of<T>(r: Result<T, EngineError>) -> EngineFault {
    engine_fault(r->Err_0)
}

/// An engine check's result agrees with the first fault found, if any.
pub open spec fn engine_reports(r: Result<(), EngineError>, f: Option<EngineFault>) -> bool {
    match f {
        None => r is Ok,
        Some(fault) => r is Err && engine_fault(r->Err_0) == fault,
    }
}

/// The first fault of two chained engine checks.
pub open spec fn engine_or_else(first: Option<EngineFault>, rest: Option<EngineFault>) -> Option<
    EngineFault,
> {
    match first {
        Some(f) => Some(f),
        None => rest,
    }
}

/// A core fault, lifted into the engine's faults.
pub open spec fn lift_fault(f: Option<Fault>) -> Option<EngineFault> {
    match f {
        Some(c) => Some(EngineFault::Core(c)),
        None => None,
    }
}

impl EngineError {
    /// The error's text, as its `Display` would write it.
    pub fn message(&self) -> (r: String)
        ensures
            r@ == match self {
                EngineError::Core(c) => match c {
                    CoreError::Canonical(m) => "canonical serialization failed: "@ + m@,
                    CoreError::Invalid { field, reason } => "invalid "@ + field@ + ": "@ + reason@,
                },
                EngineError::InvalidEnvelope(m) => "invalid event envelope: "@ + m@,
                EngineError::EventIdCollision(m) => "event id collision for "@ + m@,
                EngineError::UnknownPolicy(m) => "unknown ratification policy "@ + m@,
                EngineError::ProposalNotFound(m) => "proposal not found: "@ + m@,
                EngineError::RecordNotFound(m) => "record not found: "@ + m@,
                EngineError::ReviewNotFound(m) => "review not found: "@ + m@,
                EngineError::ProposalNotRatified(s) => "proposal is not ratified: "@ + status_text(*s),
                EngineError::ReferenceMismatch(m) => "payload reference mismatch: "@ + m@,
                EngineError::SourceUnavailable(m) => "source evidence is unavailable: "@ + m@,
                EngineError::SupersessionCycle => "record supersession cycle detected"@,
                EngineError::UnknownSupersededRecord(m) => "record supersedes an unknown record: "@
                    + m@,
            },
    {
        match self {
            EngineError::Core(c) => c.message(),
            EngineError::InvalidEnvelope(m) => "invalid event envelope: ".to_owned().concat(
                m.as_str(),
            ),
            EngineError::EventIdCollision(m) => "event id collision for ".to_owned().concat(
                m.as_str(),
            ),
            EngineError::UnknownPolicy(m) => "unknown ratification policy ".to_owned().concat(
                m.as_str(),
            ),
            EngineError::ProposalNotFound(m) => "proposal not found: ".to_owned().concat(
                m.as_str(),
            ),
            EngineError::RecordNotFound(m) => "record not found: ".to_owned().concat(m.as_str()),
            EngineError::ReviewNotFound(m) => "review not found: ".to_owned().concat(m.as_str()),
            EngineError::ProposalNotRatified(s) => "proposal is not ratified: ".to_owned().concat(
                status_name(*s),
            ),
            EngineError::ReferenceMismatch(m) => "payload reference mismatch: ".to_owned().concat(
                m.as_str(),
            ),
            EngineError::SourceUnavailable(m) => "source evidence is unavailable: ".to_owned().concat(
                m.as_str(),
            ),
            EngineError::SupersessionCycle => "record supersession cycle detected".to_owned(),
            EngineError::UnknownSupersededRecord(m) => "record supersedes an unknown record: ".to_owned().concat(
                m.as_str(),
            ),
        }
    }
}

/// Lift a core result into an engine result.
pub fn core_result(r: Result<(), CoreError>) -> (out: Result<(), EngineError>)
    ensures
        match r {
            Ok(()) => out is Ok,
            Err(e) => out is Err && engine_fault(out->Err_0) == EngineFault::Core(fault_of(e)),
        },
{
    match r {
        Ok(()) => Ok(()),
        Err(e) => Err(EngineError::Core(e)),
    }
}

/// The text of an envelope field that is not 32 bytes of hexadecimal.
pub open spec fn hex_reason(field: &str) -> Seq<char> {
    field@ + " must be 32 bytes encoded as 64 hexadecimal characters"@
}

/// The fault of an envelope field that is not 32 bytes of hexadecimal.
pub open spec fn envelope_hex_fault(field: &str, value: Seq<char>) -> Option<EngineFault> {
    if !is_hex_32(value) {
        Some(EngineFault::InvalidEnvelope(hex_reason(field)))
    } else {
        None
    }
}

/// Reject an envelope field that is not 32 bytes encoded as 64 hexadecimal digits.
fn require_hex_32(field: &str, value: &str) -> (r: Result<(), EngineError>)
    ensures
        engine_reports(r, envelope_hex_fault(field, value@)),
{
    if !hex_32(value) {
        return Err(
            EngineError::InvalidEnvelope(
                field.to_owned().concat(" must be 32 bytes encoded as 64 hexadecimal characters"),
            ),
        );
    }
    Ok(())
}

/// A signed event carrying a payload.
#[derive(Debug, Clone, PartialEq, Eq)]
pub struct EventEnvelope<T> {
    pub event_id: String,
    pub author: String,
    pub created_at: i64,
    pub payload: T,
}

/// The content of an envelope.
pub struct EnvelopeV<P> {
    pub event_id: Seq<char>,
    pub author: Seq<char>,
    pub created_at: i64,
    pub payload: P,
}

impl<T: View> View for EventEnvelope<T> {
    type V = EnvelopeV<T::V>;

    open spec fn view(&self) -> EnvelopeV<T::V> {
        EnvelopeV {
            event_id: self.event_id@,
            author: self.author@,
            created_at: self.created_at,
            payload: self.payload@,
        }
    }
}

/// The first fault of an envelope's signature fields.
pub open spec fn envelope_fault<P>(e: EnvelopeV<P>) -> Option<EngineFault> {
    engine_or_else(envelope_hex_fault("eventId", e.event_id), envelope_hex_fault("author", e.author))
}

/// The JSON of an envelope around a payload's JSON.
pub open spec fn envelope_json(e_id: Seq<char>, author: Seq<char>, created_at: i64, payload: Seq<u8>) -> Seq<u8> {
    lit("{\"eventId\":") + json_str(e_id) + lit(",\"author\":") + json_str(author) + lit(
        ",\"createdAt\":",
    ) + json_int(created_at as int) + lit(",\"payload\":") + payload + lit("}")
}

impl<T: View> EventEnvelope<T> {
    /// Check that the event id and the author are 32 bytes of hexadecimal.
    pub fn validate_envelope(&self) -> (r: Result<(), EngineError>)
        ensures
            engine_reports(r, envelope_fault(self@)),
    {
        require_hex_32("eventId", self.event_id.as_str())?;
        require_hex_32("author", self.author.as_str())?;
        Ok(())
    }
}

impl<T: ToJson> EventEnvelope<T> {
    fn write_envelope_json(&self, buf: &mut Vec<u8>)
        ensures
            final(buf)@ == old(buf)@ + envelope_json(
                self.event_id@,
                self.author@,
                self.created_at,
                T::json_of(self.payload@),
            ),
    {
        let ghost start = buf@;
        push_lit(buf, "{\"eventId\":");
        push_json_str(buf, self.event_id.as_str());
        push_lit(buf, ",\"author\":");
        push_json_str(buf, self.author.as_str());
        push_lit(buf, ",\"createdAt\":");
        push_json_int(buf, self.created_at);
        push_lit(buf, ",\"payload\":");
        self.payload.write_json(buf);
        push_lit(buf, "}");
        assert(buf@ =~= start + envelope_json(
            self.event_id@,
            self.author@,
            self.created_at,
            T::json_of(self.payload@),
        ));
    }
}

impl<T: View> SortKey for EventEnvelope<T> {
    type Key = Seq<char>;

    open spec fn key(v: EnvelopeV<T::V>) -> Seq<char> {
        v.event_id
    }

    open spec fn key_lt(a: Seq<char>, b: Seq<char>) -> bool {
        chars_lt(a, b)
    }

    proof fn lemma_key_order(a: Seq<char>, b: Seq<char>, c: Seq<char>) {
        lemma_chars_lt_order(a, b, c);
    }

    fn key_rank(&self, other: &EventEnvelope<T>) -> (r: Rank) {
        str_order(self.event_id.as_str(), other.event_id.as_str())
    }
}

impl<T: View> Keyed for EventEnvelope<T> {
    fn key_str(&self) -> (r: &str) {
        self.event_id.as_str()
    }
}

/// The observation that a source event was deleted.
#[derive(Debug, Clone, PartialEq, Eq)]
pub struct SourceDeletion {
    pub deletion_event_id: String,
    pub source_event_id: String,
    pub author: String,
    pub observed_at: i64,
}

/// The content of a deletion observation.
pub struct SourceDeletionV {
    pub deletion_event_id: Seq<char>,
    pub source_event_id: Seq<char>,
    pub author: Seq<char>,
    pub observed_at: i64,
}

impl View for SourceDeletion {
    type V = SourceDeletionV;

    open spec fn view(&self) -> SourceDeletionV {
        SourceDeletionV {
            deletion_event_id: self.deletion_event_id@,
            source_event_id: self.source_event_id@,
            author: self.author@,
            observed_at: self.observed_at,
        }
    }
}

/// The first fault of a deletion observation.
pub open spec fn deletion_fault(d: SourceDeletionV) -> Option<EngineFault> {
    engine_or_else(
        envelope_hex_fault("deletionEventId", d.deletion_event_id),
        engine_or_else(
            envelope_hex_fault("sourceEventId", d.source_event_id),
            envelope_hex_fault("author", d.author),
        ),
    )
}

/// The JSON of a deletion observation.
pub open spec fn deletion_json(d: SourceDeletionV) -> Seq<u8> {
    lit("{\"deletionEventId\":") + json_str(d.deletion_event_id) + lit(",\"sourceEventId\":")
        + json_str(d.source_event_id) + lit(",\"author\":") + json_str(d.author) + lit(
        ",\"observedAt\":",
    ) + json_int(d.observed_at as int) + lit("}")
}

impl SourceDeletion {
    /// Check that its three identifiers are 32 bytes of hexadecimal.
    pub fn validate(&self) -> (r: Result<(), EngineError>)
        ensures
            engine_reports(r, deletion_fault(self@)),
    {
        require_hex_32("deletionEventId", self.deletion_event_id.as_str())?;
        require_hex_32("sourceEventId", self.source_event_id.as_str())?;
        require_hex_32("author", self.author.as_str())
    }

    fn write_json(&self, buf: &mut Vec<u8>)
        ensures
            final(buf)@ == old(buf)@ + deletion_json(self@),
    {
        let ghost start = buf@;
        push_lit(buf, "{\"deletionEventId\":");
        push_json_str(buf, self.deletion_event_id.as_str());
        push_lit(buf, ",\"sourceEventId\":");
        push_json_str(buf, self.source_event_id.as_str());
        push_lit(buf, ",\"author\":");
        push_json_str(buf, self.author.as_str());
        push_lit(buf, ",\"observedAt\":");
        push_json_int(buf, self.observed_at);
        push_lit(buf, "}");
        assert(buf@ =~= start + deletion_json(self@));
    }
}

/// An event the engine folds into its projection.
#[derive(Debug, Clone, PartialEq, Eq)]
pub enum EngineEvent {
    Proposal(EventEnvelope<Proposal>),
    Review(EventEnvelope<Review>),
    Record(EventEnvelope<MemoryRecord>),
    Invalidation(EventEnvelope<Invalidation>),
    SourceDeleted(SourceDeletion),
}

/// The content of an engine event.
pub enum EngineEventV {
    Proposal(EnvelopeV<ProposalV>),
    Review(EnvelopeV<ReviewV>),
    Record(EnvelopeV<MemoryRecordV>),
    Invalidation(EnvelopeV<InvalidationV>),
    SourceDeleted(SourceDeletionV),
}

impl View for EngineEvent {
    type V = EngineEventV;

    open spec fn view(&self) -> EngineEventV {
        match self {
            EngineEvent::Proposal(e) => EngineEventV::Proposal(e@),
            EngineEvent::Review(e) => EngineEventV::Review(e@),
            EngineEvent::Record(e) => EngineEventV::Record(e@),
            EngineEvent::Invalidation(e) => EngineEventV::Invalidation(e@),
            EngineEvent::SourceDeleted(d) => EngineEventV::SourceDeleted(d@),
        }
    }
}

/// The identifier of the event itself.
pub open spec fn event_id_of(e: EngineEventV) -> Seq<char> {
    match e {
        EngineEventV::Proposal(x) => x.event_id,
        EngineEventV::Review(x) => x.event_id,
        EngineEventV::Record(x) => x.event_id,
        EngineEventV::Invalidation(x) => x.event_id,
        EngineEventV::SourceDeleted(d) => d.deletion_event_id,
    }
}

/// The JSON name of an event's kind.
pub open spec fn event_kind(e: EngineEventV) -> Seq<u8> {
    match e {
        EngineEventV::Proposal(_) => lit("\"proposal\""),
        EngineEventV::Review(_) => lit("\"review\""),
        EngineEventV::Record(_) => lit("\"record\""),
        EngineEventV::Invalidation(_) => lit("\"invalidation\""),
        EngineEventV::SourceDeleted(_) => lit("\"source_deleted\""),
    }
}

/// The JSON of an event's body.
pub open spec fn event_body(e: EngineEventV) -> Seq<u8> {
    match e {
        EngineEventV::Proposal(x) => envelope_json(
            x.event_id,
            x.author,
            x.created_at,
            Proposal::json_of(x.payload),
        ),
        EngineEventV::Review(x) => envelope_json(
            x.event_id,
            x.author,
            x.created_at,
            Review::json_of(x.payload),
        ),
        EngineEventV::Record(x) => envelope_json(
            x.event_id,
            x.author,
            x.created_at,
            MemoryRecord::json_of(x.payload),
        ),
        EngineEventV::Invalidation(x) => envelope_json(
            x.event_id,
            x.author,
            x.created_at,
            Invalidation::json_of(x.payload),
        ),
        EngineEventV::SourceDeleted(d) => deletion_json(d),
    }
}

/// The JSON of an event: its kind under `type` and its body under `event`.
pub open spec fn event_json(e: EngineEventV) -> Seq<u8> {
    lit("{\"type\":") + event_kind(e) + lit(",\"event\":") + event_body(e) + lit("}")
}

/// The content address of an event: the digest of its JSON.
pub open spec fn event_digest(e: EngineEventV) -> Option<Seq<char>> {
    digest_of(event_json(e))
}

impl EngineEvent {
    /// The identifier of the event itself.
    pub fn event_id(&self) -> (r: &str)
        ensures
            r@ == event_id_of(self@),
    {
        match self {
            EngineEvent::Proposal(e) => e.event_id.as_str(),
            EngineEvent::Review(e) => e.event_id.as_str(),
            EngineEvent::Record(e) => e.event_id.as_str(),
            EngineEvent::Invalidation(e) => e.event_id.as_str(),
            EngineEvent::SourceDeleted(d) => d.deletion_event_id.as_str(),
        }
    }

    fn write_kind(&self, buf: &mut Vec<u8>)
        ensures
            final(buf)@ == old(buf)@ + event_kind(self@),
    {
        match self {
            EngineEvent::Proposal(_) => push_lit(buf, "\"proposal\""),
            EngineEvent::Review(_) => push_lit(buf, "\"review\""),
            EngineEvent::Record(_) => push_lit(buf, "\"record\""),
            EngineEvent::Invalidation(_) => push_lit(buf, "\"invalidation\""),
            EngineEvent::SourceDeleted(_) => push_lit(buf, "\"source_deleted\""),
        }
    }

    fn write_body(&self, buf: &mut Vec<u8>)
        ensures
            final(buf)@ == old(buf)@ + event_body(self@),
    {
        match self {
            EngineEvent::Proposal(e) => e.write_envelope_json(buf),
            EngineEvent::Review(e) => e.write_envelope_json(buf),
            EngineEvent::Record(e) => e.write_envelope_json(buf),
            EngineEvent::Invalidation(e) => e.write_envelope_json(buf),
            EngineEvent::SourceDeleted(d) => d.write_json(buf),
        }
    }

    fn write_json(&self, buf: &mut Vec<u8>)
        ensures
            final(buf)@ == old(buf)@ + event_json(self@),
    {
        let ghost start = buf@;
        push_lit(buf, "{\"type\":");
        self.write_kind(buf);
        push_lit(buf, ",\"event\":");
        self.write_body(buf);
        push_lit(buf, "}");
        assert(buf@ =~= start + event_json(self@));
    }

    /// The content address of the whole event.
    pub fn digest(&self) -> (r: Result<String, EngineError>)
        ensures
            match event_digest(self@) {
                Some(d) => r is Ok && r->Ok_0@ == d,
                None => r is Err && engine_fault_of(r) == EngineFault::Core(Fault::Canonical),
            },
    {
        let mut json: Vec<u8> = Vec::new();
        self.write_json(&mut json);
        match jcs_sha256(json.as_slice()) {
            Ok(d) => Ok(d),
            Err(e) => Err(EngineError::Core(e)),
        }
    }
}

} // verus!
