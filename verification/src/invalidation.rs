//! Invalidations: body-free notices that a record's evidence is gone.

use vstd::prelude::*;

use crate::claim::{fault_of_err, id_fault};
use crate::digest::{jcs_sha256, digest_of};
use crate::error::{
    invalid, invalid_fault, or_else, require_hex_32, require_sorted_unique, sorted_fault,
    CoreError, Fault, Validate,
};
use crate::evidence::hex_fault;
use crate::json::{
    json_array_of, json_int, json_str, lit, push_json_array, push_json_int, push_json_str, push_lit,
    ToJson,
};
use crate::order::{sort_dedup, sort_dedup_vec, views};
use crate::snapshot::{
    hex_fault_in, require_hex_32_all, same_text, schema_fault, INVALIDATION_SCHEMA_V1,
};

verus! {

/// Why a record lost its support.
#[derive(Debug, Clone, Copy, PartialEq, Eq, Structural)]
pub enum InvalidationReason {
    SourceDeleted,
    SourceMissing,
    DigestMismatch,
    AuthorityRevoked,
}

/// The wire name of a reason.
pub open spec fn invalidation_reason_json(r: InvalidationReason) -> Seq<u8> {
    match r {
        InvalidationReason::SourceDeleted => lit("\"source_deleted\""),
        InvalidationReason::SourceMissing => lit("\"source_missing\""),
        InvalidationReason::DigestMismatch => lit("\"digest_mismatch\""),
        InvalidationReason::AuthorityRevoked => lit("\"authority_revoked\""),
    }
}

/// A receipt that a record's claims are no longer supported.
#[derive(Debug, Clone, PartialEq, Eq)]
pub struct Invalidation {
    pub schema: String,
    pub invalidation_id: String,
    pub target_record_event_id: String,
    pub target_record_id: String,
    pub affected_claim_ids: Vec<String>,
    pub source_event_ids: Vec<String>,
    pub reason: InvalidationReason,
    pub detected_at: i64,
}

/// The content of an invalidation.
pub struct InvalidationV {
    pub schema: Seq<char>,
    pub invalidation_id: Seq<char>,
    pub target_record_event_id: Seq<char>,
    pub target_record_id: Seq<char>,
    pub affected_claim_ids: Seq<Seq<char>>,
    pub source_event_ids: Seq<Seq<char>>,
    pub reason: InvalidationReason,
    pub detected_at: i64,
}

impl View for Invalidation {
    type V = InvalidationV;

    open spec fn view(&self) -> InvalidationV {
        InvalidationV {
            schema: self.schema@,
            invalidation_id: self.invalidation_id@,
            target_record_event_id: self.target_record_event_id@,
            target_record_id: self.target_record_id@,
            affected_claim_ids: views(self.affected_claim_ids@),
            source_event_ids: views(self.source_event_ids@),
            reason: self.reason,
            detected_at: self.detected_at,
        }
    }
}

/// The JSON of an invalidation.
pub open spec fn invalidation_json(v: InvalidationV) -> Seq<u8> {
    lit("{\"schema\":") + json_str(v.schema) + lit(",\"invalidationId\":") + json_str(
        v.invalidation_id,
    ) + lit(",\"targetRecordEventId\":") + json_str(v.target_record_event_id) + lit(
        ",\"targetRecordId\":",
    ) + json_str(v.target_record_id) + lit(",\"affectedClaimIds\":") + json_array_of::<String>(
        v.affected_claim_ids,
    ) + lit(",\"sourceEventIds\":") + json_array_of::<String>(v.source_event_ids) + lit(
        ",\"reason\":",
    ) + invalidation_reason_json(v.reason) + lit(",\"detectedAt\":") + json_int(
        v.detected_at as int,
    ) + lit("}")
}

/// An invalidation's content address: the digest of its JSON with
/// `invalidationId` blank.
pub open spec fn invalidation_digest(v: InvalidationV) -> Option<Seq<char>> {
    digest_of(invalidation_json(InvalidationV { invalidation_id: Seq::empty(), ..v }))
}

/// An invalidation with its id lists sorted and deduplicated.
pub open spec fn normalized_invalidation(v: InvalidationV) -> InvalidationV {
    InvalidationV {
        affected_claim_ids: sort_dedup::<String>(v.affected_claim_ids),
        source_event_ids: sort_dedup::<String>(v.source_event_ids),
        ..v
    }
}

/// The first rule an invalidation breaks, in check order.
pub open spec fn invalidation_fault(v: InvalidationV) -> Option<Fault> {
    or_else(
        schema_fault("invalidation.schema", v.schema, INVALIDATION_SCHEMA_V1),
        or_else(
            hex_fault("invalidationId", v.invalidation_id),
            or_else(
                hex_fault("invalidation.targetRecordEventId", v.target_record_event_id),
                or_else(
                    hex_fault("invalidation.targetRecordId", v.target_record_id),
                    or_else(
                        if v.affected_claim_ids.len() == 0 || v.source_event_ids.len() == 0 {
                            Some(
                                invalid_fault(
                                    "invalidation",
                                    "affected claims and source events must not be empty",
                                ),
                            )
                        } else {
                            None
                        },
                        or_else(
                            sorted_fault::<String>(
                                "invalidation.affectedClaimIds",
                                v.affected_claim_ids,
                            ),
                            or_else(
                                sorted_fault::<String>(
                                    "invalidation.sourceEventIds",
                                    v.source_event_ids,
                                ),
                                or_else(
                                    hex_fault_in("invalidation.claimId", v.affected_claim_ids),
                                    or_else(
                                        hex_fault_in(
                                            "invalidation.sourceEventId",
                                            v.source_event_ids,
                                        ),
                                        id_fault(
                                            "invalidationId",
                                            invalidation_digest(v),
                                            v.invalidation_id,
                                        ),
                                    ),
                                ),
                            ),
                        ),
                    ),
                ),
            ),
        ),
    )
}

/// What sealing makes of an invalidation: normalized, addressed, then validated.
pub open spec fn invalidation_sealed(res: Result<Invalidation, CoreError>, v: InvalidationV) -> bool {
    match invalidation_digest(normalized_invalidation(v)) {
        None => res is Err && fault_of_err(res) == Fault::Canonical,
        Some(d) => {
            let sealed = InvalidationV { invalidation_id: d, ..normalized_invalidation(v) };
            match invalidation_fault(sealed) {
                None => res is Ok && res->Ok_0@ == sealed,
                Some(f) => res is Err && fault_of_err(res) == f,
            }
        },
    }
}

impl Invalidation {
    /// Sort and deduplicate the affected claims and the sources.
    pub fn normalize(&mut self)
        ensures
            final(self)@ == normalized_invalidation(old(self)@),
    {
        let mut affected: Vec<String> = Vec::new();
        std::mem::swap(&mut affected, &mut self.affected_claim_ids);
        self.affected_claim_ids = sort_dedup_vec(affected);
        let mut sources: Vec<String> = Vec::new();
        std::mem::swap(&mut sources, &mut self.source_event_ids);
        self.source_event_ids = sort_dedup_vec(sources);
    }

    fn write_json_with_id(&self, id: &str, buf: &mut Vec<u8>)
        ensures
            final(buf)@ == old(buf)@ + invalidation_json(
                InvalidationV { invalidation_id: id@, ..self@ },
            ),
    {
        let mut out: Vec<u8> = Vec::new();
        push_lit(&mut out, "{\"schema\":");
        assert(out@ =~= lit("{\"schema\":"));
        push_json_str(&mut out, self.schema.as_str());
        push_lit(&mut out, ",\"invalidationId\":");
        push_json_str(&mut out, id);
        push_lit(&mut out, ",\"targetRecordEventId\":");
        push_json_str(&mut out, self.target_record_event_id.as_str());
        push_lit(&mut out, ",\"targetRecordId\":");
        push_json_str(&mut out, self.target_record_id.as_str());
        push_lit(&mut out, ",\"affectedClaimIds\":");
        push_json_array(&mut out, &self.affected_claim_ids);
        push_lit(&mut out, ",\"sourceEventIds\":");
        push_json_array(&mut out, &self.source_event_ids);
        push_lit(&mut out, ",\"reason\":");
        match self.reason {
            InvalidationReason::SourceDeleted => push_lit(&mut out, "\"source_deleted\""),
            InvalidationReason::SourceMissing => push_lit(&mut out, "\"source_missing\""),
            InvalidationReason::DigestMismatch => push_lit(&mut out, "\"digest_mismatch\""),
            InvalidationReason::AuthorityRevoked => push_lit(&mut out, "\"authority_revoked\""),
        }
        push_lit(&mut out, ",\"detectedAt\":");
        push_json_int(&mut out, self.detected_at);
        push_lit(&mut out, "}");
        buf.append(&mut out);
    }

    /// The content address of the invalidation.
    pub fn computed_id(&self) -> (r: Result<String, CoreError>)
        ensures
            match invalidation_digest(self@) {
                Some(d) => r is Ok && r->Ok_0@ == d,
                None => r is Err && fault_of_err(r) == Fault::Canonical,
            },
    {
        let mut json: Vec<u8> = Vec::new();
        self.write_json_with_id("", &mut json);
        proof {
            assert(""@ =~= Seq::<char>::empty()) by {
                reveal_strlit("");
            }
        }
        jcs_sha256(json.as_slice())
    }

    /// Normalize, address and validate the invalidation.
    pub fn seal(self) -> (r: Result<Invalidation, CoreError>)
        ensures
            invalidation_sealed(r, self@),
    {
        let mut invalidation = self;
        invalidation.normalize();
        let id = invalidation.computed_id()?;
        invalidation.invalidation_id = id;
        assert(invalidation_digest(invalidation@) == invalidation_digest(
            normalized_invalidation(self@),
        ));
        invalidation.validate()?;
        Ok(invalidation)
    }
}

impl ToJson for Invalidation {
    open spec fn json_of(v: InvalidationV) -> Seq<u8> {
        invalidation_json(v)
    }

    fn write_json(&self, buf: &mut Vec<u8>) {
        self.write_json_with_id(self.invalidation_id.as_str(), buf);
    }
}

impl Validate for Invalidation {
    open spec fn first_fault(v: InvalidationV) -> Option<Fault> {
        invalidation_fault(v)
    }

    fn validate(&self) -> (r: Result<(), CoreError>) {
        if !same_text(self.schema.as_str(), INVALIDATION_SCHEMA_V1) {
            return Err(invalid("invalidation.schema", "unsupported schema"));
        }
        require_hex_32("invalidationId", self.invalidation_id.as_str())?;
        require_hex_32("invalidation.targetRecordEventId", self.target_record_event_id.as_str())?;
        require_hex_32("invalidation.targetRecordId", self.target_record_id.as_str())?;
        if self.affected_claim_ids.len() == 0 || self.source_event_ids.len() == 0 {
            return Err(
                invalid("invalidation", "affected claims and source events must not be empty"),
            );
        }
        require_sorted_unique("invalidation.affectedClaimIds", self.affected_claim_ids.as_slice())?;
        require_sorted_unique("invalidation.sourceEventIds", self.source_event_ids.as_slice())?;
        require_hex_32_all("invalidation.claimId", &self.affected_claim_ids)?;
        require_hex_32_all("invalidation.sourceEventId", &self.source_event_ids)?;
        let computed = self.computed_id()?;
        if !same_text(computed.as_str(), self.invalidation_id.as_str()) {
            return Err(invalid("invalidationId", "does not match canonical payload digest"));
        }
        Ok(())
    }
}

} // verus!
