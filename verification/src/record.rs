//! Ratified memory records: the asserted claims a quorum of signers accepted.

use vstd::prelude::*;

use crate::claim::{claim_fault, fault_of_err, id_fault, normalized_claim, Claim, ClaimState, ClaimV};
use crate::digest::{jcs_sha256, digest_of};
use crate::error::{
    invalid, invalid_fault, or_else, reports, require_hex_32, require_non_empty,
    require_sorted_unique, sorted_fault, CoreError, Fault, Validate,
};
use crate::evidence::{blank_fault, hex_fault};
use crate::json::{
    json_array_of, json_int, json_str, lit, push_json_array, push_json_int, push_json_str, push_lit,
    ToJson,
};
use crate::order::{sort_dedup, sort_dedup_vec, views};
use crate::proposal::{claims_sources, source_ids_of};
use crate::snapshot::{
    hex_fault_in, require_hex_32_all, same_text, schema_fault, RECORD_SCHEMA_V1,
};

verus! {

/// A ratified record of asserted claims.
#[derive(Debug, Clone, PartialEq, Eq)]
pub struct MemoryRecord {
    pub schema: String,
    pub record_id: String,
    pub channel_id: String,
    pub created_at: i64,
    pub proposal_event_id: String,
    pub proposal_digest: String,
    pub review_event_ids: Vec<String>,
    pub claims: Vec<Claim>,
    pub supersedes_record_ids: Vec<String>,
}

/// The content of a record.
pub struct MemoryRecordV {
    pub schema: Seq<char>,
    pub record_id: Seq<char>,
    pub channel_id: Seq<char>,
    pub created_at: i64,
    pub proposal_event_id: Seq<char>,
    pub proposal_digest: Seq<char>,
    pub review_event_ids: Seq<Seq<char>>,
    pub claims: Seq<ClaimV>,
    pub supersedes_record_ids: Seq<Seq<char>>,
}

impl View for MemoryRecord {
    type V = MemoryRecordV;

    open spec fn view(&self) -> MemoryRecordV {
        MemoryRecordV {
            schema: self.schema@,
            record_id: self.record_id@,
            channel_id: self.channel_id@,
            created_at: self.created_at,
            proposal_event_id: self.proposal_event_id@,
            proposal_digest: self.proposal_digest@,
            review_event_ids: views(self.review_event_ids@),
            claims: views(self.claims@),
            supersedes_record_ids: views(self.supersedes_record_ids@),
        }
    }
}

/// The JSON of a record.
pub open spec fn record_json(r: MemoryRecordV) -> Seq<u8> {
    lit("{\"schema\":") + json_str(r.schema) + lit(",\"recordId\":") + json_str(r.record_id) + lit(
        ",\"channelId\":",
    ) + json_str(r.channel_id) + lit(",\"createdAt\":") + json_int(r.created_at as int) + lit(
        ",\"proposalEventId\":",
    ) + json_str(r.proposal_event_id) + lit(",\"proposalDigest\":") + json_str(r.proposal_digest)
        + lit(",\"reviewEventIds\":") + json_array_of::<String>(r.review_event_ids) + lit(
        ",\"claims\":",
    ) + json_array_of::<Claim>(r.claims) + lit(",\"supersedesRecordIds\":") + json_array_of::<
        String,
    >(r.supersedes_record_ids) + lit("}")
}

/// A record's content address: the digest of its JSON with `recordId` blank.
pub open spec fn record_digest(r: MemoryRecordV) -> Option<Seq<char>> {
    digest_of(record_json(MemoryRecordV { record_id: Seq::empty(), ..r }))
}

/// The distinct source event ids that a record's claims cite, in order.
pub open spec fn record_sources(r: MemoryRecordV) -> Seq<Seq<char>> {
    sort_dedup::<String>(claims_sources(r.claims))
}

/// A record with sorted, deduplicated reviews and supersessions, and
/// normalized claims sorted and deduplicated by identifier.
pub open spec fn normalized_record(r: MemoryRecordV) -> MemoryRecordV {
    MemoryRecordV {
        review_event_ids: sort_dedup::<String>(r.review_event_ids),
        claims: sort_dedup::<Claim>(r.claims.map_values(|c: ClaimV| normalized_claim(c))),
        supersedes_record_ids: sort_dedup::<String>(r.supersedes_record_ids),
        ..r
    }
}

/// The first rule a record's header breaks, in check order.
pub open spec fn record_header_fault(r: MemoryRecordV) -> Option<Fault> {
    or_else(
        schema_fault("record.schema", r.schema, RECORD_SCHEMA_V1),
        or_else(
            hex_fault("recordId", r.record_id),
            or_else(
                blank_fault("record.channelId", r.channel_id),
                or_else(
                    hex_fault("record.proposalEventId", r.proposal_event_id),
                    or_else(
                        hex_fault("record.proposalDigest", r.proposal_digest),
                        or_else(
                            if r.review_event_ids.len() == 0 {
                                Some(invalid_fault("record.reviewEventIds", "must not be empty"))
                            } else {
                                None
                            },
                            or_else(
                                sorted_fault::<String>("record.reviewEventIds", r.review_event_ids),
                                or_else(
                                    sorted_fault::<String>(
                                        "record.supersedesRecordIds",
                                        r.supersedes_record_ids,
                                    ),
                                    or_else(
                                        hex_fault_in("record.reviewEventId", r.review_event_ids),
                                        or_else(
                                            hex_fault_in(
                                                "record.supersedesRecordId",
                                                r.supersedes_record_ids,
                                            ),
                                            or_else(
                                                if r.claims.len() == 0 {
                                                    Some(
                                                        invalid_fault(
                                                            "record.claims",
                                                            "must not be empty",
                                                        ),
                                                    )
                                                } else {
                                                    None
                                                },
                                                if !crate::order::sorted_by_key::<Claim>(r.claims) {
                                                    Some(
                                                        invalid_fault(
                                                            "record.claims",
                                                            "must be sorted by claimId and unique",
                                                        ),
                                                    )
                                                } else {
                                                    None
                                                },
                                            ),
                                        ),
                                    ),
                                ),
                            ),
                        ),
                    ),
                ),
            ),
        ),
    )
}

/// Some cited evidence lies outside the channel.
pub open spec fn cites_other_channel(c: ClaimV, channel: Seq<char>) -> bool {
    exists|i: int|
        0 <= i < (c.evidence + c.counterevidence).len() && (#[trigger] (c.evidence
            + c.counterevidence)[i]).channel_id != channel
}

/// The first fault among a record's claims: each claim's rules, then asserted
/// state, then channel scope.
pub open spec fn record_claims_fault(cs: Seq<ClaimV>, channel: Seq<char>) -> Option<Fault>
    decreases cs.len(),
{
    if cs.len() == 0 {
        None
    } else {
        or_else(
            or_else(
                claim_fault(cs[0]),
                if cs[0].state != ClaimState::Asserted {
                    Some(invalid_fault("record.claims", "ratified records contain asserted claims only"))
                } else if cites_other_channel(cs[0], channel) {
                    Some(
                        invalid_fault(
                            "record.claims.evidence",
                            "cross-channel evidence is not allowed in v1",
                        ),
                    )
                } else {
                    None
                },
            ),
            record_claims_fault(cs.drop_first(), channel),
        )
    }
}

/// The first rule a record breaks, in check order.
pub open spec fn record_fault(r: MemoryRecordV) -> Option<Fault> {
    or_else(
        record_header_fault(r),
        or_else(
            record_claims_fault(r.claims, r.channel_id),
            id_fault("recordId", record_digest(r), r.record_id),
        ),
    )
}

/// What sealing makes of a record: normalized, addressed, then validated.
pub open spec fn record_sealed(res: Result<MemoryRecord, CoreError>, r: MemoryRecordV) -> bool {
    match record_digest(normalized_record(r)) {
        None => res is Err && fault_of_err(res) == Fault::Canonical,
        Some(d) => {
            let sealed = MemoryRecordV { record_id: d, ..normalized_record(r) };
            match record_fault(sealed) {
                None => res is Ok && res->Ok_0@ == sealed,
                Some(f) => res is Err && fault_of_err(res) == f,
            }
        },
    }
}

fn evidence_in_channel(c: &Claim, channel: &str) -> (r: bool)
    ensures
        r == !cites_other_channel(c@, channel@),
{
    let all = c.all_evidence();
    let n = all.len();
    let mut i: usize = 0;
    while i < n
        invariant
            n == all@.len(),
            views(all@) == c@.evidence + c@.counterevidence,
            i <= n,
            forall|k: int| 0 <= k < i ==> (#[trigger] views(all@)[k]).channel_id == channel@,
        decreases n - i,
    {
        assert(views(all@)[i as int] == all@[i as int]@);
        if !same_text(all[i].channel_id.as_str(), channel) {
            assert((c@.evidence + c@.counterevidence)[i as int].channel_id != channel@);
            return false;
        }
        i += 1;
    }
    true
}

impl MemoryRecord {
    /// Sort and deduplicate reviews and supersessions; normalize the claims and
    /// sort and deduplicate them by identifier, keeping the first of each.
    pub fn normalize(&mut self)
        ensures
            final(self)@ == normalized_record(old(self)@),
    {
        let mut reviews: Vec<String> = Vec::new();
        std::mem::swap(&mut reviews, &mut self.review_event_ids);
        self.review_event_ids = sort_dedup_vec(reviews);
        let mut claims: Vec<Claim> = Vec::new();
        std::mem::swap(&mut claims, &mut self.claims);
        let ghost orig = views(claims@);
        let ghost total = claims@.len();
        assert(total == claims.len());
        let mut normalized: Vec<Claim> = Vec::new();
        let mut k: usize = 0;
        while claims.len() > 0
            invariant
                k + claims@.len() == total,
                total <= usize::MAX,
                total == orig.len(),
                views(claims@) == orig.skip(k as int),
                views(normalized@) == orig.take(k as int).map_values(
                    |c: ClaimV| normalized_claim(c),
                ),
            decreases claims@.len(),
        {
            let ghost before = claims@;
            let mut claim = claims.remove(0);
            proof {
                assert(views(before)[0] == claim@);
                assert(views(claims@) =~= views(before).drop_first());
                assert(orig.skip(k as int).drop_first() =~= orig.skip(k + 1));
            }
            claim.normalize();
            let ghost prev = normalized@;
            normalized.push(claim);
            proof {
                assert(orig[k as int] == views(before)[0]);
                assert(views(normalized@) =~= views(prev).push(claim@));
                assert(orig.take(k + 1) =~= orig.take(k as int).push(orig[k as int]));
                assert(views(normalized@) =~= orig.take(k + 1).map_values(
                    |c: ClaimV| normalized_claim(c),
                ));
            }
            k += 1;
        }
        assert(orig.take(k as int) =~= orig);
        self.claims = sort_dedup_vec(normalized);
        let mut supersedes: Vec<String> = Vec::new();
        std::mem::swap(&mut supersedes, &mut self.supersedes_record_ids);
        self.supersedes_record_ids = sort_dedup_vec(supersedes);
    }

    fn write_json_with_id(&self, id: &str, buf: &mut Vec<u8>)
        ensures
            final(buf)@ == old(buf)@ + record_json(MemoryRecordV { record_id: id@, ..self@ }),
    {
        let mut out: Vec<u8> = Vec::new();
        push_lit(&mut out, "{\"schema\":");
        assert(out@ =~= lit("{\"schema\":"));
        push_json_str(&mut out, self.schema.as_str());
        push_lit(&mut out, ",\"recordId\":");
        push_json_str(&mut out, id);
        push_lit(&mut out, ",\"channelId\":");
        push_json_str(&mut out, self.channel_id.as_str());
        push_lit(&mut out, ",\"createdAt\":");
        push_json_int(&mut out, self.created_at);
        push_lit(&mut out, ",\"proposalEventId\":");
        push_json_str(&mut out, self.proposal_event_id.as_str());
        push_lit(&mut out, ",\"proposalDigest\":");
        push_json_str(&mut out, self.proposal_digest.as_str());
        push_lit(&mut out, ",\"reviewEventIds\":");
        push_json_array(&mut out, &self.review_event_ids);
        push_lit(&mut out, ",\"claims\":");
        push_json_array(&mut out, &self.claims);
        push_lit(&mut out, ",\"supersedesRecordIds\":");
        push_json_array(&mut out, &self.supersedes_record_ids);
        push_lit(&mut out, "}");
        buf.append(&mut out);
    }

    /// The content address of the record.
    pub fn computed_id(&self) -> (r: Result<String, CoreError>)
        ensures
            match record_digest(self@) {
                Some(d) => r is Ok && r->Ok_0@ == d,
                None => r is Err && fault_of_err(r) == Fault::Canonical,
            },
    {
        let mut json: Vec<u8> = Vec::new();
        self.write_json_with_id("", &mut json);
        proof {
            assert(""@ =~= Seq::<char>::empty()) by {
                reveal_strlit("");
            }
        }
        jcs_sha256(json.as_slice())
    }

    /// Normalize, address and validate the record.
    pub fn seal(self) -> (r: Result<MemoryRecord, CoreError>)
        ensures
            record_sealed(r, self@),
    {
        let mut record = self;
        record.normalize();
        let id = record.computed_id()?;
        record.record_id = id;
        assert(record_digest(record@) == record_digest(normalized_record(self@)));
        record.validate()?;
        Ok(record)
    }

    /// The distinct source event ids that the claims cite, in order.
    pub fn evidence_event_ids(&self) -> (r: Vec<String>)
        ensures
            views(r@) == record_sources(self@),
    {
        source_ids_of(&self.claims)
    }

    fn validate_header(&self) -> (r: Result<(), CoreError>)
        ensures
            reports(r, record_header_fault(self@)),
    {
        if !same_text(self.schema.as_str(), RECORD_SCHEMA_V1) {
            return Err(invalid("record.schema", "unsupported schema"));
        }
        require_hex_32("recordId", self.record_id.as_str())?;
        require_non_empty("record.channelId", self.channel_id.as_str())?;
        require_hex_32("record.proposalEventId", self.proposal_event_id.as_str())?;
        require_hex_32("record.proposalDigest", self.proposal_digest.as_str())?;
        if self.review_event_ids.len() == 0 {
            return Err(invalid("record.reviewEventIds", "must not be empty"));
        }
        require_sorted_unique("record.reviewEventIds", self.review_event_ids.as_slice())?;
        require_sorted_unique("record.supersedesRecordIds", self.supersedes_record_ids.as_slice())?;
        require_hex_32_all("record.reviewEventId", &self.review_event_ids)?;
        require_hex_32_all("record.supersedesRecordId", &self.supersedes_record_ids)?;
        if self.claims.len() == 0 {
            return Err(invalid("record.claims", "must not be empty"));
        }
        if !crate::order::is_sorted_unique(self.claims.as_slice()) {
            return Err(invalid("record.claims", "must be sorted by claimId and unique"));
        }
        Ok(())
    }

    fn validate_claims(&self) -> (r: Result<(), CoreError>)
        ensures
            reports(r, record_claims_fault(self@.claims, self@.channel_id)),
    {
        let n = self.claims.len();
        let mut i: usize = 0;
        let ghost v = views(self.claims@);
        assert(v.skip(0) =~= v);
        while i < n
            invariant
                n == self.claims@.len(),
                v == views(self.claims@),
                i <= n,
                record_claims_fault(v, self.channel_id@) == record_claims_fault(
                    v.skip(i as int),
                    self.channel_id@,
                ),
            decreases n - i,
        {
            proof {
                assert(v.skip(i as int)[0] == self.claims@[i as int]@);
                assert(v.skip(i as int).drop_first() =~= v.skip(i + 1));
            }
            let claim = &self.claims[i];
            claim.validate()?;
            if claim.state != ClaimState::Asserted {
                return Err(invalid("record.claims", "ratified records contain asserted claims only"));
            }
            if !evidence_in_channel(claim, self.channel_id.as_str()) {
                return Err(
                    invalid("record.claims.evidence", "cross-channel evidence is not allowed in v1"),
                );
            }
            i += 1;
        }
        assert(v.skip(n as int) =~= Seq::<ClaimV>::empty());
        Ok(())
    }
}

impl ToJson for MemoryRecord {
    open spec fn json_of(v: MemoryRecordV) -> Seq<u8> {
        record_json(v)
    }

    fn write_json(&self, buf: &mut Vec<u8>) {
        self.write_json_with_id(self.record_id.as_str(), buf);
    }
}

impl Validate for MemoryRecord {
    open spec fn first_fault(v: MemoryRecordV) -> Option<Fault> {
        record_fault(v)
    }

    fn validate(&self) -> (r: Result<(), CoreError>) {
        self.validate_header()?;
        self.validate_claims()?;
        let computed = self.computed_id()?;
        if !same_text(computed.as_str(), self.record_id.as_str()) {
            return Err(invalid("recordId", "does not match canonical payload digest"));
        }
        Ok(())
    }
}

} // verus!
