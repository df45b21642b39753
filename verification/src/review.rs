//! Reviews: a human's signed decision on a proposal.

use vstd::prelude::*;

use crate::claim::{contains_str, fault_of_err, id_fault};
use crate::digest::{jcs_sha256, digest_of};
use crate::error::{
    invalid, invalid_fault, or_else, reports, require_hex_32, require_non_empty,
    require_sorted_unique, sorted_fault, CoreError, Fault, Validate,
};
use crate::evidence::{blank_fault, hex_fault};
use crate::json::{json_array_of, json_str, lit, push_json_array, push_json_str, push_lit, ToJson};
use crate::order::{sort_dedup, sort_dedup_vec, views};
use crate::snapshot::{
    hex_fault_in, require_hex_32_all, same_text, schema_fault, REVIEW_SCHEMA_V1,
};

verus! {

/// A decision on a proposal.
#[derive(Debug, Clone, Copy, PartialEq, Eq, Structural)]
pub enum ReviewDecision {
    Accept,
    Reject,
    Revise,
}

/// The wire name of a decision.
pub open spec fn decision_json(d: ReviewDecision) -> Seq<u8> {
    match d {
        ReviewDecision::Accept => lit("\"accept\""),
        ReviewDecision::Reject => lit("\"reject\""),
        ReviewDecision::Revise => lit("\"revise\""),
    }
}

/// A signed review of one proposal.
#[derive(Debug, Clone, PartialEq, Eq)]
pub struct Review {
    pub schema: String,
    pub review_id: String,
    pub proposal_event_id: String,
    pub proposal_digest: String,
    pub decision: ReviewDecision,
    pub accepted_claim_ids: Vec<String>,
    pub rejected_claim_ids: Vec<String>,
    pub policy_id: String,
}

/// The content of a review.
pub struct ReviewV {
    pub schema: Seq<char>,
    pub review_id: Seq<char>,
    pub proposal_event_id: Seq<char>,
    pub proposal_digest: Seq<char>,
    pub decision: ReviewDecision,
    pub accepted_claim_ids: Seq<Seq<char>>,
    pub rejected_claim_ids: Seq<Seq<char>>,
    pub policy_id: Seq<char>,
}

impl View for Review {
    type V = ReviewV;

    open spec fn view(&self) -> ReviewV {
        ReviewV {
            schema: self.schema@,
            review_id: self.review_id@,
            proposal_event_id: self.proposal_event_id@,
            proposal_digest: self.proposal_digest@,
            decision: self.decision,
            accepted_claim_ids: views(self.accepted_claim_ids@),
            rejected_claim_ids: views(self.rejected_claim_ids@),
            policy_id: self.policy_id@,
        }
    }
}

/// The JSON of a review.
pub open spec fn review_json(r: ReviewV) -> Seq<u8> {
    lit("{\"schema\":") + json_str(r.schema) + lit(",\"reviewId\":") + json_str(r.review_id) + lit(
        ",\"proposalEventId\":",
    ) + json_str(r.proposal_event_id) + lit(",\"proposalDigest\":") + json_str(r.proposal_digest)
        + lit(",\"decision\":") + decision_json(r.decision) + lit(",\"acceptedClaimIds\":")
        + json_array_of::<String>(r.accepted_claim_ids) + lit(",\"rejectedClaimIds\":")
        + json_array_of::<String>(r.rejected_claim_ids) + lit(",\"policyId\":") + json_str(
        r.policy_id,
    ) + lit("}")
}

/// A review's content address: the digest of its JSON with `reviewId` blank.
pub open spec fn review_digest(r: ReviewV) -> Option<Seq<char>> {
    digest_of(review_json(ReviewV { review_id: Seq::empty(), ..r }))
}

/// A review with its claim id lists sorted and deduplicated.
pub open spec fn normalized_review(r: ReviewV) -> ReviewV {
    ReviewV {
        accepted_claim_ids: sort_dedup::<String>(r.accepted_claim_ids),
        rejected_claim_ids: sort_dedup::<String>(r.rejected_claim_ids),
        ..r
    }
}

/// Some claim is both accepted and rejected.
pub open spec fn accepts_and_rejects(r: ReviewV) -> bool {
    exists|i: int|
        0 <= i < r.accepted_claim_ids.len() && r.rejected_claim_ids.contains(
            #[trigger] r.accepted_claim_ids[i],
        )
}

/// The first rule a review's header breaks, in check order.
pub open spec fn review_header_fault(r: ReviewV) -> Option<Fault> {
    or_else(
        schema_fault("review.schema", r.schema, REVIEW_SCHEMA_V1),
        or_else(
            hex_fault("reviewId", r.review_id),
            or_else(
                hex_fault("review.proposalEventId", r.proposal_event_id),
                or_else(
                    hex_fault("review.proposalDigest", r.proposal_digest),
                    or_else(
                        blank_fault("review.policyId", r.policy_id),
                        or_else(
                            sorted_fault::<String>("review.acceptedClaimIds", r.accepted_claim_ids),
                            sorted_fault::<String>("review.rejectedClaimIds", r.rejected_claim_ids),
                        ),
                    ),
                ),
            ),
        ),
    )
}

/// The first rule a review's decision breaks, in check order.
pub open spec fn review_decision_fault(r: ReviewV) -> Option<Fault> {
    or_else(
        hex_fault_in("review.claimId", r.accepted_claim_ids + r.rejected_claim_ids),
        or_else(
            if accepts_and_rejects(r) {
                Some(invalid_fault("review.claimIds", "a claim cannot be both accepted and rejected"))
            } else {
                None
            },
            or_else(
                if r.decision == ReviewDecision::Accept && r.accepted_claim_ids.len() == 0 {
                    Some(
                        invalid_fault(
                            "review.acceptedClaimIds",
                            "accept reviews require at least one accepted claim",
                        ),
                    )
                } else {
                    None
                },
                if r.decision == ReviewDecision::Reject && r.rejected_claim_ids.len() == 0 {
                    Some(
                        invalid_fault(
                            "review.rejectedClaimIds",
                            "reject reviews require at least one rejected claim",
                        ),
                    )
                } else {
                    None
                },
            ),
        ),
    )
}

/// The first rule a review breaks, in check order.
pub open spec fn review_fault(r: ReviewV) -> Option<Fault> {
    or_else(
        review_header_fault(r),
        or_else(review_decision_fault(r), id_fault("reviewId", review_digest(r), r.review_id)),
    )
}

/// What sealing makes of a review: normalized, addressed, then validated.
pub open spec fn review_sealed(res: Result<Review, CoreError>, r: ReviewV) -> bool {
    match review_digest(normalized_review(r)) {
        None => res is Err && fault_of_err(res) == Fault::Canonical,
        Some(d) => {
            let sealed = ReviewV { review_id: d, ..normalized_review(r) };
            match review_fault(sealed) {
                None => res is Ok && res->Ok_0@ == sealed,
                Some(f) => res is Err && fault_of_err(res) == f,
            }
        },
    }
}

fn append_strings(out: &mut Vec<String>, src: &Vec<String>)
    ensures
        views(final(out)@) == views(old(out)@) + views(src@),
{
    let n = src.len();
    let mut i: usize = 0;
    while i < n
        invariant
            n == src@.len(),
            i <= n,
            views(out@) == views(old(out)@) + views(src@).take(i as int),
        decreases n - i,
    {
        let ghost prev = out@;
        out.push(src[i].clone());
        assert(views(out@) =~= views(prev).push(src@[i as int]@));
        assert(views(src@).take(i + 1) =~= views(src@).take(i as int).push(src@[i as int]@));
        i += 1;
    }
    assert(views(src@).take(n as int) =~= views(src@));
}

impl Review {
    /// Sort and deduplicate the accepted and rejected claim ids.
    pub fn normalize(&mut self)
        ensures
            final(self)@ == normalized_review(old(self)@),
    {
        let mut accepted: Vec<String> = Vec::new();
        std::mem::swap(&mut accepted, &mut self.accepted_claim_ids);
        self.accepted_claim_ids = sort_dedup_vec(accepted);
        let mut rejected: Vec<String> = Vec::new();
        std::mem::swap(&mut rejected, &mut self.rejected_claim_ids);
        self.rejected_claim_ids = sort_dedup_vec(rejected);
    }

    fn write_json_with_id(&self, id: &str, buf: &mut Vec<u8>)
        ensures
            final(buf)@ == old(buf)@ + review_json(ReviewV { review_id: id@, ..self@ }),
    {
        let mut out: Vec<u8> = Vec::new();
        push_lit(&mut out, "{\"schema\":");
        assert(out@ =~= lit("{\"schema\":"));
        push_json_str(&mut out, self.schema.as_str());
        push_lit(&mut out, ",\"reviewId\":");
        push_json_str(&mut out, id);
        push_lit(&mut out, ",\"proposalEventId\":");
        push_json_str(&mut out, self.proposal_event_id.as_str());
        push_lit(&mut out, ",\"proposalDigest\":");
        push_json_str(&mut out, self.proposal_digest.as_str());
        push_lit(&mut out, ",\"decision\":");
        match self.decision {
            ReviewDecision::Accept => push_lit(&mut out, "\"accept\""),
            ReviewDecision::Reject => push_lit(&mut out, "\"reject\""),
            ReviewDecision::Revise => push_lit(&mut out, "\"revise\""),
        }
        push_lit(&mut out, ",\"acceptedClaimIds\":");
        push_json_array(&mut out, &self.accepted_claim_ids);
        push_lit(&mut out, ",\"rejectedClaimIds\":");
        push_json_array(&mut out, &self.rejected_claim_ids);
        push_lit(&mut out, ",\"policyId\":");
        push_json_str(&mut out, self.policy_id.as_str());
        push_lit(&mut out, "}");
        buf.append(&mut out);
    }

    /// The content address of the review.
    pub fn computed_id(&self) -> (r: Result<String, CoreError>)
        ensures
            match review_digest(self@) {
                Some(d) => r is Ok && r->Ok_0@ == d,
                None => r is Err && fault_of_err(r) == Fault::Canonical,
            },
    {
        let mut json: Vec<u8> = Vec::new();
        self.write_json_with_id("", &mut json);
        proof {
            assert(""@ =~= Seq::<char>::empty()) by {
                reveal_strlit("");
            }
        }
        jcs_sha256(json.as_slice())
    }

    /// Normalize, address and validate the review.
    pub fn seal(self) -> (r: Result<Review, CoreError>)
        ensures
            review_sealed(r, self@),
    {
        let mut review = self;
        review.normalize();
        let id = review.computed_id()?;
        review.review_id = id;
        assert(review_digest(review@) == review_digest(normalized_review(self@)));
        review.validate()?;
        Ok(review)
    }

    fn validate_header(&self) -> (r: Result<(), CoreError>)
        ensures
            reports(r, review_header_fault(self@)),
    {
        if !same_text(self.schema.as_str(), REVIEW_SCHEMA_V1) {
            return Err(invalid("review.schema", "unsupported schema"));
        }
        require_hex_32("reviewId", self.review_id.as_str())?;
        require_hex_32("review.proposalEventId", self.proposal_event_id.as_str())?;
        require_hex_32("review.proposalDigest", self.proposal_digest.as_str())?;
        require_non_empty("review.policyId", self.policy_id.as_str())?;
        require_sorted_unique("review.acceptedClaimIds", self.accepted_claim_ids.as_slice())?;
        require_sorted_unique("review.rejectedClaimIds", self.rejected_claim_ids.as_slice())
    }

    fn validate_decision(&self) -> (r: Result<(), CoreError>)
        ensures
            reports(r, review_decision_fault(self@)),
    {
        let mut all: Vec<String> = Vec::new();
        append_strings(&mut all, &self.accepted_claim_ids);
        append_strings(&mut all, &self.rejected_claim_ids);
        assert(views(all@) =~= self@.accepted_claim_ids + self@.rejected_claim_ids);
        require_hex_32_all("review.claimId", &all)?;
        assert(hex_fault_in("review.claimId", self@.accepted_claim_ids + self@.rejected_claim_ids) is None);
        let n = self.accepted_claim_ids.len();
        let mut i: usize = 0;
        while i < n
            invariant
                n == self.accepted_claim_ids@.len(),
                i <= n,
                hex_fault_in("review.claimId", self@.accepted_claim_ids + self@.rejected_claim_ids) is None,
                forall|k: int|
                    0 <= k < i ==> !self@.rejected_claim_ids.contains(
                        #[trigger] self@.accepted_claim_ids[k],
                    ),
            decreases n - i,
        {
            assert(self@.accepted_claim_ids[i as int] == self.accepted_claim_ids@[i as int]@);
            if contains_str(&self.rejected_claim_ids, self.accepted_claim_ids[i].as_str()) {
                assert(self@.rejected_claim_ids.contains(self@.accepted_claim_ids[i as int]));
                assert(accepts_and_rejects(self@));
                return Err(invalid("review.claimIds", "a claim cannot be both accepted and rejected"));
            }
            i += 1;
        }
        if self.decision == ReviewDecision::Accept && self.accepted_claim_ids.len() == 0 {
            return Err(
                invalid(
                    "review.acceptedClaimIds",
                    "accept reviews require at least one accepted claim",
                ),
            );
        }
        if self.decision == ReviewDecision::Reject && self.rejected_claim_ids.len() == 0 {
            return Err(
                invalid(
                    "review.rejectedClaimIds",
                    "reject reviews require at least one rejected claim",
                ),
            );
        }
        Ok(())
    }
}

impl ToJson for Review {
    open spec fn json_of(v: ReviewV) -> Seq<u8> {
        review_json(v)
    }

    fn write_json(&self, buf: &mut Vec<u8>) {
        self.write_json_with_id(self.review_id.as_str(), buf);
    }
}

impl Validate for Review {
    open spec fn first_fault(v: ReviewV) -> Option<Fault> {
        review_fault(v)
    }

    fn validate(&self) -> (r: Result<(), CoreError>) {
        self.validate_header()?;
        self.validate_decision()?;
        let computed = self.computed_id()?;
        if !same_text(computed.as_str(), self.review_id.as_str()) {
            return Err(invalid("reviewId", "does not match canonical payload digest"));
        }
        Ok(())
    }
}

} // verus!
