//! Laws of the canonical form of artifacts: normalizing twice is normalizing
//! once, sealing ignores the order of and repetitions in id and evidence
//! lists, and a valid artifact is its own normal form and its own content
//! address, so sealing it again gives it back unchanged.

use vstd::prelude::*;

use crate::claim::{claim_digest, claim_fault, claim_sealed, normalized_claim, Claim, ClaimV};
use crate::coverage::{
    coverage_fault, normalized_coverage, normalized_lane, CoverageGap, CoverageLane, CoverageLaneV,
    CoverageRecordV,
};
use crate::error::{lemma_first_fault_in_none, CoreError};
use crate::evidence::EvidenceRef;
use crate::invalidation::{
    invalidation_digest, invalidation_fault, invalidation_sealed, normalized_invalidation, Invalidation,
    InvalidationV,
};
use crate::order::{lemma_sort_dedup_props, lemma_sort_dedup_sorted, sort_dedup, sorted_by_key, SortKey};
use crate::proposal::{
    normalized_proposal, proposal_claims_fault, proposal_fault, proposal_id_digest, proposal_sealed, Proposal,
    ProposalV,
};
use crate::record::{
    normalized_record, record_claims_fault, record_digest, record_fault, record_sealed, MemoryRecord,
    MemoryRecordV,
};
use crate::review::{normalized_review, review_digest, review_fault, review_sealed, Review, ReviewV};
use crate::snapshot::{
    normalized_snapshot, snapshot_digest, snapshot_fault, snapshot_sealed, RetrievalSnapshot,
    RetrievalSnapshotV,
};

verus! {

/// A valid claim is its own normal form and its own content address, so
/// sealing it gives it back unchanged; in particular, sealing a sealed claim
/// again changes nothing.
pub proof fn law_seal_keeps_valid_claim(c: ClaimV)
    requires
        claim_fault(c) is None,
    ensures
        normalized_claim(c) == c,
        claim_digest(c) == Some(c.claim_id),
        forall|r: Result<Claim, CoreError>| claim_sealed(r, c) <==> (r is Ok && r->Ok_0@ == c),
{
    lemma_sort_dedup_sorted::<EvidenceRef>(c.evidence);
    lemma_sort_dedup_sorted::<EvidenceRef>(c.counterevidence);
    lemma_sort_dedup_sorted::<String>(c.supersedes);
    assert(normalized_claim(c) == c);
}

/// A valid review is its own normal form and its own content address, so
/// sealing it gives it back unchanged.
pub proof fn law_seal_keeps_valid_review(v: ReviewV)
    requires
        review_fault(v) is None,
    ensures
        normalized_review(v) == v,
        review_digest(v) == Some(v.review_id),
        forall|r: Result<Review, CoreError>| review_sealed(r, v) <==> (r is Ok && r->Ok_0@ == v),
{
    lemma_sort_dedup_sorted::<String>(v.accepted_claim_ids);
    lemma_sort_dedup_sorted::<String>(v.rejected_claim_ids);
    assert(normalized_review(v) == v);
}

/// A valid invalidation is its own normal form and its own content address,
/// so sealing it gives it back unchanged.
pub proof fn law_seal_keeps_valid_invalidation(v: InvalidationV)
    requires
        invalidation_fault(v) is None,
    ensures
        normalized_invalidation(v) == v,
        invalidation_digest(v) == Some(v.invalidation_id),
        forall|r: Result<Invalidation, CoreError>|
            invalidation_sealed(r, v) <==> (r is Ok && r->Ok_0@ == v),
{
    lemma_sort_dedup_sorted::<String>(v.affected_claim_ids);
    lemma_sort_dedup_sorted::<String>(v.source_event_ids);
    assert(normalized_invalidation(v) == v);
}

/// Valid coverage is its own normal form.
proof fn lemma_valid_coverage_is_normal(c: CoverageRecordV)
    requires
        coverage_fault(c) is None,
    ensures
        normalized_coverage(c) == c,
{
    lemma_first_fault_in_none::<CoverageLane>(c.lanes);
    assert forall|i: int| 0 <= i < c.lanes.len() implies normalized_lane(c.lanes[i]) == c.lanes[i] by {
        lemma_sort_dedup_sorted::<u32>(c.lanes[i].kinds);
    }
    assert(c.lanes.map_values(|l: CoverageLaneV| normalized_lane(l)) =~= c.lanes);
    lemma_sort_dedup_sorted::<CoverageLane>(c.lanes);
    lemma_sort_dedup_sorted::<CoverageGap>(c.gaps);
}

/// A valid retrieval snapshot is its own normal form and its own content
/// address, so sealing it gives it back unchanged.
pub proof fn law_seal_keeps_valid_snapshot(v: RetrievalSnapshotV)
    requires
        snapshot_fault(v) is None,
    ensures
        normalized_snapshot(v) == v,
        snapshot_digest(v) == Some(v.snapshot_id),
        forall|r: Result<RetrievalSnapshot, CoreError>|
            snapshot_sealed(r, v) <==> (r is Ok && r->Ok_0@ == v),
{
    lemma_sort_dedup_sorted::<String>(v.source_event_ids);
    lemma_valid_coverage_is_normal(v.coverage);
    assert(normalized_snapshot(v) == v);
}

/// Claims that pass a record's claim checks are each valid.
#[verifier::spinoff_prover]
#[verifier::rlimit(60)]
proof fn lemma_record_claims_valid(cs: Seq<ClaimV>, channel: Seq<char>)
    requires
        record_claims_fault(cs, channel) is None,
    ensures
        forall|i: int| 0 <= i < cs.len() ==> claim_fault(#[trigger] cs[i]) is None,
    decreases cs.len(),
{
    if cs.len() > 0 {
        lemma_record_claims_valid(cs.drop_first(), channel);
        assert forall|i: int| 0 <= i < cs.len() implies claim_fault(#[trigger] cs[i]) is None by {
            if i > 0 {
                assert(cs[i] == cs.drop_first()[i - 1]);
            }
        }
    }
}

/// Valid claims, sorted by identifier, are their own normal form.
proof fn lemma_valid_claims_are_normal(cs: Seq<ClaimV>)
    requires
        sorted_by_key::<Claim>(cs),
        forall|i: int| 0 <= i < cs.len() ==> claim_fault(#[trigger] cs[i]) is None,
    ensures
        sort_dedup::<Claim>(cs.map_values(|c: ClaimV| normalized_claim(c))) == cs,
{
    assert forall|i: int| 0 <= i < cs.len() implies normalized_claim(cs[i]) == cs[i] by {
        law_seal_keeps_valid_claim(cs[i]);
    }
    assert(cs.map_values(|c: ClaimV| normalized_claim(c)) =~= cs);
    lemma_sort_dedup_sorted::<Claim>(cs);
}

/// A valid memory record is its own normal form and its own content address,
/// so sealing it gives it back unchanged.
pub proof fn law_seal_keeps_valid_record(v: MemoryRecordV)
    requires
        record_fault(v) is None,
    ensures
        normalized_record(v) == v,
        record_digest(v) == Some(v.record_id),
        forall|r: Result<MemoryRecord, CoreError>| record_sealed(r, v) <==> (r is Ok && r->Ok_0@ == v),
{
    lemma_sort_dedup_sorted::<String>(v.review_event_ids);
    lemma_sort_dedup_sorted::<String>(v.supersedes_record_ids);
    lemma_record_claims_valid(v.claims, v.channel_id);
    lemma_valid_claims_are_normal(v.claims);
    assert(normalized_record(v) == v);
}

/// Claims that pass a proposal's claim checks are each valid.
#[verifier::spinoff_prover]
#[verifier::rlimit(60)]
proof fn lemma_proposal_claims_valid(cs: Seq<ClaimV>, channel: Seq<char>, community: Seq<char>, sources: Seq<Seq<char>>)
    requires
        proposal_claims_fault(cs, channel, community, sources) is None,
    ensures
        forall|i: int| 0 <= i < cs.len() ==> claim_fault(#[trigger] cs[i]) is None,
    decreases cs.len(),
{
    if cs.len() > 0 {
        lemma_proposal_claims_valid(cs.drop_first(), channel, community, sources);
        assert forall|i: int| 0 <= i < cs.len() implies claim_fault(#[trigger] cs[i]) is None by {
            if i > 0 {
                assert(cs[i] == cs.drop_first()[i - 1]);
            }
        }
    }
}

/// A valid proposal is its own normal form and its own content address, so
/// sealing it gives it back unchanged.
pub proof fn law_seal_keeps_valid_proposal(v: ProposalV)
    requires
        proposal_fault(v) is None,
    ensures
        normalized_proposal(v) == v,
        proposal_id_digest(v) == Some(v.proposal_id),
        forall|r: Result<Proposal, CoreError>| proposal_sealed(r, v) <==> (r is Ok && r->Ok_0@ == v),
{
    law_seal_keeps_valid_snapshot(v.snapshot);
    lemma_proposal_claims_valid(v.claims, v.channel_id, v.snapshot.community, v.snapshot.source_event_ids);
    lemma_valid_claims_are_normal(v.claims);
    assert(normalized_proposal(v) == v);
}

/// Where an element is its own key, sorting and deduplicating depends only on
/// which elements occur, not on their order or repetition.
proof fn lemma_sort_dedup_same_elements<T: SortKey>(a: Seq<T::V>, b: Seq<T::V>)
    requires
        forall|v: T::V, w: T::V| T::key(v) == T::key(w) ==> v == w,
        forall|v: T::V| a.contains(v) <==> b.contains(v),
    ensures
        sort_dedup::<T>(a) == sort_dedup::<T>(b),
{
    lemma_sort_dedup_props::<T>(a);
    lemma_sort_dedup_props::<T>(b);
    let sa = sort_dedup::<T>(a);
    let sb = sort_dedup::<T>(b);
    assert forall|v: T::V| sa.contains(v) <==> sb.contains(v) by {
        if sa.contains(v) {
            let i = choose|i: int| 0 <= i < a.len() && a[i] == v;
            assert(b.contains(v));
            let k = choose|k: int| 0 <= k < b.len() && b[k] == v;
            let j = choose|j: int| 0 <= j < sb.len() && T::key(#[trigger] sb[j]) == T::key(b[k]);
            assert(sb[j] == v);
        }
        if sb.contains(v) {
            assert(a.contains(v));
            let k = choose|k: int| 0 <= k < a.len() && a[k] == v;
            let j = choose|j: int| 0 <= j < sa.len() && T::key(#[trigger] sa[j]) == T::key(a[k]);
            assert(sa[j] == v);
        }
    }
    crate::order::lemma_sorted_same_elements::<T>(sa, sb);
}

/// Sealing a claim does not depend on the order of its evidence,
/// counterevidence and superseded claims, nor on repetitions in them.
pub proof fn law_seal_claim_ignores_list_order(c: ClaimV, d: ClaimV)
    requires
        d == (ClaimV { evidence: d.evidence, counterevidence: d.counterevidence, supersedes: d.supersedes, ..c }),
        forall|v: crate::evidence::EvidenceRefV| c.evidence.contains(v) <==> d.evidence.contains(v),
        forall|v: crate::evidence::EvidenceRefV| c.counterevidence.contains(v) <==> d.counterevidence.contains(v),
        forall|v: Seq<char>| c.supersedes.contains(v) <==> d.supersedes.contains(v),
    ensures
        normalized_claim(c) == normalized_claim(d),
        forall|r: Result<Claim, CoreError>| claim_sealed(r, c) == claim_sealed(r, d),
{
    lemma_sort_dedup_same_elements::<EvidenceRef>(c.evidence, d.evidence);
    lemma_sort_dedup_same_elements::<EvidenceRef>(c.counterevidence, d.counterevidence);
    lemma_sort_dedup_same_elements::<String>(c.supersedes, d.supersedes);
}

/// Sealing a review does not depend on the order of its claim id lists, nor
/// on repetitions in them.
pub proof fn law_seal_review_ignores_list_order(v: ReviewV, w: ReviewV)
    requires
        w == (ReviewV { accepted_claim_ids: w.accepted_claim_ids, rejected_claim_ids: w.rejected_claim_ids, ..v }),
        forall|x: Seq<char>| v.accepted_claim_ids.contains(x) <==> w.accepted_claim_ids.contains(x),
        forall|x: Seq<char>| v.rejected_claim_ids.contains(x) <==> w.rejected_claim_ids.contains(x),
    ensures
        normalized_review(v) == normalized_review(w),
        forall|r: Result<Review, CoreError>| review_sealed(r, v) == review_sealed(r, w),
{
    lemma_sort_dedup_same_elements::<String>(v.accepted_claim_ids, w.accepted_claim_ids);
    lemma_sort_dedup_same_elements::<String>(v.rejected_claim_ids, w.rejected_claim_ids);
}

/// Sealing an invalidation does not depend on the order of its claim and
/// source lists, nor on repetitions in them.
pub proof fn law_seal_invalidation_ignores_list_order(v: InvalidationV, w: InvalidationV)
    requires
        w == (InvalidationV { affected_claim_ids: w.affected_claim_ids, source_event_ids: w.source_event_ids, ..v }),
        forall|x: Seq<char>| v.affected_claim_ids.contains(x) <==> w.affected_claim_ids.contains(x),
        forall|x: Seq<char>| v.source_event_ids.contains(x) <==> w.source_event_ids.contains(x),
    ensures
        normalized_invalidation(v) == normalized_invalidation(w),
        forall|r: Result<Invalidation, CoreError>| invalidation_sealed(r, v) == invalidation_sealed(r, w),
{
    lemma_sort_dedup_same_elements::<String>(v.affected_claim_ids, w.affected_claim_ids);
    lemma_sort_dedup_same_elements::<String>(v.source_event_ids, w.source_event_ids);
}

/// Sorting and deduplicating twice is doing it once.
proof fn lemma_sort_dedup_twice<T: SortKey>(s: Seq<T::V>)
    ensures
        sort_dedup::<T>(sort_dedup::<T>(s)) == sort_dedup::<T>(s),
{
    lemma_sort_dedup_props::<T>(s);
    lemma_sort_dedup_sorted::<T>(sort_dedup::<T>(s));
}

/// Normalizing each element with an idempotent `f`, then sorting and
/// deduplicating, is idempotent too.
proof fn lemma_map_sort_dedup_twice<T: SortKey>(s: Seq<T::V>, f: spec_fn(T::V) -> T::V)
    requires
        forall|x: T::V| #[trigger] f(f(x)) == f(x),
    ensures
        sort_dedup::<T>(sort_dedup::<T>(s.map_values(f)).map_values(f)) == sort_dedup::<T>(s.map_values(f)),
{
    let m = s.map_values(f);
    let r = sort_dedup::<T>(m);
    lemma_sort_dedup_props::<T>(m);
    assert forall|i: int| 0 <= i < r.len() implies f(r[i]) == r[i] by {
        assert(r.contains(r[i]));
        let k = choose|k: int| 0 <= k < m.len() && m[k] == r[i];
        assert(m[k] == f(s[k]));
    }
    assert(r.map_values(f) =~= r);
    lemma_sort_dedup_sorted::<T>(r);
}

/// Normalizing a claim twice is normalizing it once.
pub proof fn law_normalize_claim_twice(c: ClaimV)
    ensures
        normalized_claim(normalized_claim(c)) == normalized_claim(c),
{
    lemma_sort_dedup_twice::<EvidenceRef>(c.evidence);
    lemma_sort_dedup_twice::<EvidenceRef>(c.counterevidence);
    lemma_sort_dedup_twice::<String>(c.supersedes);
}

/// Normalizing a review twice is normalizing it once.
pub proof fn law_normalize_review_twice(v: ReviewV)
    ensures
        normalized_review(normalized_review(v)) == normalized_review(v),
{
    lemma_sort_dedup_twice::<String>(v.accepted_claim_ids);
    lemma_sort_dedup_twice::<String>(v.rejected_claim_ids);
}

/// Normalizing an invalidation twice is normalizing it once.
pub proof fn law_normalize_invalidation_twice(v: InvalidationV)
    ensures
        normalized_invalidation(normalized_invalidation(v)) == normalized_invalidation(v),
{
    lemma_sort_dedup_twice::<String>(v.affected_claim_ids);
    lemma_sort_dedup_twice::<String>(v.source_event_ids);
}

/// Normalizing coverage twice is normalizing it once.
pub proof fn law_normalize_coverage_twice(c: CoverageRecordV)
    ensures
        normalized_coverage(normalized_coverage(c)) == normalized_coverage(c),
{
    let f = |l: CoverageLaneV| normalized_lane(l);
    assert forall|l: CoverageLaneV| #[trigger] f(f(l)) == f(l) by {
        lemma_sort_dedup_twice::<u32>(l.kinds);
    }
    lemma_map_sort_dedup_twice::<CoverageLane>(c.lanes, f);
    lemma_sort_dedup_twice::<CoverageGap>(c.gaps);
    let n = normalized_coverage(c);
    assert(n.lanes.map_values(|l: CoverageLaneV| normalized_lane(l)) =~= n.lanes.map_values(f));
    assert(c.lanes.map_values(|l: CoverageLaneV| normalized_lane(l)) =~= c.lanes.map_values(f));
}

/// Normalizing a retrieval snapshot twice is normalizing it once.
pub proof fn law_normalize_snapshot_twice(v: RetrievalSnapshotV)
    ensures
        normalized_snapshot(normalized_snapshot(v)) == normalized_snapshot(v),
{
    lemma_sort_dedup_twice::<String>(v.source_event_ids);
    law_normalize_coverage_twice(v.coverage);
}

/// Normalizing each claim, then sorting and deduplicating, twice is doing it once.
proof fn lemma_claims_twice(cs: Seq<ClaimV>)
    ensures
        sort_dedup::<Claim>(sort_dedup::<Claim>(cs.map_values(|c: ClaimV| normalized_claim(c))).map_values(
            |c: ClaimV| normalized_claim(c),
        )) == sort_dedup::<Claim>(cs.map_values(|c: ClaimV| normalized_claim(c))),
{
    let f = |c: ClaimV| normalized_claim(c);
    assert forall|c: ClaimV| #[trigger] f(f(c)) == f(c) by {
        law_normalize_claim_twice(c);
    }
    lemma_map_sort_dedup_twice::<Claim>(cs, f);
    let r = sort_dedup::<Claim>(cs.map_values(|c: ClaimV| normalized_claim(c)));
    assert(cs.map_values(|c: ClaimV| normalized_claim(c)) =~= cs.map_values(f));
    assert(r.map_values(|c: ClaimV| normalized_claim(c)) =~= r.map_values(f));
}

/// Normalizing a memory record twice is normalizing it once.
pub proof fn law_normalize_record_twice(v: MemoryRecordV)
    ensures
        normalized_record(normalized_record(v)) == normalized_record(v),
{
    lemma_sort_dedup_twice::<String>(v.review_event_ids);
    lemma_sort_dedup_twice::<String>(v.supersedes_record_ids);
    lemma_claims_twice(v.claims);
}

/// Normalizing a proposal twice is normalizing it once.
pub proof fn law_normalize_proposal_twice(v: ProposalV)
    ensures
        normalized_proposal(normalized_proposal(v)) == normalized_proposal(v),
{
    law_normalize_snapshot_twice(v.snapshot);
    lemma_claims_twice(v.claims);
}

} // verus!
