//! What the engine's decisions guarantee, stated over the raw inputs: which
//! sources a record cites, which claims a deletion affects, which claims a
//! record must carry, when ratifiers contest a proposal, and when a claim's
//! validity window is refused.

use vstd::prelude::*;

use crate::claim::{claim_fault, ClaimV};
use crate::error::{first_fault_in, Fault};
use crate::evidence::{evidence_fault, EvidenceRef};
use crate::envelope::{EngineEventV, EnvelopeV, EventEnvelope};
use crate::evidence::EvidenceRefV;
use crate::invalidation::InvalidationV;
use crate::keyed::lookup;
use crate::order::{lemma_sort_dedup_props, sort_dedup};
use crate::projection::{first_deleted, ratification_of, apply_result, keep_deleted, pending_list, pending_of, step, OutcomeV, PendingV, ProjectionV};
use crate::proposal::{claim_sources, claims_sources, Proposal};
use crate::laws::{counted, law_tally_groups, opened, opened_by};
use crate::ratify::{RatificationPolicy, conflicted, decided, evaluation_of, tally_groups, GroupV, PolicyV, RatificationStatus};
use crate::record::{record_sources, MemoryRecord, MemoryRecordV};
use crate::review::{ReviewDecision, ReviewV};

verus! {

/// Claim `c` cites source event `x`, as evidence or as counterevidence.
pub open spec fn cites(c: ClaimV, x: Seq<char>) -> bool {
    ||| exists|k: int| 0 <= k < c.evidence.len() && (#[trigger] c.evidence[k]).event_id == x
    ||| exists|k: int| 0 <= k < c.counterevidence.len() && (#[trigger] c.counterevidence[k]).event_id == x
}

/// Some claim of `claims` cites source event `x`.
pub open spec fn cited_by(claims: Seq<ClaimV>, x: Seq<char>) -> bool {
    exists|i: int| 0 <= i < claims.len() && cites(#[trigger] claims[i], x)
}

proof fn lemma_claim_sources(c: ClaimV, x: Seq<char>)
    ensures
        claim_sources(c).contains(x) <==> cites(c, x),
{
    let all = c.evidence + c.counterevidence;
    let ids = claim_sources(c);
    assert(ids.len() == all.len());
    if ids.contains(x) {
        let k = choose|k: int| 0 <= k < ids.len() && ids[k] == x;
        assert(ids[k] == all[k].event_id);
        if k < c.evidence.len() {
            assert(all[k] == c.evidence[k]);
        } else {
            assert(all[k] == c.counterevidence[k - c.evidence.len()]);
        }
    }
    if exists|k: int| 0 <= k < c.evidence.len() && (#[trigger] c.evidence[k]).event_id == x {
        let k = choose|k: int| 0 <= k < c.evidence.len() && (#[trigger] c.evidence[k]).event_id == x;
        assert(all[k] == c.evidence[k]);
        assert(ids[k] == x);
    }
    if exists|k: int| 0 <= k < c.counterevidence.len() && (#[trigger] c.counterevidence[k]).event_id == x {
        let k = choose|k: int| 0 <= k < c.counterevidence.len() && (#[trigger] c.counterevidence[k]).event_id == x;
        let m = c.evidence.len() + k;
        assert(all[m] == c.counterevidence[k]);
        assert(ids[m] == x);
    }
}

proof fn lemma_claims_sources(cs: Seq<ClaimV>, x: Seq<char>)
    ensures
        claims_sources(cs).contains(x) <==> cited_by(cs, x),
    decreases cs.len(),
{
    if cs.len() > 0 {
        let c0 = cs.drop_last();
        let last = cs.last();
        lemma_claims_sources(c0, x);
        lemma_claim_sources(last, x);
        let a = claims_sources(c0);
        let b = claim_sources(last);
        assert(claims_sources(cs) == a + b);
        if (a + b).contains(x) {
            let k = choose|k: int| 0 <= k < (a + b).len() && (a + b)[k] == x;
            if k < a.len() {
                assert(a[k] == x);
                let i = choose|i: int| 0 <= i < c0.len() && cites(#[trigger] c0[i], x);
                assert(cs[i] == c0[i]);
            } else {
                assert(b[k - a.len()] == x);
                assert(cs[cs.len() - 1] == last);
            }
        }
        if cited_by(cs, x) {
            let i = choose|i: int| 0 <= i < cs.len() && cites(#[trigger] cs[i], x);
            if i < cs.len() - 1 {
                assert(c0[i] == cs[i]);
                let k = choose|k: int| 0 <= k < a.len() && a[k] == x;
                assert((a + b)[k] == x);
            } else {
                assert(cs[i] == last);
                let k = choose|k: int| 0 <= k < b.len() && b[k] == x;
                assert((a + b)[a.len() + k] == x);
            }
        }
    } else {
        assert(claims_sources(cs) =~= Seq::<Seq<char>>::empty());
    }
}

/// The sources of a record are exactly the events its claims cite.
pub proof fn law_record_sources_are_cited(r: MemoryRecordV, x: Seq<char>)
    ensures
        record_sources(r).contains(x) <==> cited_by(r.claims, x),
{
    let all = claims_sources(r.claims);
    lemma_sort_dedup_props::<String>(all);
    lemma_claims_sources(r.claims, x);
    if all.contains(x) {
        let i = choose|i: int| 0 <= i < all.len() && all[i] == x;
        let j = choose|j: int|
            0 <= j < sort_dedup::<String>(all).len() && <String as crate::order::SortKey>::key(
                #[trigger] sort_dedup::<String>(all)[j],
            ) == <String as crate::order::SortKey>::key(all[i]);
        assert(sort_dedup::<String>(all).contains(sort_dedup::<String>(all)[j]));
    }
}

/// An invalidation is applied only when every source it names is cited by
/// a claim of its target record, and that record is signed by the
/// invalidation's author.
pub proof fn law_invalidation_names_cited_sources(s: ProjectionV, e: EnvelopeV<InvalidationV>)
    requires
        apply_result(s, EngineEventV::Invalidation(e)) matches Ok((_, OutcomeV::Applied)),
    ensures
        lookup::<EventEnvelope<MemoryRecord>>(s.records, e.payload.target_record_event_id) matches Some(r)
            && r.author == e.author && r.payload.record_id == e.payload.target_record_id && forall|k: int|
            0 <= k < e.payload.source_event_ids.len() ==> cited_by(
                r.payload.claims,
                #[trigger] e.payload.source_event_ids[k],
            ),
{
    reveal(step);
    assert(crate::projection::invalidation_check(s, e) is None);
    let r = lookup::<EventEnvelope<MemoryRecord>>(s.records, e.payload.target_record_event_id)->0;
    assert forall|k: int| 0 <= k < e.payload.source_event_ids.len() implies cited_by(
        r.payload.claims,
        #[trigger] e.payload.source_event_ids[k],
    ) by {
        law_record_sources_are_cited(r.payload, e.payload.source_event_ids[k]);
    }
}

/// The claim of `claims` with id `id` is asserted.
pub open spec fn asserted_id(claims: Seq<ClaimV>, id: Seq<char>) -> bool {
    exists|j: int| 0 <= j < claims.len() && (#[trigger] claims[j]).claim_id == id && claims[j].state
        == crate::claim::ClaimState::Asserted
}

/// Some claim of `claims` has id `id`.
pub open spec fn has_claim_id(claims: Seq<ClaimV>, id: Seq<char>) -> bool {
    exists|i: int| 0 <= i < claims.len() && (#[trigger] claims[i]).claim_id == id
}

/// A record is applied only when its claim ids are exactly the ids of its
/// proposal's asserted claims: none left out, none added.
pub proof fn law_record_carries_exactly_the_asserted_claims(s: ProjectionV, e: EnvelopeV<MemoryRecordV>, id: Seq<char>)
    requires
        apply_result(s, EngineEventV::Record(e)) matches Ok((_, OutcomeV::Applied)),
    ensures
        lookup::<EventEnvelope<Proposal>>(s.proposals, e.payload.proposal_event_id) matches Some(p) && (
        has_claim_id(e.payload.claims, id) <==> asserted_id(p.payload.claims, id)),
{
    crate::laws::law_record_requires_ratification(s, e);
    let p = lookup::<EventEnvelope<Proposal>>(s.proposals, e.payload.proposal_event_id)->0;
    let ids = crate::projection::claim_ids(e.payload.claims);
    if has_claim_id(e.payload.claims, id) {
        let i = choose|i: int| 0 <= i < e.payload.claims.len() && (#[trigger] e.payload.claims[i]).claim_id == id;
        assert(ids[i] == id);
        assert(crate::projection::asserted(p.payload.claims, ids[i]));
        let j = choose|j: int|
            0 <= j < p.payload.claims.len() && p.payload.claims[j].state == crate::claim::ClaimState::Asserted
                && p.payload.claims[j].claim_id == id;
        assert(p.payload.claims[j].claim_id == id);
    }
    if asserted_id(p.payload.claims, id) {
        let j = choose|j: int|
            0 <= j < p.payload.claims.len() && (#[trigger] p.payload.claims[j]).claim_id == id
                && p.payload.claims[j].state == crate::claim::ClaimState::Asserted;
        assert(ids.contains(p.payload.claims[j].claim_id));
        let i = choose|i: int| 0 <= i < ids.len() && ids[i] == id;
        assert(e.payload.claims[i].claim_id == id);
    }
}

/// Claim `c` cites one of the sources `xs`.
pub open spec fn cites_one_of(c: ClaimV, xs: Seq<Seq<char>>) -> bool {
    exists|k: int| 0 <= k < xs.len() && cites(c, #[trigger] xs[k])
}

/// Some claim of `claims` has id `id` and cites one of the sources `xs`.
pub open spec fn claim_citing(claims: Seq<ClaimV>, id: Seq<char>, xs: Seq<Seq<char>>) -> bool {
    exists|i: int| 0 <= i < claims.len() && (#[trigger] claims[i]).claim_id == id && cites_one_of(claims[i], xs)
}

proof fn lemma_claim_sources_hit(c: ClaimV, xs: Seq<Seq<char>>)
    ensures
        (exists|j: int| 0 <= j < claim_sources(c).len() && xs.contains(#[trigger] claim_sources(c)[j]))
            <==> cites_one_of(c, xs),
{
    let ids = claim_sources(c);
    if exists|j: int| 0 <= j < ids.len() && xs.contains(#[trigger] ids[j]) {
        let j = choose|j: int| 0 <= j < ids.len() && xs.contains(#[trigger] ids[j]);
        let k = choose|k: int| 0 <= k < xs.len() && xs[k] == ids[j];
        assert(ids.contains(ids[j]));
        lemma_claim_sources(c, xs[k]);
    }
    if cites_one_of(c, xs) {
        let k = choose|k: int| 0 <= k < xs.len() && cites(c, #[trigger] xs[k]);
        lemma_claim_sources(c, xs[k]);
        let j = choose|j: int| 0 <= j < ids.len() && ids[j] == xs[k];
        assert(xs.contains(ids[j]));
    }
}

/// The claims that a deletion affects are exactly those that cite one of
/// the deleted sources.
pub proof fn law_affected_claims_cite_deleted_sources(claims: Seq<ClaimV>, dels: Seq<Seq<char>>, id: Seq<char>)
    ensures
        crate::projection::affected_claims(claims, dels).contains(id) <==> claim_citing(claims, id, dels),
    decreases claims.len(),
{
    if claims.len() > 0 {
        let c0 = claims.drop_last();
        let c = claims.last();
        let n = claims.len() - 1;
        law_affected_claims_cite_deleted_sources(c0, dels, id);
        lemma_claim_sources_hit(c, dels);
        let rest = crate::projection::affected_claims(c0, dels);
        let all = crate::projection::affected_claims(claims, dels);
        assert(claims[n] == c);
        if claim_citing(c0, id, dels) {
            let i = choose|i: int| 0 <= i < c0.len() && (#[trigger] c0[i]).claim_id == id && cites_one_of(c0[i], dels);
            assert(claims[i] == c0[i]);
        }
        if claim_citing(claims, id, dels) {
            let i = choose|i: int| 0 <= i < claims.len() && (#[trigger] claims[i]).claim_id == id && cites_one_of(claims[i], dels);
            if i < n {
                assert(c0[i] == claims[i]);
            }
        }
        if cites_one_of(c, dels) {
            assert(all == rest.push(c.claim_id));
            if all.contains(id) {
                let k = choose|k: int| 0 <= k < all.len() && all[k] == id;
                if k < rest.len() {
                    assert(rest[k] == id);
                }
            }
            if rest.contains(id) {
                let k = choose|k: int| 0 <= k < rest.len() && rest[k] == id;
                assert(all[k] == id);
            }
            assert(all[all.len() - 1] == c.claim_id);
        } else {
            assert(all == rest);
        }
    }
}

proof fn lemma_keep_deleted(srcs: Seq<Seq<char>>, deleted: Seq<Seq<char>>, x: Seq<char>)
    ensures
        keep_deleted(srcs, deleted).contains(x) <==> srcs.contains(x) && deleted.contains(x),
    decreases srcs.len(),
{
    if srcs.len() > 0 {
        let s0 = srcs.drop_last();
        let n = srcs.len() - 1;
        lemma_keep_deleted(s0, deleted, x);
        let rest = keep_deleted(s0, deleted);
        let all = keep_deleted(srcs, deleted);
        assert(srcs[n] == srcs.last());
        if srcs.contains(x) {
            let i = choose|i: int| 0 <= i < srcs.len() && srcs[i] == x;
            if i < n {
                assert(s0[i] == x);
            }
        }
        if s0.contains(x) {
            let i = choose|i: int| 0 <= i < s0.len() && s0[i] == x;
            assert(srcs[i] == x);
        }
        if deleted.contains(srcs.last()) {
            assert(all == rest.push(srcs.last()));
            assert(all[all.len() - 1] == srcs.last());
            if all.contains(x) {
                let k = choose|k: int| 0 <= k < all.len() && all[k] == x;
                if k < rest.len() {
                    assert(rest[k] == x);
                }
            }
            if rest.contains(x) {
                let k = choose|k: int| 0 <= k < rest.len() && rest[k] == x;
                assert(all[k] == x);
            }
        }
    }
}

/// A pending invalidation of record `r`: it names `r`, exactly the deleted
/// sources that `r`'s claims cite, and exactly the claims that cite one of
/// them.
pub open spec fn pending_for(p: PendingV, r: EnvelopeV<MemoryRecordV>, deleted: Seq<Seq<char>>) -> bool {
    &&& p.target_record_event_id == r.event_id
    &&& p.target_record_id == r.payload.record_id
    &&& forall|x: Seq<char>|
        #[trigger] p.source_event_ids.contains(x) <==> deleted.contains(x) && cited_by(r.payload.claims, x)
    &&& forall|id: Seq<char>|
        #[trigger] p.affected_claim_ids.contains(id) <==> claim_citing(r.payload.claims, id, p.source_event_ids)
}

/// Pending invalidation `p` is one of some record among `records`.
pub open spec fn pending_of_some(p: PendingV, records: Seq<EnvelopeV<MemoryRecordV>>, deleted: Seq<Seq<char>>) -> bool {
    exists|m: int| 0 <= m < records.len() && #[trigger] pending_for(p, records[m], deleted)
}

proof fn lemma_pending_list(
    records: Seq<EnvelopeV<MemoryRecordV>>,
    invs: Seq<EnvelopeV<InvalidationV>>,
    deleted: Seq<Seq<char>>,
)
    ensures
        forall|k: int|
            #![trigger pending_list(records, invs, deleted)[k]]
            0 <= k < pending_list(records, invs, deleted).len() ==> pending_of_some(
                pending_list(records, invs, deleted)[k],
                records,
                deleted,
            ),
    decreases records.len(),
{
    if records.len() > 0 {
        let r0 = records.drop_last();
        let n = records.len() - 1;
        let r = records.last();
        lemma_pending_list(r0, invs, deleted);
        let rest = pending_list(r0, invs, deleted);
        let all = pending_list(records, invs, deleted);
        let dels = keep_deleted(record_sources(r.payload), deleted);
        assert(records[n] == r);
        assert forall|k: int| #![trigger rest[k]] 0 <= k < rest.len() implies pending_of_some(rest[k], records, deleted) by {
            assert(pending_of_some(rest[k], r0, deleted));
            let m = choose|m: int| 0 <= m < r0.len() && #[trigger] pending_for(rest[k], r0[m], deleted);
            assert(records[m] == r0[m]);
            assert(pending_for(rest[k], records[m], deleted));
        }
        if !(dels.len() == 0 || crate::projection::invalidated(invs, r.event_id)) {
            let p = PendingV {
                target_record_event_id: r.event_id,
                target_record_id: r.payload.record_id,
                affected_claim_ids: crate::projection::affected_claims(r.payload.claims, dels),
                source_event_ids: dels,
            };
            assert(all == rest.push(p));
            assert forall|x: Seq<char>| #[trigger] p.source_event_ids.contains(x) <==> deleted.contains(x)
                && cited_by(r.payload.claims, x) by {
                lemma_keep_deleted(record_sources(r.payload), deleted, x);
                law_record_sources_are_cited(r.payload, x);
            }
            assert forall|id: Seq<char>| #[trigger] p.affected_claim_ids.contains(id) <==> claim_citing(
                r.payload.claims,
                id,
                p.source_event_ids,
            ) by {
                law_affected_claims_cite_deleted_sources(r.payload.claims, dels, id);
            }
            assert(pending_for(p, records[n], deleted));
            assert forall|k: int| #![trigger all[k]] 0 <= k < all.len() implies pending_of_some(all[k], records, deleted) by {
                if k < rest.len() {
                    assert(all[k] == rest[k]);
                } else {
                    assert(all[k] == p);
                }
            }
        } else {
            assert(all == rest);
        }
    }
}

/// Each pending invalidation names a stored record, exactly the deleted
/// sources its claims cite, and exactly the claims that cite one of them;
/// a claim whose evidence is intact is never listed.
pub proof fn law_pending_invalidations_name_affected_claims(s: ProjectionV)
    ensures
        forall|k: int|
            #![trigger pending_of(s)[k]]
            0 <= k < pending_of(s).len() ==> pending_of_some(pending_of(s)[k], s.records, s.deleted_sources),
{
    lemma_pending_list(s.records, s.invalidations, s.deleted_sources);
}

proof fn lemma_decided_has(gs: Seq<GroupV>, d: ReviewDecision)
    ensures
        decided(gs, d).len() > 0 <==> exists|k: int| 0 <= k < gs.len() && !(#[trigger] gs[k]).conflict && gs[k].decision == d,
    decreases gs.len(),
{
    if gs.len() > 0 {
        let g0 = gs.drop_last();
        lemma_decided_has(g0, d);
        let n = gs.len() - 1;
        assert(gs[n] == gs.last());
        if exists|k: int| 0 <= k < g0.len() && !(#[trigger] g0[k]).conflict && g0[k].decision == d {
            let k = choose|k: int| 0 <= k < g0.len() && !(#[trigger] g0[k]).conflict && g0[k].decision == d;
            assert(gs[k] == g0[k]);
        }
        if exists|k: int| 0 <= k < gs.len() && !(#[trigger] gs[k]).conflict && gs[k].decision == d {
            let k = choose|k: int| 0 <= k < gs.len() && !(#[trigger] gs[k]).conflict && gs[k].decision == d;
            if k < n {
                assert(g0[k] == gs[k]);
            }
        }
    }
}

proof fn lemma_conflicted_has(gs: Seq<GroupV>)
    ensures
        conflicted(gs).len() > 0 <==> exists|k: int| 0 <= k < gs.len() && (#[trigger] gs[k]).conflict,
    decreases gs.len(),
{
    if gs.len() > 0 {
        let g0 = gs.drop_last();
        lemma_conflicted_has(g0);
        let n = gs.len() - 1;
        assert(gs[n] == gs.last());
        if exists|k: int| 0 <= k < g0.len() && (#[trigger] g0[k]).conflict {
            let k = choose|k: int| 0 <= k < g0.len() && (#[trigger] g0[k]).conflict;
            assert(gs[k] == g0[k]);
        }
        if exists|k: int| 0 <= k < gs.len() && (#[trigger] gs[k]).conflict {
            let k = choose|k: int| 0 <= k < gs.len() && (#[trigger] gs[k]).conflict;
            if k < n {
                assert(g0[k] == gs[k]);
            }
        }
    }
}

proof fn lemma_sort_dedup_empty(s: Seq<Seq<char>>)
    ensures
        sort_dedup::<String>(s).len() > 0 <==> s.len() > 0,
{
    lemma_sort_dedup_props::<String>(s);
    if s.len() > 0 {
        let j = choose|j: int|
            0 <= j < sort_dedup::<String>(s).len() && <String as crate::order::SortKey>::key(
                #[trigger] sort_dedup::<String>(s)[j],
            ) == <String as crate::order::SortKey>::key(s[0]);
    }
    if sort_dedup::<String>(s).len() > 0 {
        assert(sort_dedup::<String>(s).contains(sort_dedup::<String>(s)[0]));
    }
}

/// Two reviews of proposal `pid` that count under ratifiers `rat` decide
/// differently.
pub open spec fn disagree(rs: Seq<EnvelopeV<ReviewV>>, pid: Seq<char>, rat: Seq<Seq<char>>) -> bool {
    exists|i: int, j: int|
        0 <= i < rs.len() && 0 <= j < rs.len() && counted(#[trigger] rs[i], pid, rat) && counted(
            #[trigger] rs[j],
            pid,
            rat,
        ) && rs[i].payload.decision != rs[j].payload.decision
}

/// A proposal is contested exactly when two of its counted reviews decide
/// differently, whether by one ratifier or by two, and whatever the quorum:
/// an acceptance beside a rejection or a request for revision never
/// ratifies.
pub proof fn law_contested_exactly_on_disagreement(rs: Seq<EnvelopeV<ReviewV>>, pid: Seq<char>, p: PolicyV)
    ensures
        evaluation_of(rs, pid, p).status == RatificationStatus::Contested <==> disagree(rs, pid, p.ratifiers),
{
    let rat = p.ratifiers;
    let gs = tally_groups(rs, pid, rat);
    law_tally_groups(rs, pid, rat);
    lemma_conflicted_has(gs);
    lemma_decided_has(gs, ReviewDecision::Accept);
    lemma_decided_has(gs, ReviewDecision::Reject);
    lemma_decided_has(gs, ReviewDecision::Revise);
    lemma_sort_dedup_empty(conflicted(gs));
    lemma_sort_dedup_empty(decided(gs, ReviewDecision::Accept));
    lemma_sort_dedup_empty(decided(gs, ReviewDecision::Reject));
    lemma_sort_dedup_empty(decided(gs, ReviewDecision::Revise));
    if disagree(rs, pid, rat) {
        let (i, j) = choose|i: int, j: int|
            0 <= i < rs.len() && 0 <= j < rs.len() && counted(#[trigger] rs[i], pid, rat) && counted(
                #[trigger] rs[j],
                pid,
                rat,
            ) && rs[i].payload.decision != rs[j].payload.decision;
        let ki = choose|k: int| 0 <= k < gs.len() && gs[k].author == rs[i].author;
        let kj = choose|k: int| 0 <= k < gs.len() && gs[k].author == rs[j].author;
        assert(gs[ki].author == rs[i].author);
        assert(gs[kj].author == rs[j].author);
        if !gs[ki].conflict && !gs[kj].conflict {
            assert(gs[ki].decision == rs[i].payload.decision);
            assert(gs[kj].decision == rs[j].payload.decision);
        }
    }
    if evaluation_of(rs, pid, p).status == RatificationStatus::Contested {
        if exists|k: int| 0 <= k < gs.len() && (#[trigger] gs[k]).conflict {
            let k = choose|k: int| 0 <= k < gs.len() && (#[trigger] gs[k]).conflict;
            assert(opened(rs, pid, rat, gs[k]));
            let a = choose|i: int| opened_by(rs, pid, rat, gs[k], i);
            let b = choose|i: int|
                0 <= i < rs.len() && counted(rs[i], pid, rat) && rs[i].author == gs[k].author
                    && rs[i].payload.decision != gs[k].decision;
            assert(counted(rs[a], pid, rat) && counted(rs[b], pid, rat));
        } else {
            let (d1, d2) = if decided(gs, ReviewDecision::Accept).len() > 0 {
                if decided(gs, ReviewDecision::Reject).len() > 0 {
                    (ReviewDecision::Accept, ReviewDecision::Reject)
                } else {
                    (ReviewDecision::Accept, ReviewDecision::Revise)
                }
            } else {
                (ReviewDecision::Reject, ReviewDecision::Revise)
            };
            let k1 = choose|k: int| 0 <= k < gs.len() && !(#[trigger] gs[k]).conflict && gs[k].decision == d1;
            let k2 = choose|k: int| 0 <= k < gs.len() && !(#[trigger] gs[k]).conflict && gs[k].decision == d2;
            assert(opened(rs, pid, rat, gs[k1]));
            assert(opened(rs, pid, rat, gs[k2]));
            let a = choose|i: int| opened_by(rs, pid, rat, gs[k1], i);
            let b = choose|i: int| opened_by(rs, pid, rat, gs[k2], i);
            assert(counted(rs[a], pid, rat) && counted(rs[b], pid, rat));
        }
    }
}

/// The stored ratification of an available proposal is contested exactly
/// when two of its counted reviews decide differently.
pub proof fn law_ratification_contested_exactly_on_disagreement(s: ProjectionV, pid: Seq<char>)
    requires
        lookup::<EventEnvelope<Proposal>>(s.proposals, pid) matches Some(p) && first_deleted(
            crate::proposal::proposal_sources(p.payload),
            s.deleted_sources,
        ) is None && lookup::<RatificationPolicy>(s.policies, p.payload.policy_id) is Some,
    ensures
        ({
            let p = lookup::<EventEnvelope<Proposal>>(s.proposals, pid)->0;
            let pol = lookup::<RatificationPolicy>(s.policies, p.payload.policy_id)->0;
            ratification_of(s, pid) matches Ok(ev) && (ev.status == RatificationStatus::Contested
                <==> disagree(s.reviews, pid, pol.ratifiers))
        }),
{
    let p = lookup::<EventEnvelope<Proposal>>(s.proposals, pid)->0;
    let pol = lookup::<RatificationPolicy>(s.policies, p.payload.policy_id)->0;
    law_contested_exactly_on_disagreement(s.reviews, pid, pol);
}

/// The refusal of a claim whose validity window is empty or reversed.
pub open spec fn window_fault() -> Fault {
    Fault::Invalid("claim.validUntil"@, "must be later than validFrom"@)
}

proof fn lemma_evidence_not_window(e: EvidenceRefV)
    ensures
        evidence_fault(e) != Some(window_fault()),
{
    reveal_strlit("claim.validUntil");
    reveal_strlit("relay");
    reveal_strlit("community");
    reveal_strlit("channelId");
    reveal_strlit("eventId");
    reveal_strlit("author");
    reveal_strlit("contentDigest");
    reveal_strlit("locator");
    let w = "claim.validUntil"@;
    assert(w.len() == 16);
    assert("relay"@.len() != w.len());
    assert("community"@.len() != w.len());
    assert("channelId"@.len() != w.len());
    assert("eventId"@.len() != w.len());
    assert("author"@.len() != w.len());
    assert("contentDigest"@.len() != w.len());
    assert("locator"@.len() != w.len());
}

proof fn lemma_evidence_list_not_window(es: Seq<EvidenceRefV>)
    ensures
        first_fault_in::<EvidenceRef>(es) != Some(window_fault()),
    decreases es.len(),
{
    if es.len() > 0 {
        lemma_evidence_not_window(es[0]);
        lemma_evidence_list_not_window(es.drop_first());
    }
}

/// A claim with a well-formed id and text is refused for its validity
/// window exactly when its end is not later than its start; a window that
/// ends later, or no end at all, is never the reason a claim is refused.
pub proof fn law_claim_window_refused_exactly_when_empty(c: ClaimV)
    requires
        crate::digest::is_hex_32(c.claim_id),
        !crate::text::is_blank(c.text),
    ensures
        claim_fault(c) == Some(window_fault()) <==> (c.valid_until matches Some(u) && u <= c.valid_from),
{
    lemma_evidence_list_not_window(c.evidence + c.counterevidence);
    reveal_strlit("claim.validUntil");
    reveal_strlit("claim.evidence");
    reveal_strlit("claim.counterevidence");
    reveal_strlit("claim.supersedes");
    reveal_strlit("claimId");
    assert("claim.validUntil"@[6] != "claim.supersedes"@[6]);
}

} // verus!
