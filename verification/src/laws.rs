//! Properties of the projection that hold across calls: what a repeated
//! event does, that stored state stays consistent and is never replaced,
//! what a record needs before it is accepted, what a deleted source does to
//! what cites it, and that the order in which events arrive is irrelevant.

use vstd::prelude::*;

use crate::envelope::{event_digest, event_id_of, EngineEventV, EngineFault, EnvelopeV, SourceDeletionV};
use crate::keyed::{has_key, lemma_insert_fresh, lookup};
use crate::projection::covered;
use crate::order::sorted_by_key;
use crate::ratify::PolicyV;
use crate::proposal::ProposalV;
use crate::invalidation::InvalidationV;
use crate::order::{insert_by_key, lemma_insert_commutes, lemma_insert_props, lemma_sort_dedup_props, sort_dedup, SortKey};
use crate::projection::{
    all_in, apply_result, availability_of, first_deleted, invalidated, keep_deleted,
    lemma_covered_grow, lemma_covered_insert, projection_wf, ratification_of, record_check, review_check, same_claim_set, step, AvailabilityV,
    EventDigest, OutcomeV, ProjectionV,
};
use crate::proposal::{proposal_sources, Proposal};
use crate::ratify::{
    add_review, evaluation_of, tally_groups, tally_unauthorized, unavailable_evaluation, EvaluationV,
    RatificationPolicy, RatificationStatus,
};
use crate::record::{record_sources, MemoryRecord, MemoryRecordV};
use crate::review::{Review, ReviewV};
use crate::envelope::EventEnvelope;
use crate::invalidation::Invalidation;
use crate::graph::{has_cycle, has_edge, is_walk};
use crate::keyed::{first_not_below, lemma_first_not_below};
use crate::order::lemma_insert_position;
use crate::projection::{
    graph_of, invalidation_check, invalidation_event_fault, policies_result, proposal_check,
    proposal_event_fault, record_event_fault, record_links_check, review_event_fault, stored_consistent,
    add_policy_result, empty_projection,
};

verus! {

/// Applying an event keeps the projection well formed: every collection in
/// key order, every stored event with its digest.
pub proof fn law_apply_keeps_order(s: ProjectionV, e: EngineEventV)
    requires
        projection_wf(s),
        apply_result(s, e) is Ok,
    ensures
        projection_wf(apply_result(s, e)->Ok_0.0),
{
    reveal(step);
    let eid = event_id_of(e);
    if lookup::<EventDigest>(s.event_digests, eid) is None {
        let entry = (eid, event_digest(e)->0);
        let g = insert_by_key::<EventDigest>(s.event_digests, entry);
        lemma_insert_fresh::<EventDigest>(s.event_digests, entry);
        assert(has_key::<EventDigest>(g, eid));
        lemma_covered_grow::<EventEnvelope<Proposal>>(s.proposals, s.event_digests, entry);
        lemma_covered_grow::<EventEnvelope<Review>>(s.reviews, s.event_digests, entry);
        lemma_covered_grow::<EventEnvelope<MemoryRecord>>(s.records, s.event_digests, entry);
        lemma_covered_grow::<EventEnvelope<Invalidation>>(s.invalidations, s.event_digests, entry);
        match e {
            EngineEventV::Proposal(x) => {
                lemma_insert_props::<EventEnvelope<Proposal>>(s.proposals, x);
                lemma_covered_insert::<EventEnvelope<Proposal>>(s.proposals, x, g);
            },
            EngineEventV::Review(x) => {
                lemma_insert_props::<EventEnvelope<Review>>(s.reviews, x);
                lemma_covered_insert::<EventEnvelope<Review>>(s.reviews, x, g);
            },
            EngineEventV::Record(x) => {
                lemma_insert_props::<EventEnvelope<MemoryRecord>>(s.records, x);
                lemma_covered_insert::<EventEnvelope<MemoryRecord>>(s.records, x, g);
            },
            EngineEventV::Invalidation(x) => {
                lemma_insert_props::<EventEnvelope<Invalidation>>(s.invalidations, x);
                lemma_covered_insert::<EventEnvelope<Invalidation>>(s.invalidations, x, g);
            },
            EngineEventV::SourceDeleted(d) => {
                lemma_insert_props::<String>(s.deleted_sources, d.source_event_id);
            },
        }
    }
}

/// The supersession entries of the records `b` laid over `g`, in order.
pub open spec fn graph_over(g: Map<Seq<char>, Seq<Seq<char>>>, b: Seq<EnvelopeV<MemoryRecordV>>) -> Map<
    Seq<char>,
    Seq<Seq<char>>,
>
    decreases b.len(),
{
    if b.len() == 0 {
        g
    } else {
        graph_over(g, b.drop_last()).insert(b.last().payload.record_id, b.last().payload.supersedes_record_ids)
    }
}

/// Some record of `b` has record id `k`.
pub open spec fn names_record(b: Seq<EnvelopeV<MemoryRecordV>>, k: Seq<char>) -> bool {
    exists|j: int| 0 <= j < b.len() && (#[trigger] b[j]).payload.record_id == k
}

proof fn lemma_graph_split(a: Seq<EnvelopeV<MemoryRecordV>>, b: Seq<EnvelopeV<MemoryRecordV>>)
    ensures
        graph_of(a + b) == graph_over(graph_of(a), b),
    decreases b.len(),
{
    if b.len() == 0 {
        assert(a + b =~= a);
    } else {
        lemma_graph_split(a, b.drop_last());
        assert((a + b).drop_last() =~= a + b.drop_last());
        assert((a + b).last() == b.last());
    }
}

proof fn lemma_graph_over_insert(
    g: Map<Seq<char>, Seq<Seq<char>>>,
    k: Seq<char>,
    v: Seq<Seq<char>>,
    b: Seq<EnvelopeV<MemoryRecordV>>,
)
    ensures
        graph_over(g.insert(k, v), b) == (if names_record(b, k) {
            graph_over(g, b)
        } else {
            graph_over(g, b).insert(k, v)
        }),
    decreases b.len(),
{
    if b.len() > 0 {
        let b0 = b.drop_last();
        let y = b.last();
        lemma_graph_over_insert(g, k, v, b0);
        if y.payload.record_id == k {
            assert(b[b.len() - 1] == y);
            assert(names_record(b, k));
            assert(graph_over(g.insert(k, v), b) =~= graph_over(g, b));
        } else {
            if names_record(b, k) {
                let j = choose|j: int| 0 <= j < b.len() && (#[trigger] b[j]).payload.record_id == k;
                assert(j < b.len() - 1);
                assert(b0[j] == b[j]);
            }
            if names_record(b0, k) {
                let j = choose|j: int| 0 <= j < b0.len() && (#[trigger] b0[j]).payload.record_id == k;
                assert(b[j] == b0[j]);
            } else {
                assert(graph_over(g.insert(k, v), b) =~= graph_over(g, b).insert(k, v));
            }
        }
    }
}

/// Storing a record with a fresh event id either gives its supersessions to
/// its record id in the graph or, when a later stored record has that id,
/// leaves the graph as it was.
proof fn lemma_graph_insert_record(rs: Seq<EnvelopeV<MemoryRecordV>>, x: EnvelopeV<MemoryRecordV>)
    requires
        sorted_by_key::<EventEnvelope<MemoryRecord>>(rs),
        !has_key::<EventEnvelope<MemoryRecord>>(rs, x.event_id),
    ensures
        graph_of(insert_by_key::<EventEnvelope<MemoryRecord>>(rs, x)) == graph_of(rs) || graph_of(
            insert_by_key::<EventEnvelope<MemoryRecord>>(rs, x),
        ) == graph_of(rs).insert(x.payload.record_id, x.payload.supersedes_record_ids),
{
    let p = first_not_below::<EventEnvelope<MemoryRecord>>(rs, x.event_id);
    lemma_first_not_below::<EventEnvelope<MemoryRecord>>(rs, x.event_id);
    lemma_insert_position::<EventEnvelope<MemoryRecord>>(rs, x, p);
    if p < rs.len() && rs[p].event_id == x.event_id {
        assert(has_key::<EventEnvelope<MemoryRecord>>(rs, x.event_id));
    }
    let a = rs.take(p);
    let b = rs.skip(p);
    assert(rs =~= a + b);
    lemma_graph_split(a.push(x), b);
    lemma_graph_split(a, b);
    assert(a.push(x).drop_last() =~= a);
    lemma_graph_over_insert(graph_of(a), x.payload.record_id, x.payload.supersedes_record_ids, b);
}

/// An event id without a digest is the key of no stored element.
proof fn lemma_fresh_in_store<T: crate::keyed::Keyed>(store: Seq<T::V>, s: ProjectionV, eid: Seq<char>)
    requires
        covered::<T>(store, s.event_digests),
        lookup::<EventDigest>(s.event_digests, eid) is None,
    ensures
        !has_key::<T>(store, eid),
{
    if has_key::<T>(store, eid) {
        let i = choose|i: int| 0 <= i < store.len() && T::key(store[i]) == eid;
        assert(has_key::<EventDigest>(s.event_digests, T::key(store[i])));
    }
}

proof fn lemma_store_proposal(s: ProjectionV, x: EnvelopeV<ProposalV>)
    requires
        projection_wf(s),
        stored_consistent(s),
        !has_key::<EventEnvelope<Proposal>>(s.proposals, x.event_id),
        proposal_check(s, x) is None,
    ensures
        stored_consistent(ProjectionV { proposals: insert_by_key::<EventEnvelope<Proposal>>(s.proposals, x), ..s }),
{
    let t = ProjectionV { proposals: insert_by_key::<EventEnvelope<Proposal>>(s.proposals, x), ..s };
    lemma_insert_props::<EventEnvelope<Proposal>>(s.proposals, x);
    lemma_insert_fresh::<EventEnvelope<Proposal>>(s.proposals, x);
    let n = t.proposals;
    assert forall|i: int| 0 <= i < n.len() implies proposal_event_fault(#[trigger] n[i]) is None by {
        assert(n.contains(n[i]));
        if n[i] != x {
            let k = choose|k: int| 0 <= k < s.proposals.len() && s.proposals[k] == n[i];
        }
    }
    assert forall|i: int| 0 <= i < t.reviews.len() implies review_event_fault(#[trigger] t.reviews[i]) is None
        && lookup::<EventEnvelope<Proposal>>(n, t.reviews[i].payload.proposal_event_id) is Some by {
        assert(lookup::<EventEnvelope<Proposal>>(s.proposals, t.reviews[i].payload.proposal_event_id) is Some);
    }
    assert forall|i: int| 0 <= i < t.records.len() implies record_event_fault(#[trigger] t.records[i]) is None
        && crate::projection::record_linked(n, t.records[i]) by {
        assert(crate::projection::record_linked(s.proposals, t.records[i]));
    }
}

proof fn lemma_store_review(s: ProjectionV, x: EnvelopeV<ReviewV>)
    requires
        stored_consistent(s),
        sorted_by_key::<EventEnvelope<Review>>(s.reviews),
        review_check(s, x) is None,
    ensures
        stored_consistent(ProjectionV { reviews: insert_by_key::<EventEnvelope<Review>>(s.reviews, x), ..s }),
{
    let t = ProjectionV { reviews: insert_by_key::<EventEnvelope<Review>>(s.reviews, x), ..s };
    lemma_insert_props::<EventEnvelope<Review>>(s.reviews, x);
    let n = t.reviews;
    assert forall|i: int| 0 <= i < n.len() implies review_event_fault(#[trigger] n[i]) is None
        && lookup::<EventEnvelope<Proposal>>(t.proposals, n[i].payload.proposal_event_id) is Some by {
        assert(n.contains(n[i]));
        if n[i] != x {
            let k = choose|k: int| 0 <= k < s.reviews.len() && s.reviews[k] == n[i];
        }
    }
}

#[verifier::rlimit(40)]
proof fn lemma_store_record(s: ProjectionV, x: EnvelopeV<MemoryRecordV>)
    requires
        projection_wf(s),
        stored_consistent(s),
        !has_key::<EventEnvelope<MemoryRecord>>(s.records, x.event_id),
        record_event_fault(x) is None,
        crate::projection::record_linked(s.proposals, x),
        record_links_check(s, x) is None,
    ensures
        stored_consistent(ProjectionV { records: insert_by_key::<EventEnvelope<MemoryRecord>>(s.records, x), ..s }),
{
    let t = ProjectionV { records: insert_by_key::<EventEnvelope<MemoryRecord>>(s.records, x), ..s };
    lemma_insert_props::<EventEnvelope<MemoryRecord>>(s.records, x);
    lemma_insert_fresh::<EventEnvelope<MemoryRecord>>(s.records, x);
    lemma_graph_insert_record(s.records, x);
    let n = t.records;
    assert forall|i: int| 0 <= i < n.len() implies record_event_fault(#[trigger] n[i]) is None
        && crate::projection::record_linked(t.proposals, n[i]) by {
        assert(n.contains(n[i]));
        if n[i] != x {
            let k = choose|k: int| 0 <= k < s.records.len() && s.records[k] == n[i];
        }
    }
    assert forall|i: int| 0 <= i < t.invalidations.len() implies invalidation_event_fault(
        #[trigger] t.invalidations[i],
    ) is None && crate::projection::invalidation_linked(n, t.invalidations[i]) by {
        assert(crate::projection::invalidation_linked(s.records, t.invalidations[i]));
    }
}

proof fn lemma_store_invalidation(s: ProjectionV, x: EnvelopeV<InvalidationV>)
    requires
        stored_consistent(s),
        sorted_by_key::<EventEnvelope<Invalidation>>(s.invalidations),
        invalidation_check(s, x) is None,
    ensures
        stored_consistent(
            ProjectionV { invalidations: insert_by_key::<EventEnvelope<Invalidation>>(s.invalidations, x), ..s },
        ),
{
    let t = ProjectionV { invalidations: insert_by_key::<EventEnvelope<Invalidation>>(s.invalidations, x), ..s };
    lemma_insert_props::<EventEnvelope<Invalidation>>(s.invalidations, x);
    let n = t.invalidations;
    assert forall|i: int| 0 <= i < n.len() implies invalidation_event_fault(#[trigger] n[i]) is None
        && crate::projection::invalidation_linked(t.records, n[i]) by {
        assert(n.contains(n[i]));
        if n[i] != x {
            let k = choose|k: int| 0 <= k < s.invalidations.len() && s.invalidations[k] == n[i];
        }
    }
}

/// Applying an event keeps the stored state consistent: stored events pass
/// their checks, references and signers stay matched, and the supersession
/// graph stays free of cycles.
pub proof fn law_apply_keeps_stored_consistent(s: ProjectionV, e: EngineEventV)
    requires
        projection_wf(s),
        stored_consistent(s),
        apply_result(s, e) is Ok,
    ensures
        stored_consistent(apply_result(s, e)->Ok_0.0),
{
    let eid = event_id_of(e);
    if lookup::<EventDigest>(s.event_digests, eid) is None {
        let t = apply_result(s, e)->Ok_0.0;
        let s2 = step(s, e)->Ok_0.0;
        assert(t == ProjectionV { event_digests: t.event_digests, ..s2 });
        reveal(step);
        match e {
            EngineEventV::Proposal(x) => {
                lemma_fresh_in_store::<EventEnvelope<Proposal>>(s.proposals, s, eid);
                lemma_store_proposal(s, x);
            },
            EngineEventV::Review(x) => {
                lemma_store_review(s, x);
            },
            EngineEventV::Record(x) => {
                lemma_fresh_in_store::<EventEnvelope<MemoryRecord>>(s.records, s, eid);
                lemma_record_check_parts(s, x);
                lemma_store_record(s, x);
            },
            EngineEventV::Invalidation(x) => {
                lemma_store_invalidation(s, x);
            },
            EngineEventV::SourceDeleted(d) => {},
        }
    }
}

/// A record that passes its check passes its own rules, is linked to its
/// proposal, and keeps the graph free of cycles.
proof fn lemma_record_check_parts(s: ProjectionV, x: EnvelopeV<MemoryRecordV>)
    requires
        crate::projection::record_check(s, x) is None,
    ensures
        record_event_fault(x) is None,
        crate::projection::record_linked(s.proposals, x),
        record_links_check(s, x) is None,
{
}

/// Nothing stored is ever replaced or removed: after an event is applied,
/// every policy, proposal, review, record and invalidation found before is
/// found again, unchanged.
pub proof fn law_apply_keeps_stored_events(s: ProjectionV, e: EngineEventV, k: Seq<char>)
    requires
        projection_wf(s),
        apply_result(s, e) is Ok,
    ensures
        ({
            let t = apply_result(s, e)->Ok_0.0;
            &&& t.policies == s.policies
            &&& lookup::<EventEnvelope<Proposal>>(s.proposals, k) is Some ==> lookup::<EventEnvelope<Proposal>>(
                t.proposals,
                k,
            ) == lookup::<EventEnvelope<Proposal>>(s.proposals, k)
            &&& lookup::<EventEnvelope<Review>>(s.reviews, k) is Some ==> lookup::<EventEnvelope<Review>>(
                t.reviews,
                k,
            ) == lookup::<EventEnvelope<Review>>(s.reviews, k)
            &&& lookup::<EventEnvelope<MemoryRecord>>(s.records, k) is Some ==> lookup::<
                EventEnvelope<MemoryRecord>,
            >(t.records, k) == lookup::<EventEnvelope<MemoryRecord>>(s.records, k)
            &&& lookup::<EventEnvelope<Invalidation>>(s.invalidations, k) is Some ==> lookup::<
                EventEnvelope<Invalidation>,
            >(t.invalidations, k) == lookup::<EventEnvelope<Invalidation>>(s.invalidations, k)
        }),
{
    let eid = event_id_of(e);
    if lookup::<EventDigest>(s.event_digests, eid) is None {
        reveal(step);
        match e {
            EngineEventV::Proposal(x) => {
                lemma_fresh_in_store::<EventEnvelope<Proposal>>(s.proposals, s, eid);
                lemma_insert_fresh::<EventEnvelope<Proposal>>(s.proposals, x);
            },
            EngineEventV::Review(x) => {
                lemma_fresh_in_store::<EventEnvelope<Review>>(s.reviews, s, eid);
                lemma_insert_fresh::<EventEnvelope<Review>>(s.reviews, x);
            },
            EngineEventV::Record(x) => {
                lemma_fresh_in_store::<EventEnvelope<MemoryRecord>>(s.records, s, eid);
                lemma_insert_fresh::<EventEnvelope<MemoryRecord>>(s.records, x);
            },
            EngineEventV::Invalidation(x) => {
                lemma_fresh_in_store::<EventEnvelope<Invalidation>>(s.invalidations, s, eid);
                lemma_insert_fresh::<EventEnvelope<Invalidation>>(s.invalidations, x);
            },
            EngineEventV::SourceDeleted(d) => {},
        }
    }
}

/// Adding a policy never replaces a known one: a policy found before is
/// found again, unchanged, and nothing else changes.
pub proof fn law_add_policy_keeps_policies(s: ProjectionV, p: PolicyV, k: Seq<char>)
    requires
        projection_wf(s),
        add_policy_result(s, p) is Ok,
    ensures
        lookup::<RatificationPolicy>(s.policies, k) is Some ==> lookup::<RatificationPolicy>(
            add_policy_result(s, p)->Ok_0.policies,
            k,
        ) == lookup::<RatificationPolicy>(s.policies, k),
        add_policy_result(s, p)->Ok_0 == (ProjectionV { policies: add_policy_result(s, p)->Ok_0.policies, ..s }),
{
    if lookup::<RatificationPolicy>(s.policies, p.policy_id) is None {
        lemma_insert_fresh::<RatificationPolicy>(s.policies, p);
    }
}

/// What applying `es` in turn to `s` gives: the final state, or the first
/// fault.
pub open spec fn apply_all(s: ProjectionV, es: Seq<EngineEventV>) -> Result<ProjectionV, EngineFault>
    decreases es.len(),
{
    if es.len() == 0 {
        Ok(s)
    } else {
        match apply_all(s, es.drop_last()) {
            Err(f) => Err(f),
            Ok(t) => match apply_result(t, es.last()) {
                Ok((t2, _o)) => Ok(t2),
                Err(f) => Err(f),
            },
        }
    }
}

/// The events of `es` carry distinct ids that `s` has not seen.
pub open spec fn fresh_distinct(s: ProjectionV, es: Seq<EngineEventV>) -> bool {
    &&& forall|i: int| 0 <= i < es.len() ==> lookup::<EventDigest>(s.event_digests, event_id_of(#[trigger] es[i])) is None
    &&& forall|i: int, j: int| 0 <= i < j < es.len() ==> event_id_of(#[trigger] es[i]) != event_id_of(#[trigger] es[j])
}

/// Event `e` observes the deletion of source `v`.
pub open spec fn deletes_source(e: EngineEventV, v: Seq<char>) -> bool {
    match e {
        EngineEventV::SourceDeleted(d) => d.source_event_id == v,
        _ => false,
    }
}

/// Some event of `es` observes the deletion of source `v`.
pub open spec fn deletes(es: Seq<EngineEventV>, v: Seq<char>) -> bool {
    exists|i: int| 0 <= i < es.len() && deletes_source(#[trigger] es[i], v)
}

/// The digest entry that applying `e` records.
#[verifier::opaque]
pub open spec fn entry_of(e: EngineEventV) -> (Seq<char>, Seq<char>) {
    (event_id_of(e), event_digest(e)->0)
}

/// Some event of `es` records digest entry `v`.
pub open spec fn digested(es: Seq<EngineEventV>, v: (Seq<char>, Seq<char>)) -> bool {
    exists|i: int| 0 <= i < es.len() && entry_of(#[trigger] es[i]) == v
}

/// Some event of `es` has id `k`.
pub open spec fn names_id(es: Seq<EngineEventV>, k: Seq<char>) -> bool {
    exists|i: int| 0 <= i < es.len() && event_id_of(#[trigger] es[i]) == k
}

/// `t` holds what `s` held and what the events `es` added, in key order.
spec fn reached(s: ProjectionV, es: Seq<EngineEventV>, t: ProjectionV) -> bool {
    &&& projection_wf(t)
    &&& t.policies == s.policies
    &&& forall|v: EnvelopeV<ProposalV>| #[trigger] t.proposals.contains(v) <==> s.proposals.contains(v) || es.contains(EngineEventV::Proposal(v))
    &&& forall|v: EnvelopeV<ReviewV>| #[trigger] t.reviews.contains(v) <==> s.reviews.contains(v) || es.contains(EngineEventV::Review(v))
    &&& forall|v: EnvelopeV<MemoryRecordV>| #[trigger] t.records.contains(v) <==> s.records.contains(v) || es.contains(EngineEventV::Record(v))
    &&& forall|v: EnvelopeV<InvalidationV>| #[trigger] t.invalidations.contains(v) <==> s.invalidations.contains(v) || es.contains(EngineEventV::Invalidation(v))
    &&& forall|v: Seq<char>| #[trigger] t.deleted_sources.contains(v) <==> s.deleted_sources.contains(v) || deletes(es, v)
    &&& forall|v: (Seq<char>, Seq<char>)| #[trigger] t.event_digests.contains(v) <==> s.event_digests.contains(v) || digested(es, v)
    &&& forall|k: Seq<char>| #[trigger] has_key::<EventDigest>(t.event_digests, k) <==> has_key::<EventDigest>(s.event_digests, k) || names_id(es, k)
}

/// What the last event of `es` adds to what the others hold.
proof fn lemma_last_contains(es: Seq<EngineEventV>)
    requires
        es.len() > 0,
    ensures
        forall|x: EngineEventV| #[trigger] es.contains(x) <==> es.drop_last().contains(x) || x == es.last(),
{
    let es0 = es.drop_last();
    let n = es.len() - 1;
    assert(es[n] == es.last());
    assert forall|x: EngineEventV| #[trigger] es.contains(x) <==> es0.contains(x) || x == es.last() by {
        if es.contains(x) {
            let i = choose|i: int| 0 <= i < es.len() && es[i] == x;
            if i < n {
                assert(es0[i] == x);
            }
        }
        if es0.contains(x) {
            let i = choose|i: int| 0 <= i < es0.len() && es0[i] == x;
            assert(es[i] == x);
        }
    }
}

/// What the last event of `es` adds to the deletions the others observe.
proof fn lemma_last_deletes(es: Seq<EngineEventV>)
    requires
        es.len() > 0,
    ensures
        forall|v: Seq<char>| #[trigger] deletes(es, v) <==> deletes(es.drop_last(), v) || deletes_source(es.last(), v),
{
    let es0 = es.drop_last();
    let n = es.len() - 1;
    assert(es[n] == es.last());
    assert forall|v: Seq<char>| #[trigger] deletes(es, v) <==> deletes(es0, v) || deletes_source(es.last(), v) by {
        if deletes(es, v) {
            let i = choose|i: int| 0 <= i < es.len() && deletes_source(#[trigger] es[i], v);
            if i < n {
                assert(es0[i] == es[i]);
            }
        }
        if deletes(es0, v) {
            let i = choose|i: int| 0 <= i < es0.len() && deletes_source(#[trigger] es0[i], v);
            assert(es[i] == es0[i]);
        }
    }
}

/// What the last event of `es` adds to the digest entries the others record.
proof fn lemma_last_digested(es: Seq<EngineEventV>)
    requires
        es.len() > 0,
    ensures
        forall|v: (Seq<char>, Seq<char>)| #[trigger] digested(es, v) <==> digested(es.drop_last(), v) || entry_of(es.last()) == v,
{
    let es0 = es.drop_last();
    let n = es.len() - 1;
    assert(es[n] == es.last());
    assert forall|v: (Seq<char>, Seq<char>)| #[trigger] digested(es, v) <==> digested(es0, v) || entry_of(es.last()) == v by {
        if digested(es, v) {
            let i = choose|i: int| 0 <= i < es.len() && entry_of(#[trigger] es[i]) == v;
            if i < n {
                assert(es0[i] == es[i]);
            }
        }
        if digested(es0, v) {
            let i = choose|i: int| 0 <= i < es0.len() && entry_of(#[trigger] es0[i]) == v;
            assert(es[i] == es0[i]);
        }
    }
}

/// What the last event of `es` adds to the ids the others carry.
proof fn lemma_last_names(es: Seq<EngineEventV>)
    requires
        es.len() > 0,
    ensures
        forall|k: Seq<char>| #[trigger] names_id(es, k) <==> names_id(es.drop_last(), k) || event_id_of(es.last()) == k,
{
    let es0 = es.drop_last();
    let n = es.len() - 1;
    assert(es[n] == es.last());
    assert forall|k: Seq<char>| #[trigger] names_id(es, k) <==> names_id(es0, k) || event_id_of(es.last()) == k by {
        if names_id(es, k) {
            let i = choose|i: int| 0 <= i < es.len() && event_id_of(#[trigger] es[i]) == k;
            if i < n {
                assert(es0[i] == es[i]);
            }
        }
        if names_id(es0, k) {
            let i = choose|i: int| 0 <= i < es0.len() && event_id_of(#[trigger] es0[i]) == k;
            assert(es[i] == es0[i]);
        }
    }
}

/// A fresh element joins a key-ordered store and nothing else changes.
proof fn lemma_join<T: crate::keyed::Keyed>(store: Seq<T::V>, x: T::V)
    requires
        sorted_by_key::<T>(store),
        !has_key::<T>(store, T::key(x)),
    ensures
        forall|v: T::V| #[trigger] insert_by_key::<T>(store, x).contains(v) <==> store.contains(v) || v == x,
{
    lemma_insert_props::<T>(store, x);
    lemma_insert_fresh::<T>(store, x);
    crate::keyed::lemma_lookup_at::<T>(insert_by_key::<T>(store, x), 0);
    let r = insert_by_key::<T>(store, x);
    let i = choose|i: int| 0 <= i < r.len() && T::key(#[trigger] r[i]) == T::key(x);
    crate::keyed::lemma_lookup_at::<T>(r, i);
    assert(r.contains(r[i]));
}

#[verifier::rlimit(60)]
proof fn lemma_reached_step(s: ProjectionV, es: Seq<EngineEventV>, t: ProjectionV)
    requires
        es.len() > 0,
        reached(s, es.drop_last(), t),
        projection_wf(s),
        fresh_distinct(s, es),
        apply_result(t, es.last()) is Ok,
    ensures
        reached(s, es, apply_result(t, es.last())->Ok_0.0),
{
    let e = es.last();
    let es0 = es.drop_last();
    let n = es.len() - 1;
    let eid = event_id_of(e);
    let t2 = apply_result(t, e)->Ok_0.0;
    lemma_last_contains(es);
    lemma_last_deletes(es);
    lemma_last_digested(es);
    lemma_last_names(es);
    law_apply_keeps_order(t, e);
    assert(es[n] == e);
    assert(lookup::<EventDigest>(s.event_digests, eid) is None);
    assert(!names_id(es0, eid)) by {
        if names_id(es0, eid) {
            let i = choose|i: int| 0 <= i < es0.len() && event_id_of(#[trigger] es0[i]) == eid;
            assert(es[i] == es0[i]);
        }
    }
    assert(!has_key::<EventDigest>(t.event_digests, eid));
    let dg = event_digest(e)->0;
    let s2 = step(t, e)->Ok_0.0;
    assert(t2 == ProjectionV { event_digests: insert_by_key::<EventDigest>(s2.event_digests, (eid, dg)), ..s2 });
    reveal(step);
    assert(s2.event_digests == t.event_digests);
    lemma_join::<EventDigest>(t.event_digests, (eid, dg));
    lemma_insert_fresh::<EventDigest>(t.event_digests, (eid, dg));
    assert(entry_of(e) == (eid, dg)) by {
        reveal(entry_of);
    }
    match e {
        EngineEventV::Proposal(x) => {
            lemma_fresh_in_store::<EventEnvelope<Proposal>>(t.proposals, t, eid);
            lemma_join::<EventEnvelope<Proposal>>(t.proposals, x);
        },
        EngineEventV::Review(x) => {
            lemma_fresh_in_store::<EventEnvelope<Review>>(t.reviews, t, eid);
            lemma_join::<EventEnvelope<Review>>(t.reviews, x);
        },
        EngineEventV::Record(x) => {
            lemma_fresh_in_store::<EventEnvelope<MemoryRecord>>(t.records, t, eid);
            lemma_join::<EventEnvelope<MemoryRecord>>(t.records, x);
        },
        EngineEventV::Invalidation(x) => {
            lemma_fresh_in_store::<EventEnvelope<Invalidation>>(t.invalidations, t, eid);
            lemma_join::<EventEnvelope<Invalidation>>(t.invalidations, x);
        },
        EngineEventV::SourceDeleted(d) => {
            let src = d.source_event_id;
            lemma_insert_props::<String>(t.deleted_sources, src);
            let r = insert_by_key::<String>(t.deleted_sources, src);
            let i = choose|i: int| 0 <= i < r.len() && <String as SortKey>::key(#[trigger] r[i]) == <String as SortKey>::key(src);
            assert(r.contains(r[i]));
        },
    }
}

proof fn lemma_reached(s: ProjectionV, es: Seq<EngineEventV>)
    requires
        projection_wf(s),
        fresh_distinct(s, es),
        apply_all(s, es) is Ok,
    ensures
        reached(s, es, apply_all(s, es)->Ok_0),
    decreases es.len(),
{
    if es.len() == 0 {
        assert forall|k: Seq<char>| !names_id(es, k) by {}
    } else {
        let es0 = es.drop_last();
        assert forall|i: int| 0 <= i < es0.len() implies es0[i] == #[trigger] es[i] by {}
        assert(fresh_distinct(s, es0));
        lemma_reached(s, es0);
        lemma_reached_step(s, es, apply_all(s, es0)->Ok_0);
    }
}

/// The order in which events arrive does not matter: two orders of the same
/// events, with distinct ids the projection has not seen, that apply in full
/// give the same projection, so every proposal's ratification is the same.
pub proof fn law_order_independent(s: ProjectionV, es1: Seq<EngineEventV>, es2: Seq<EngineEventV>)
    requires
        projection_wf(s),
        fresh_distinct(s, es1),
        fresh_distinct(s, es2),
        forall|e: EngineEventV| es1.contains(e) <==> es2.contains(e),
        apply_all(s, es1) is Ok,
        apply_all(s, es2) is Ok,
    ensures
        apply_all(s, es1) == apply_all(s, es2),
        forall|pid: Seq<char>|
            #[trigger] ratification_of(apply_all(s, es1)->Ok_0, pid) == ratification_of(apply_all(s, es2)->Ok_0, pid),
{
    lemma_reached(s, es1);
    lemma_reached(s, es2);
    let t1 = apply_all(s, es1)->Ok_0;
    let t2 = apply_all(s, es2)->Ok_0;
    assert forall|v: Seq<char>| deletes(es1, v) == deletes(es2, v) by {
        if deletes(es1, v) {
            let i = choose|i: int| 0 <= i < es1.len() && deletes_source(#[trigger] es1[i], v);
            assert(es1.contains(es1[i]));
            let j = choose|j: int| 0 <= j < es2.len() && es2[j] == es1[i];
            assert(deletes_source(es2[j], v));
        }
        if deletes(es2, v) {
            let i = choose|i: int| 0 <= i < es2.len() && deletes_source(#[trigger] es2[i], v);
            assert(es2.contains(es2[i]));
            let j = choose|j: int| 0 <= j < es1.len() && es1[j] == es2[i];
            assert(deletes_source(es1[j], v));
        }
    }
    assert forall|v: (Seq<char>, Seq<char>)| digested(es1, v) == digested(es2, v) by {
        if digested(es1, v) {
            let i = choose|i: int| 0 <= i < es1.len() && entry_of(#[trigger] es1[i]) == v;
            assert(es1.contains(es1[i]));
            let j = choose|j: int| 0 <= j < es2.len() && es2[j] == es1[i];
            assert(entry_of(es2[j]) == v);
        }
        if digested(es2, v) {
            let i = choose|i: int| 0 <= i < es2.len() && entry_of(#[trigger] es2[i]) == v;
            assert(es2.contains(es2[i]));
            let j = choose|j: int| 0 <= j < es1.len() && es1[j] == es2[i];
            assert(entry_of(es1[j]) == v);
        }
    }
    crate::order::lemma_sorted_same_elements::<EventEnvelope<Proposal>>(t1.proposals, t2.proposals);
    crate::order::lemma_sorted_same_elements::<EventEnvelope<Review>>(t1.reviews, t2.reviews);
    crate::order::lemma_sorted_same_elements::<EventEnvelope<MemoryRecord>>(t1.records, t2.records);
    crate::order::lemma_sorted_same_elements::<EventEnvelope<Invalidation>>(t1.invalidations, t2.invalidations);
    crate::order::lemma_sorted_same_elements::<String>(t1.deleted_sources, t2.deleted_sources);
    crate::order::lemma_sorted_same_elements::<EventDigest>(t1.event_digests, t2.event_digests);
    assert(t1 == t2);
}

/// A projection built from policies alone stores nothing, so it is
/// consistent.
pub proof fn law_policies_consistent(ps: Seq<PolicyV>)
    ensures
        policies_result(ps) matches Ok(s) ==> projection_wf(s) && stored_consistent(s),
    decreases ps.len(),
{
    if ps.len() == 0 {
        assert forall|p: Seq<Seq<char>>| !(p.len() >= 2 && is_walk(graph_of(empty_projection().records), p) && p[0] == p.last()) by {
            if p.len() >= 2 && is_walk(graph_of(empty_projection().records), p) {
                assert(has_edge(graph_of(empty_projection().records), p[0], p[1]));
            }
        }
    } else {
        law_policies_consistent(ps.drop_last());
        if policies_result(ps.drop_last()) is Ok {
            let s0 = policies_result(ps.drop_last())->Ok_0;
            let p = ps.last();
            if lookup::<RatificationPolicy>(s0.policies, p.policy_id) is None {
                crate::order::lemma_insert_props::<RatificationPolicy>(s0.policies, p);
            }
        }
    }
}

/// Applying an event a second time changes nothing: the repeat is reported
/// as a duplicate and the projection stays as the first application left it.
pub proof fn law_apply_idempotent(s: ProjectionV, e: EngineEventV)
    requires
        projection_wf(s),
        apply_result(s, e) is Ok,
    ensures
        apply_result(apply_result(s, e)->Ok_0.0, e) == Ok::<(ProjectionV, OutcomeV), EngineFault>(
            (apply_result(s, e)->Ok_0.0, OutcomeV::Duplicate),
        ),
{
    reveal(step);
    let dg = event_digest(e)->0;
    let eid = event_id_of(e);
    if lookup::<EventDigest>(s.event_digests, eid) is None {
        let s2 = step(s, e)->Ok_0.0;
        assert(s2.event_digests == s.event_digests);
        lemma_insert_fresh::<EventDigest>(s.event_digests, (eid, dg));
    }
}

/// An event whose id was applied with another digest is refused as a
/// collision, and nothing changes.
pub proof fn law_collision_refused(s: ProjectionV, e: EngineEventV, entry: (Seq<char>, Seq<char>))
    requires
        event_digest(e) is Some,
        lookup::<EventDigest>(s.event_digests, event_id_of(e)) == Some(entry),
        entry.1 != event_digest(e)->0,
    ensures
        apply_result(s, e) == Err::<(ProjectionV, OutcomeV), EngineFault>(
            EngineFault::EventIdCollision(event_id_of(e)),
        ),
{
}

/// A record is accepted only for a ratified proposal: it cites only reviews
/// that counted toward ratification, at least a quorum of them, and it
/// carries exactly the proposal's asserted claims.
pub proof fn law_record_requires_ratification(s: ProjectionV, e: EnvelopeV<MemoryRecordV>)
    requires
        apply_result(s, EngineEventV::Record(e)) matches Ok((_, OutcomeV::Applied)),
    ensures
        ratification_of(s, e.payload.proposal_event_id) matches Ok(ev) && ev.status
            == RatificationStatus::Ratified && all_in(e.payload.review_event_ids, ev.accepted),
        lookup::<EventEnvelope<Proposal>>(s.proposals, e.payload.proposal_event_id) matches Some(p)
            && same_claim_set(e.payload.claims, p.payload.claims) && p.author == e.author
            && p.payload.channel_id == e.payload.channel_id,
        first_deleted(record_sources(e.payload), s.deleted_sources) is None,
{
    reveal(step);
    assert(record_check(s, e) is None);
}

proof fn lemma_deleted_kept(srcs: Seq<Seq<char>>, deleted: Seq<Seq<char>>, x: Seq<char>)
    requires
        srcs.contains(x),
        deleted.contains(x),
    ensures
        keep_deleted(srcs, deleted).contains(x),
        keep_deleted(srcs, deleted).len() > 0,
    decreases srcs.len(),
{
    let k = choose|k: int| 0 <= k < srcs.len() && srcs[k] == x;
    if k == srcs.len() - 1 {
        let kept = keep_deleted(srcs, deleted);
        assert(kept == keep_deleted(srcs.drop_last(), deleted).push(x));
        assert(kept[kept.len() - 1] == x);
    } else {
        assert(srcs.drop_last()[k] == x);
        lemma_deleted_kept(srcs.drop_last(), deleted, x);
        let rest = keep_deleted(srcs.drop_last(), deleted);
        let j = choose|j: int| 0 <= j < rest.len() && rest[j] == x;
        let kept = keep_deleted(srcs, deleted);
        assert(kept[j] == x);
    }
}

proof fn lemma_first_deleted_found(srcs: Seq<Seq<char>>, deleted: Seq<Seq<char>>, x: Seq<char>)
    requires
        srcs.contains(x),
        deleted.contains(x),
    ensures
        first_deleted(srcs, deleted) is Some,
    decreases srcs.len(),
{
    if !deleted.contains(srcs[0]) {
        let k = choose|k: int| 0 <= k < srcs.len() && srcs[k] == x;
        assert(k > 0);
        assert(srcs.drop_first()[k - 1] == x);
        lemma_first_deleted_found(srcs.drop_first(), deleted, x);
    }
}

proof fn lemma_deletion_state(s: ProjectionV, d: SourceDeletionV) -> (s2: ProjectionV)
    requires
        projection_wf(s),
        apply_result(s, EngineEventV::SourceDeleted(d)) matches Ok((_, OutcomeV::SourceDeleted(_))),
    ensures
        s2 == apply_result(s, EngineEventV::SourceDeleted(d))->Ok_0.0,
        s2.records == s.records,
        s2.invalidations == s.invalidations,
        s2.proposals == s.proposals,
        s2.policies == s.policies,
        s2.reviews == s.reviews,
        s2.deleted_sources.contains(d.source_event_id),
{
    reveal(step);
    let s2 = apply_result(s, EngineEventV::SourceDeleted(d))->Ok_0.0;
    lemma_insert_props::<String>(s.deleted_sources, d.source_event_id);
    let ins = insert_by_key::<String>(s.deleted_sources, d.source_event_id);
    let i = choose|i: int| 0 <= i < ins.len() && <String as SortKey>::key(#[trigger] ins[i]) == <String as SortKey>::key(d.source_event_id);
    assert(ins[i] == d.source_event_id);
    s2
}

/// Once a source is observed deleted, a record that cites it and that no
/// invalidation targets is reported as missing that source, so it is not
/// available.
pub proof fn law_deletion_fails_closed_for_records(s: ProjectionV, d: SourceDeletionV, eid: Seq<char>)
    requires
        projection_wf(s),
        apply_result(s, EngineEventV::SourceDeleted(d)) matches Ok((_, OutcomeV::SourceDeleted(_))),
        lookup::<EventEnvelope<MemoryRecord>>(s.records, eid) matches Some(r) && record_sources(
            r.payload,
        ).contains(d.source_event_id),
        !invalidated(s.invalidations, eid),
    ensures
        availability_of(apply_result(s, EngineEventV::SourceDeleted(d))->Ok_0.0, eid) matches Ok(
            AvailabilityV::SourceUnavailable(missing),
        ) && missing.contains(d.source_event_id),
{
    let s2 = lemma_deletion_state(s, d);
    let r = lookup::<EventEnvelope<MemoryRecord>>(s.records, eid)->0;
    lemma_deleted_kept(record_sources(r.payload), s2.deleted_sources, d.source_event_id);
}

/// Once a source is observed deleted, a proposal that cites it evaluates as
/// unavailable, whatever its reviews.
pub proof fn law_deletion_fails_closed_for_proposals(s: ProjectionV, d: SourceDeletionV, pid: Seq<char>)
    requires
        projection_wf(s),
        apply_result(s, EngineEventV::SourceDeleted(d)) matches Ok((_, OutcomeV::SourceDeleted(_))),
        lookup::<EventEnvelope<Proposal>>(s.proposals, pid) matches Some(p) && proposal_sources(
            p.payload,
        ).contains(d.source_event_id),
    ensures
        ratification_of(apply_result(s, EngineEventV::SourceDeleted(d))->Ok_0.0, pid) == Ok::<
            EvaluationV,
            EngineFault,
        >(unavailable_evaluation()),
{
    let s2 = lemma_deletion_state(s, d);
    let p = lookup::<EventEnvelope<Proposal>>(s.proposals, pid)->0;
    lemma_first_deleted_found(proposal_sources(p.payload), s2.deleted_sources, d.source_event_id);
}

/// The projection does not depend on the order in which two reviews
/// arrive: applying them one way round or the other gives the same state,
/// and each is applied either way.
pub proof fn law_reviews_commute(s: ProjectionV, x: EnvelopeV<ReviewV>, y: EnvelopeV<ReviewV>)
    requires
        projection_wf(s),
        x.event_id != y.event_id,
        apply_result(s, EngineEventV::Review(x)) matches Ok((_, OutcomeV::Applied)),
        apply_result(s, EngineEventV::Review(y)) matches Ok((_, OutcomeV::Applied)),
    ensures
        ({
            let sx = apply_result(s, EngineEventV::Review(x))->Ok_0.0;
            let sy = apply_result(s, EngineEventV::Review(y))->Ok_0.0;
            &&& apply_result(sx, EngineEventV::Review(y)) matches Ok((sxy, OutcomeV::Applied))
            &&& apply_result(sy, EngineEventV::Review(x)) matches Ok((syx, OutcomeV::Applied))
            &&& apply_result(sx, EngineEventV::Review(y))->Ok_0.0 == apply_result(
                sy,
                EngineEventV::Review(x),
            )->Ok_0.0
        }),
{
    reveal(step);
    let ex = EngineEventV::Review(x);
    let ey = EngineEventV::Review(y);
    let dx = event_digest(ex)->0;
    let dy = event_digest(ey)->0;
    assert(lookup::<EventDigest>(s.event_digests, x.event_id) is None);
    assert(lookup::<EventDigest>(s.event_digests, y.event_id) is None);
    let sx = apply_result(s, ex)->Ok_0.0;
    let sy = apply_result(s, ey)->Ok_0.0;
    // The digest of one review leaves the other's id unknown.
    lemma_insert_fresh::<EventDigest>(s.event_digests, (x.event_id, dx));
    lemma_insert_fresh::<EventDigest>(s.event_digests, (y.event_id, dy));
    assert(lookup::<EventDigest>(sx.event_digests, y.event_id) is None);
    assert(lookup::<EventDigest>(sy.event_digests, x.event_id) is None);
    // A review's checks read neither the reviews nor the digests.
    assert(review_check(sx, y) == review_check(s, y));
    assert(review_check(sy, x) == review_check(s, x));
    // Both orders insert the same two reviews and the same two digests.
    lemma_insert_commutes::<EventDigest>(s.event_digests, (x.event_id, dx), (y.event_id, dy));
    lemma_insert_commutes::<EventEnvelope<Review>>(s.reviews, x, y);
    let sxy = apply_result(sx, ey)->Ok_0.0;
    let syx = apply_result(sy, ex)->Ok_0.0;
    assert(sxy.reviews == syx.reviews);
    assert(sxy.event_digests == syx.event_digests);
    assert(sxy == syx);
}

/// A review that the tally leaves out changes no group, wherever it stands.
proof fn lemma_tally_skips(
    a: Seq<EnvelopeV<ReviewV>>,
    x: EnvelopeV<ReviewV>,
    b: Seq<EnvelopeV<ReviewV>>,
    pid: Seq<char>,
    rat: Seq<Seq<char>>,
)
    requires
        !(x.payload.proposal_event_id == pid && rat.contains(x.author)),
    ensures
        tally_groups(a.push(x) + b, pid, rat) == tally_groups(a + b, pid, rat),
    decreases b.len(),
{
    if b.len() == 0 {
        assert(a.push(x) + b =~= a.push(x));
        assert(a + b =~= a);
        assert(a.push(x).drop_last() =~= a);
    } else {
        let c = a.push(x) + b;
        let d = a + b;
        assert(c.drop_last() =~= a.push(x) + b.drop_last());
        assert(d.drop_last() =~= a + b.drop_last());
        assert(c.last() == b.last());
        assert(d.last() == b.last());
        lemma_tally_skips(a, x, b.drop_last(), pid, rat);
    }
}

/// A review of `pid` by a non-ratifier is listed as unauthorized.
proof fn lemma_unauthorized_listed(
    a: Seq<EnvelopeV<ReviewV>>,
    x: EnvelopeV<ReviewV>,
    b: Seq<EnvelopeV<ReviewV>>,
    pid: Seq<char>,
    rat: Seq<Seq<char>>,
)
    requires
        x.payload.proposal_event_id == pid,
        !rat.contains(x.author),
    ensures
        tally_unauthorized(a.push(x) + b, pid, rat).contains(x.event_id),
    decreases b.len(),
{
    let c = a.push(x) + b;
    if b.len() == 0 {
        assert(c =~= a.push(x));
        assert(c.drop_last() =~= a);
        let u = tally_unauthorized(c, pid, rat);
        assert(u[u.len() - 1] == x.event_id);
    } else {
        assert(c.drop_last() =~= a.push(x) + b.drop_last());
        lemma_unauthorized_listed(a, x, b.drop_last(), pid, rat);
        let u0 = tally_unauthorized(c.drop_last(), pid, rat);
        let k = choose|k: int| 0 <= k < u0.len() && u0[k] == x.event_id;
        let u = tally_unauthorized(c, pid, rat);
        assert(u[k] == x.event_id);
    }
}

/// A review by someone who is not one of the policy's ratifiers is listed
/// among the unauthorized reviews and changes nothing else of the
/// proposal's evaluation.
pub proof fn law_unauthorized_review_ignored(s: ProjectionV, x: EnvelopeV<ReviewV>)
    requires
        projection_wf(s),
        apply_result(s, EngineEventV::Review(x)) matches Ok((_, OutcomeV::Applied)),
        lookup::<EventEnvelope<Proposal>>(s.proposals, x.payload.proposal_event_id) matches Some(p)
            && lookup::<RatificationPolicy>(s.policies, p.payload.policy_id) matches Some(pol)
            && !pol.ratifiers.contains(x.author),
    ensures
        ({
            let pid = x.payload.proposal_event_id;
            let s2 = apply_result(s, EngineEventV::Review(x))->Ok_0.0;
            &&& ratification_of(s, pid) is Ok
            &&& ratification_of(s2, pid) is Ok
            &&& ratification_of(s2, pid)->Ok_0.status == ratification_of(s, pid)->Ok_0.status
            &&& ratification_of(s2, pid)->Ok_0.accepted == ratification_of(s, pid)->Ok_0.accepted
            &&& ratification_of(s2, pid)->Ok_0.rejected == ratification_of(s, pid)->Ok_0.rejected
            &&& ratification_of(s2, pid)->Ok_0.revise == ratification_of(s, pid)->Ok_0.revise
            &&& ratification_of(s2, pid)->Ok_0.conflicting == ratification_of(s, pid)->Ok_0.conflicting
            &&& ratification_of(s2, pid)->Ok_0.status != RatificationStatus::Unavailable
                ==> ratification_of(s2, pid)->Ok_0.unauthorized.contains(x.event_id)
        }),
{
    reveal(step);
    let pid = x.payload.proposal_event_id;
    let p = lookup::<EventEnvelope<Proposal>>(s.proposals, pid)->0;
    let pol = lookup::<RatificationPolicy>(s.policies, p.payload.policy_id)->0;
    let rs = s.reviews;
    // The review's id is new: it has no digest, so no stored review has it.
    assert(lookup::<EventDigest>(s.event_digests, x.event_id) is None);
    assert forall|i: int| 0 <= i < rs.len() implies EventEnvelope::<Review>::key(#[trigger] rs[i]) != x.event_id by {
        assert(has_key::<EventDigest>(s.event_digests, EventEnvelope::<Review>::key(rs[i])));
    }
    let k = crate::keyed::first_not_below::<EventEnvelope<Review>>(rs, x.event_id);
    crate::keyed::lemma_first_not_below::<EventEnvelope<Review>>(rs, x.event_id);
    crate::order::lemma_insert_position::<EventEnvelope<Review>>(rs, x, k);
    let a = rs.take(k);
    let b = rs.skip(k);
    assert(rs =~= a + b);
    let s2 = apply_result(s, EngineEventV::Review(x))->Ok_0.0;
    assert(s2.reviews == a.push(x) + b);
    lemma_tally_skips(a, x, b, pid, pol.ratifiers);
    if first_deleted(proposal_sources(p.payload), s.deleted_sources) is None {
        lemma_unauthorized_listed(a, x, b, pid, pol.ratifiers);
        let u = tally_unauthorized(a.push(x) + b, pid, pol.ratifiers);
        lemma_sort_dedup_props::<String>(u);
        let i = choose|i: int| 0 <= i < u.len() && u[i] == x.event_id;
        let j = choose|j: int| 0 <= j < sort_dedup::<String>(u).len() && <String as SortKey>::key(#[trigger] sort_dedup::<String>(u)[j]) == <String as SortKey>::key(u[i]);
        assert(sort_dedup::<String>(u)[j] == x.event_id);
    }
}

/// Conflicting decisions contest a proposal: when one ratifier decided more
/// than one way, or consistent ratifiers both accepted and rejected it, the
/// evaluation is contested whatever the quorum.
pub proof fn law_conflicts_contest(rs: Seq<EnvelopeV<ReviewV>>, pid: Seq<char>, p: crate::ratify::PolicyV)
    requires
        ({
            let gs = tally_groups(rs, pid, p.ratifiers);
            ||| crate::ratify::conflicted(gs).len() > 0
            ||| (crate::ratify::decided(gs, crate::review::ReviewDecision::Accept).len() > 0
                && crate::ratify::decided(gs, crate::review::ReviewDecision::Reject).len() > 0)
        }),
    ensures
        evaluation_of(rs, pid, p).status == RatificationStatus::Contested,
{
    let gs = tally_groups(rs, pid, p.ratifiers);
    let c = crate::ratify::conflicted(gs);
    let acc = crate::ratify::decided(gs, crate::review::ReviewDecision::Accept);
    let rej = crate::ratify::decided(gs, crate::review::ReviewDecision::Reject);
    lemma_sort_dedup_props::<String>(c);
    lemma_sort_dedup_props::<String>(acc);
    lemma_sort_dedup_props::<String>(rej);
    if c.len() > 0 {
        assert(exists|j: int| 0 <= j < sort_dedup::<String>(c).len() && <String as SortKey>::key(#[trigger] sort_dedup::<String>(c)[j]) == <String as SortKey>::key(c[0]));
    } else {
        assert(exists|j: int| 0 <= j < sort_dedup::<String>(acc).len() && <String as SortKey>::key(#[trigger] sort_dedup::<String>(acc)[j]) == <String as SortKey>::key(acc[0]));
        assert(exists|j: int| 0 <= j < sort_dedup::<String>(rej).len() && <String as SortKey>::key(#[trigger] sort_dedup::<String>(rej)[j]) == <String as SortKey>::key(rej[0]));
    }
}

/// A review counts toward proposal `pid` under ratifiers `rat`.
pub open spec fn counted(r: EnvelopeV<ReviewV>, pid: Seq<char>, rat: Seq<Seq<char>>) -> bool {
    r.payload.proposal_event_id == pid && rat.contains(r.author)
}

/// The review at `i` is its author's first counted review among `rs`.
pub open spec fn first_of_author(rs: Seq<EnvelopeV<ReviewV>>, pid: Seq<char>, rat: Seq<Seq<char>>, i: int) -> bool {
    &&& 0 <= i < rs.len()
    &&& counted(rs[i], pid, rat)
    &&& forall|j: int| 0 <= j < i ==> !(counted(rs[j], pid, rat) && #[trigger] rs[j].author == rs[i].author)
}

/// Group `g` holds the event id and decision of the review at `i`, its
/// author's first counted review.
pub open spec fn opened_by(rs: Seq<EnvelopeV<ReviewV>>, pid: Seq<char>, rat: Seq<Seq<char>>, g: crate::ratify::GroupV, i: int) -> bool {
    &&& first_of_author(rs, pid, rat, i)
    &&& g.author == rs[i].author
    &&& g.first == rs[i].event_id
    &&& g.decision == rs[i].payload.decision
}

/// Group `g` was opened by some first counted review among `rs`.
pub open spec fn opened(rs: Seq<EnvelopeV<ReviewV>>, pid: Seq<char>, rat: Seq<Seq<char>>, g: crate::ratify::GroupV) -> bool {
    exists|i: int| #[trigger] opened_by(rs, pid, rat, g, i)
}

/// What the tally of reviews is: one group per ratifier who reviewed the
/// proposal, holding the event id and decision of that ratifier's first
/// review, and marked conflicting exactly when the ratifier also decided
/// otherwise. Reviews of other proposals and by non-ratifiers form no group.
pub proof fn law_tally_groups(rs: Seq<EnvelopeV<ReviewV>>, pid: Seq<char>, rat: Seq<Seq<char>>)
    ensures
        crate::ratify::authors_distinct(tally_groups(rs, pid, rat)),
        forall|k: int| 0 <= k < tally_groups(rs, pid, rat).len() ==> #[trigger] opened(rs, pid, rat, tally_groups(rs, pid, rat)[k]),
        forall|i: int| 0 <= i < rs.len() && counted(#[trigger] rs[i], pid, rat) ==> crate::ratify::has_group(
            tally_groups(rs, pid, rat),
            rs[i].author,
        ),
        forall|k: int| 0 <= k < tally_groups(rs, pid, rat).len() ==> (#[trigger] tally_groups(rs, pid, rat)[k].conflict
            <==> exists|i: int| 0 <= i < rs.len() && counted(rs[i], pid, rat) && rs[i].author
                == tally_groups(rs, pid, rat)[k].author && rs[i].payload.decision != tally_groups(rs, pid, rat)[k].decision),
    decreases rs.len(),
{
    if rs.len() > 0 {
        let rs0 = rs.drop_last();
        let n = rs0.len() as int;
        let r = rs.last();
        law_tally_groups(rs0, pid, rat);
        let gs0 = tally_groups(rs0, pid, rat);
        let gs = tally_groups(rs, pid, rat);
        assert forall|i: int| 0 <= i < n implies rs[i] == #[trigger] rs0[i] by {}
        if !counted(r, pid, rat) {
            assert(gs == gs0);
            assert forall|k: int| 0 <= k < gs.len() implies #[trigger] opened(rs, pid, rat, gs[k]) by {
                assert(opened(rs0, pid, rat, gs0[k]));
                let i = choose|i: int| opened_by(rs0, pid, rat, gs0[k], i);
                assert(rs[i] == rs0[i]);
                assert forall|j: int| 0 <= j < i implies !(counted(rs[j], pid, rat) && #[trigger] rs[j].author == rs[i].author) by {
                    assert(rs[j] == rs0[j]);
                }
                assert(first_of_author(rs, pid, rat, i));
                assert(opened_by(rs, pid, rat, gs[k], i));
            }
            assert forall|i: int| 0 <= i < rs.len() && counted(#[trigger] rs[i], pid, rat) implies crate::ratify::has_group(gs, rs[i].author) by {
                assert(i < n);
                assert(rs0[i] == rs[i]);
            }
            assert forall|k: int| 0 <= k < gs.len() implies (#[trigger] gs[k].conflict <==> exists|i: int| 0 <= i < rs.len()
                && counted(rs[i], pid, rat) && rs[i].author == gs[k].author && rs[i].payload.decision != gs[k].decision) by {
                if gs[k].conflict {
                    let i = choose|i: int| 0 <= i < rs0.len() && counted(rs0[i], pid, rat) && rs0[i].author == gs0[k].author
                        && rs0[i].payload.decision != gs0[k].decision;
                    assert(rs[i] == rs0[i]);
                }
                if exists|i: int| 0 <= i < rs.len() && counted(rs[i], pid, rat) && rs[i].author == gs[k].author
                    && rs[i].payload.decision != gs[k].decision {
                    let i = choose|i: int| 0 <= i < rs.len() && counted(rs[i], pid, rat) && rs[i].author == gs[k].author
                        && rs[i].payload.decision != gs[k].decision;
                    assert(i < n);
                    assert(rs0[i] == rs[i]);
                }
            }
        } else if crate::ratify::has_group(gs0, r.author) {
            let k0 = choose|k: int| 0 <= k < gs0.len() && gs0[k].author == r.author;
            crate::ratify::lemma_add_known(gs0, r.author, r.event_id, r.payload.decision, k0);
            crate::ratify::lemma_add_review(gs0, r.author, r.event_id, r.payload.decision);
            assert(gs == add_review(gs0, r.author, r.event_id, r.payload.decision));
            assert forall|k: int| 0 <= k < gs.len() implies #[trigger] opened(rs, pid, rat, gs[k]) by {
                assert(opened(rs0, pid, rat, gs0[k]));
                let i = choose|i: int| opened_by(rs0, pid, rat, gs0[k], i);
                assert(rs[i] == rs0[i]);
                assert forall|j: int| 0 <= j < i implies !(counted(rs[j], pid, rat) && #[trigger] rs[j].author == rs[i].author) by {
                    assert(rs[j] == rs0[j]);
                }
                assert(first_of_author(rs, pid, rat, i));
                assert(opened_by(rs, pid, rat, gs[k], i));
            }
            assert forall|i: int| 0 <= i < rs.len() && counted(#[trigger] rs[i], pid, rat) implies crate::ratify::has_group(gs, rs[i].author) by {
                if i < n {
                    assert(rs0[i] == rs[i]);
                    let k = choose|k: int| 0 <= k < gs0.len() && gs0[k].author == rs[i].author;
                    assert(gs[k].author == rs[i].author);
                } else {
                    assert(gs[k0].author == r.author);
                }
            }
            assert forall|k: int| 0 <= k < gs.len() implies (#[trigger] gs[k].conflict <==> exists|i: int| 0 <= i < rs.len()
                && counted(rs[i], pid, rat) && rs[i].author == gs[k].author && rs[i].payload.decision != gs[k].decision) by {
                if gs0[k].conflict {
                    let i = choose|i: int| 0 <= i < rs0.len() && counted(rs0[i], pid, rat) && rs0[i].author == gs0[k].author
                        && rs0[i].payload.decision != gs0[k].decision;
                    assert(rs[i] == rs0[i]);
                }
                if k == k0 && gs0[k].decision != r.payload.decision {
                    assert(rs[n] == r);
                }
                if exists|i: int| 0 <= i < rs.len() && counted(rs[i], pid, rat) && rs[i].author == gs[k].author
                    && rs[i].payload.decision != gs[k].decision {
                    let i = choose|i: int| 0 <= i < rs.len() && counted(rs[i], pid, rat) && rs[i].author == gs[k].author
                        && rs[i].payload.decision != gs[k].decision;
                    if i < n {
                        assert(rs0[i] == rs[i]);
                    } else {
                        assert(rs[i] == r);
                        if k != k0 {
                            assert(gs0[k].author != gs0[k0].author);
                        }
                    }
                }
            }
        } else {
            crate::ratify::lemma_add_review(gs0, r.author, r.event_id, r.payload.decision);
            let g = crate::ratify::GroupV { author: r.author, first: r.event_id, decision: r.payload.decision, conflict: false };
            assert(gs == gs0.push(g));
            assert forall|j: int| 0 <= j < n implies !(counted(rs[j], pid, rat) && #[trigger] rs[j].author == r.author) by {
                assert(rs[j] == rs0[j]);
                if counted(rs0[j], pid, rat) && rs0[j].author == r.author {
                    assert(crate::ratify::has_group(gs0, rs0[j].author));
                }
            }
            assert(first_of_author(rs, pid, rat, n));
            assert forall|k: int| 0 <= k < gs.len() implies #[trigger] opened(rs, pid, rat, gs[k]) by {
                if k < gs0.len() {
                    assert(opened(rs0, pid, rat, gs0[k]));
                let i = choose|i: int| opened_by(rs0, pid, rat, gs0[k], i);
                    assert(rs[i] == rs0[i]);
                    assert forall|j: int| 0 <= j < i implies !(counted(rs[j], pid, rat) && #[trigger] rs[j].author == rs[i].author) by {
                        assert(rs[j] == rs0[j]);
                    }
                    assert(first_of_author(rs, pid, rat, i));
                    assert(opened_by(rs, pid, rat, gs[k], i));
                } else {
                    assert(gs[k] == g);
                    assert(rs[n] == r);
                    assert(opened_by(rs, pid, rat, gs[k], n));
                }
            }
            assert forall|i: int| 0 <= i < rs.len() && counted(#[trigger] rs[i], pid, rat) implies crate::ratify::has_group(gs, rs[i].author) by {
                if i < n {
                    assert(rs0[i] == rs[i]);
                    let k = choose|k: int| 0 <= k < gs0.len() && gs0[k].author == rs[i].author;
                    assert(gs[k].author == rs[i].author);
                } else {
                    assert(gs[gs0.len() as int] == g);
                }
            }
            assert forall|k: int| 0 <= k < gs.len() implies (#[trigger] gs[k].conflict <==> exists|i: int| 0 <= i < rs.len()
                && counted(rs[i], pid, rat) && rs[i].author == gs[k].author && rs[i].payload.decision != gs[k].decision) by {
                if k < gs0.len() {
                    assert(gs[k] == gs0[k]);
                    if gs0[k].conflict {
                        let i = choose|i: int| 0 <= i < rs0.len() && counted(rs0[i], pid, rat) && rs0[i].author == gs0[k].author
                            && rs0[i].payload.decision != gs0[k].decision;
                        assert(rs[i] == rs0[i]);
                    }
                    if exists|i: int| 0 <= i < rs.len() && counted(rs[i], pid, rat) && rs[i].author == gs[k].author
                        && rs[i].payload.decision != gs[k].decision {
                        let i = choose|i: int| 0 <= i < rs.len() && counted(rs[i], pid, rat) && rs[i].author == gs[k].author
                            && rs[i].payload.decision != gs[k].decision;
                        if i < n {
                            assert(rs0[i] == rs[i]);
                        } else {
                            assert(rs[i] == r);
                            assert(gs0[k].author != r.author);
                        }
                    }
                } else {
                    assert(gs[k] == g);
                    if exists|i: int| 0 <= i < rs.len() && counted(rs[i], pid, rat) && rs[i].author == gs[k].author
                        && rs[i].payload.decision != gs[k].decision {
                        let i = choose|i: int| 0 <= i < rs.len() && counted(rs[i], pid, rat) && rs[i].author == gs[k].author
                            && rs[i].payload.decision != gs[k].decision;
                        if i < n {
                            assert(rs[i] == rs0[i]);
                        }
                    }
                }
            }
        }
    }
}

} // verus!
