//! Ratification policies and the tally of reviews into a ratification status.

use vstd::prelude::*;

use crate::claim::contains_str;
use crate::digest::{hex_32, is_hex_32};
use crate::envelope::{hex_reason, EngineError, EngineFault, EnvelopeV, EventEnvelope, engine_reports};
use crate::keyed::Keyed;
use crate::order::{sort_dedup, sort_dedup_vec, views, SortKey};
use crate::review::{Review, ReviewDecision, ReviewV};
use crate::snapshot::same_text;
use crate::text::{blank, chars_lt, is_blank, lemma_chars_lt_order, str_order, Rank};
use crate::claim::copy_strings;

verus! {

/// Where a proposal stands with its signers.
#[derive(Debug, Clone, Copy, PartialEq, Eq, Structural)]
pub enum RatificationStatus {
    Pending,
    Ratified,
    Rejected,
    RevisionRequested,
    Contested,
    Unavailable,
}

/// The name of a status, as `Debug` writes it.
pub open spec fn status_text(s: RatificationStatus) -> Seq<char> {
    match s {
        RatificationStatus::Pending => "Pending"@,
        RatificationStatus::Ratified => "Ratified"@,
        RatificationStatus::Rejected => "Rejected"@,
        RatificationStatus::RevisionRequested => "RevisionRequested"@,
        RatificationStatus::Contested => "Contested"@,
        RatificationStatus::Unavailable => "Unavailable"@,
    }
}

/// The name of a status, as `Debug` writes it.
pub fn status_name(s: RatificationStatus) -> (r: &'static str)
    ensures
        r@ == status_text(s),
{
    match s {
        RatificationStatus::Pending => "Pending",
        RatificationStatus::Ratified => "Ratified",
        RatificationStatus::Rejected => "Rejected",
        RatificationStatus::RevisionRequested => "RevisionRequested",
        RatificationStatus::Contested => "Contested",
        RatificationStatus::Unavailable => "Unavailable",
    }
}

/// Who may ratify the proposals that name a policy, and how many votes count.
#[derive(Debug, Clone, PartialEq, Eq)]
pub struct RatificationPolicy {
    pub policy_id: String,
    /// The ratifiers' public keys; a key listed twice counts once.
    pub ratifiers: Vec<String>,
    pub approval_quorum: usize,
    pub rejection_threshold: usize,
}

/// The content of a policy.
pub struct PolicyV {
    pub policy_id: Seq<char>,
    pub ratifiers: Seq<Seq<char>>,
    pub approval_quorum: usize,
    pub rejection_threshold: usize,
}

impl View for RatificationPolicy {
    type V = PolicyV;

    open spec fn view(&self) -> PolicyV {
        PolicyV {
            policy_id: self.policy_id@,
            ratifiers: views(self.ratifiers@),
            approval_quorum: self.approval_quorum,
            rejection_threshold: self.rejection_threshold,
        }
    }
}

/// The distinct ratifiers of a policy, in order.
pub open spec fn distinct_ratifiers(p: PolicyV) -> Seq<Seq<char>> {
    sort_dedup::<String>(p.ratifiers)
}

/// The first rule a policy breaks, in check order.
pub open spec fn policy_fault(p: PolicyV) -> Option<EngineFault> {
    if is_blank(p.policy_id) {
        Some(EngineFault::InvalidEnvelope("policyId must not be empty"@))
    } else if p.ratifiers.len() == 0 {
        Some(EngineFault::InvalidEnvelope("ratifiers must not be empty"@))
    } else if exists|i: int| 0 <= i < p.ratifiers.len() && !is_hex_32(#[trigger] p.ratifiers[i]) {
        Some(EngineFault::InvalidEnvelope(hex_reason("ratifier")))
    } else if p.approval_quorum == 0 || p.approval_quorum > distinct_ratifiers(p).len() {
        Some(EngineFault::InvalidEnvelope("approvalQuorum must be between one and the ratifier count"@))
    } else if p.rejection_threshold == 0 || p.rejection_threshold > distinct_ratifiers(p).len() {
        Some(
            EngineFault::InvalidEnvelope(
                "rejectionThreshold must be between one and the ratifier count"@,
            ),
        )
    } else {
        None
    }
}

/// Two policies are the same policy: same identifier, the same set of
/// ratifiers and the same thresholds.
pub open spec fn same_policy(a: PolicyV, b: PolicyV) -> bool {
    &&& a.policy_id == b.policy_id
    &&& distinct_ratifiers(a) == distinct_ratifiers(b)
    &&& a.approval_quorum == b.approval_quorum
    &&& a.rejection_threshold == b.rejection_threshold
}

/// Two lists of strings are equal.
fn same_strings(a: &Vec<String>, b: &Vec<String>) -> (r: bool)
    ensures
        r == (views(a@) == views(b@)),
{
    if a.len() != b.len() {
        proof {
            assert(views(a@).len() != views(b@).len());
        }
        return false;
    }
    let n = a.len();
    let mut i: usize = 0;
    while i < n
        invariant
            n == a@.len(),
            n == b@.len(),
            i <= n,
            forall|k: int| 0 <= k < i ==> a@[k]@ == b@[k]@,
        decreases n - i,
    {
        if !same_text(a[i].as_str(), b[i].as_str()) {
            proof {
                assert(views(a@)[i as int] != views(b@)[i as int]);
            }
            return false;
        }
        i += 1;
    }
    assert(views(a@) =~= views(b@));
    true
}

impl RatificationPolicy {
    /// The distinct ratifiers, in order.
    pub fn distinct_ratifiers(&self) -> (r: Vec<String>)
        ensures
            views(r@) == distinct_ratifiers(self@),
    {
        sort_dedup_vec(copy_strings(&self.ratifiers))
    }

    /// Check the policy's identifier, ratifier keys and thresholds.
    pub fn validate(&self) -> (r: Result<(), EngineError>)
        ensures
            engine_reports(r, policy_fault(self@)),
    {
        if blank(self.policy_id.as_str()) {
            return Err(EngineError::InvalidEnvelope("policyId must not be empty".to_owned()));
        }
        if self.ratifiers.len() == 0 {
            return Err(EngineError::InvalidEnvelope("ratifiers must not be empty".to_owned()));
        }
        let n = self.ratifiers.len();
        let mut i: usize = 0;
        while i < n
            invariant
                n == self.ratifiers@.len(),
                n > 0,
                !is_blank(self.policy_id@),
                i <= n,
                forall|k: int| 0 <= k < i ==> is_hex_32(#[trigger] self.ratifiers@[k]@),
            decreases n - i,
        {
            if !hex_32(self.ratifiers[i].as_str()) {
                proof {
                    assert(!is_hex_32(self@.ratifiers[i as int]));
                    assert(!is_blank(self@.policy_id));
                    assert(self@.ratifiers.len() != 0);
                    assert(policy_fault(self@) == Some(EngineFault::InvalidEnvelope(hex_reason("ratifier"))));
                }
                return Err(
                    EngineError::InvalidEnvelope(
                        "ratifier".to_owned().concat(
                            " must be 32 bytes encoded as 64 hexadecimal characters",
                        ),
                    ),
                );
            }
            i += 1;
        }
        proof {
            assert forall|k: int| 0 <= k < self@.ratifiers.len() implies is_hex_32(
                #[trigger] self@.ratifiers[k],
            ) by {
                assert(self@.ratifiers[k] == self.ratifiers@[k]@);
            }
        }
        let count = self.distinct_ratifiers().len();
        if self.approval_quorum == 0 || self.approval_quorum > count {
            return Err(
                EngineError::InvalidEnvelope(
                    "approvalQuorum must be between one and the ratifier count".to_owned(),
                ),
            );
        }
        if self.rejection_threshold == 0 || self.rejection_threshold > count {
            return Err(
                EngineError::InvalidEnvelope(
                    "rejectionThreshold must be between one and the ratifier count".to_owned(),
                ),
            );
        }
        Ok(())
    }

    /// True when `other` is the same policy.
    pub fn same_as(&self, other: &RatificationPolicy) -> (r: bool)
        ensures
            r == same_policy(self@, other@),
    {
        if !same_text(self.policy_id.as_str(), other.policy_id.as_str()) {
            return false;
        }
        if self.approval_quorum != other.approval_quorum
            || self.rejection_threshold != other.rejection_threshold {
            return false;
        }
        let mine = self.distinct_ratifiers();
        let theirs = other.distinct_ratifiers();
        same_strings(&mine, &theirs)
    }
}

impl SortKey for RatificationPolicy {
    type Key = Seq<char>;

    open spec fn key(v: PolicyV) -> Seq<char> {
        v.policy_id
    }

    open spec fn key_lt(a: Seq<char>, b: Seq<char>) -> bool {
        chars_lt(a, b)
    }

    proof fn lemma_key_order(a: Seq<char>, b: Seq<char>, c: Seq<char>) {
        lemma_chars_lt_order(a, b, c);
    }

    fn key_rank(&self, other: &RatificationPolicy) -> (r: Rank) {
        str_order(self.policy_id.as_str(), other.policy_id.as_str())
    }
}

impl Keyed for RatificationPolicy {
    fn key_str(&self) -> (r: &str) {
        self.policy_id.as_str()
    }
}

/// How the reviews of a proposal were counted.
#[derive(Debug, Clone, PartialEq, Eq)]
pub struct RatificationEvaluation {
    pub status: RatificationStatus,
    pub accepted_review_event_ids: Vec<String>,
    pub rejected_review_event_ids: Vec<String>,
    pub revision_review_event_ids: Vec<String>,
    pub unauthorized_review_event_ids: Vec<String>,
    pub conflicting_reviewers: Vec<String>,
}

/// The content of an evaluation.
pub struct EvaluationV {
    pub status: RatificationStatus,
    pub accepted: Seq<Seq<char>>,
    pub rejected: Seq<Seq<char>>,
    pub revise: Seq<Seq<char>>,
    pub unauthorized: Seq<Seq<char>>,
    pub conflicting: Seq<Seq<char>>,
}

impl View for RatificationEvaluation {
    type V = EvaluationV;

    open spec fn view(&self) -> EvaluationV {
        EvaluationV {
            status: self.status,
            accepted: views(self.accepted_review_event_ids@),
            rejected: views(self.rejected_review_event_ids@),
            revise: views(self.revision_review_event_ids@),
            unauthorized: views(self.unauthorized_review_event_ids@),
            conflicting: views(self.conflicting_reviewers@),
        }
    }
}

/// The evaluation of a proposal whose evidence is gone.
pub open spec fn unavailable_evaluation() -> EvaluationV {
    EvaluationV {
        status: RatificationStatus::Unavailable,
        accepted: Seq::empty(),
        rejected: Seq::empty(),
        revise: Seq::empty(),
        unauthorized: Seq::empty(),
        conflicting: Seq::empty(),
    }
}

/// The evaluation of a proposal whose evidence is gone.
pub fn unavailable() -> (r: RatificationEvaluation)
    ensures
        r@ == unavailable_evaluation(),
{
    let r = RatificationEvaluation {
        status: RatificationStatus::Unavailable,
        accepted_review_event_ids: Vec::new(),
        rejected_review_event_ids: Vec::new(),
        revision_review_event_ids: Vec::new(),
        unauthorized_review_event_ids: Vec::new(),
        conflicting_reviewers: Vec::new(),
    };
    assert(r@.accepted =~= Seq::<Seq<char>>::empty());
    assert(r@.rejected =~= Seq::<Seq<char>>::empty());
    assert(r@.revise =~= Seq::<Seq<char>>::empty());
    assert(r@.unauthorized =~= Seq::<Seq<char>>::empty());
    assert(r@.conflicting =~= Seq::<Seq<char>>::empty());
    r
}

/// One authorized signer's reviews of a proposal: the earliest review's
/// event id and decision, and whether the signer also decided otherwise.
pub struct GroupV {
    pub author: Seq<char>,
    pub first: Seq<char>,
    pub decision: ReviewDecision,
    pub conflict: bool,
}

struct Group {
    author: String,
    first: String,
    decision: ReviewDecision,
    conflict: bool,
}

impl View for Group {
    type V = GroupV;

    closed spec fn view(&self) -> GroupV {
        GroupV {
            author: self.author@,
            first: self.first@,
            decision: self.decision,
            conflict: self.conflict,
        }
    }
}

/// No two groups belong to one signer.
pub open spec fn authors_distinct(gs: Seq<GroupV>) -> bool {
    forall|i: int, j: int| 0 <= i < j < gs.len() ==> gs[i].author != gs[j].author
}

/// Some group belongs to `a`.
pub open spec fn has_group(gs: Seq<GroupV>, a: Seq<char>) -> bool {
    exists|k: int| 0 <= k < gs.len() && gs[k].author == a
}

/// Count one more review by `author`: a new signer opens a group; a known
/// one is marked conflicting if the decision differs from the group's.
pub open spec fn add_review(gs: Seq<GroupV>, author: Seq<char>, event_id: Seq<char>, d: ReviewDecision) -> Seq<GroupV> {
    if has_group(gs, author) {
        let k = choose|k: int| 0 <= k < gs.len() && gs[k].author == author;
        gs.update(k, GroupV { conflict: gs[k].conflict || gs[k].decision != d, ..gs[k] })
    } else {
        gs.push(GroupV { author, first: event_id, decision: d, conflict: false })
    }
}

/// The review groups of proposal `pid` among `rs`, taken in order: reviews of
/// other proposals and by non-ratifiers are left out.
pub open spec fn tally_groups(rs: Seq<EnvelopeV<ReviewV>>, pid: Seq<char>, ratifiers: Seq<Seq<char>>) -> Seq<GroupV>
    decreases rs.len(),
{
    if rs.len() == 0 {
        Seq::empty()
    } else {
        let gs = tally_groups(rs.drop_last(), pid, ratifiers);
        let r = rs.last();
        if r.payload.proposal_event_id == pid && ratifiers.contains(r.author) {
            add_review(gs, r.author, r.event_id, r.payload.decision)
        } else {
            gs
        }
    }
}

/// The event ids of the reviews of `pid` by authors who are not ratifiers.
pub open spec fn tally_unauthorized(rs: Seq<EnvelopeV<ReviewV>>, pid: Seq<char>, ratifiers: Seq<Seq<char>>) -> Seq<Seq<char>>
    decreases rs.len(),
{
    if rs.len() == 0 {
        Seq::empty()
    } else {
        let us = tally_unauthorized(rs.drop_last(), pid, ratifiers);
        let r = rs.last();
        if r.payload.proposal_event_id == pid && !ratifiers.contains(r.author) {
            us.push(r.event_id)
        } else {
            us
        }
    }
}

/// The earliest review ids of the consistent groups that decided `d`.
pub open spec fn decided(gs: Seq<GroupV>, d: ReviewDecision) -> Seq<Seq<char>>
    decreases gs.len(),
{
    if gs.len() == 0 {
        Seq::empty()
    } else {
        let rest = decided(gs.drop_last(), d);
        let g = gs.last();
        if !g.conflict && g.decision == d {
            rest.push(g.first)
        } else {
            rest
        }
    }
}

/// The signers who decided more than one way.
pub open spec fn conflicted(gs: Seq<GroupV>) -> Seq<Seq<char>>
    decreases gs.len(),
{
    if gs.len() == 0 {
        Seq::empty()
    } else {
        let rest = conflicted(gs.drop_last());
        if gs.last().conflict {
            rest.push(gs.last().author)
        } else {
            rest
        }
    }
}

/// The status that the counts of decisions give.
pub open spec fn status_of(
    accepted: nat,
    rejected: nat,
    revise: nat,
    conflicting: nat,
    quorum: nat,
    threshold: nat,
) -> RatificationStatus {
    if conflicting > 0 || (accepted > 0 && (rejected > 0 || revise > 0)) || (rejected > 0 && revise
        > 0) {
        RatificationStatus::Contested
    } else if accepted >= quorum {
        RatificationStatus::Ratified
    } else if rejected >= threshold {
        RatificationStatus::Rejected
    } else if revise > 0 {
        RatificationStatus::RevisionRequested
    } else {
        RatificationStatus::Pending
    }
}

/// The evaluation of proposal `pid` under policy `p` from the reviews `rs`.
pub open spec fn evaluation_of(rs: Seq<EnvelopeV<ReviewV>>, pid: Seq<char>, p: PolicyV) -> EvaluationV {
    let gs = tally_groups(rs, pid, p.ratifiers);
    let accepted = sort_dedup::<String>(decided(gs, ReviewDecision::Accept));
    let rejected = sort_dedup::<String>(decided(gs, ReviewDecision::Reject));
    let revise = sort_dedup::<String>(decided(gs, ReviewDecision::Revise));
    let conflicting = sort_dedup::<String>(conflicted(gs));
    EvaluationV {
        status: status_of(
            accepted.len(),
            rejected.len(),
            revise.len(),
            conflicting.len(),
            p.approval_quorum as nat,
            p.rejection_threshold as nat,
        ),
        accepted,
        rejected,
        revise,
        unauthorized: sort_dedup::<String>(tally_unauthorized(rs, pid, p.ratifiers)),
        conflicting,
    }
}

pub proof fn lemma_add_review(gs: Seq<GroupV>, author: Seq<char>, event_id: Seq<char>, d: ReviewDecision)
    requires
        authors_distinct(gs),
    ensures
        authors_distinct(add_review(gs, author, event_id, d)),
{
    if has_group(gs, author) {
        let k = choose|k: int| 0 <= k < gs.len() && gs[k].author == author;
        let r = add_review(gs, author, event_id, d);
        assert forall|i: int, j: int| 0 <= i < j < r.len() implies r[i].author != r[j].author by {
            assert(r[i].author == gs[i].author);
            assert(r[j].author == gs[j].author);
        }
    } else {
        let r = add_review(gs, author, event_id, d);
        assert forall|i: int, j: int| 0 <= i < j < r.len() implies r[i].author != r[j].author by {
            if j == gs.len() {
                assert(r[i] == gs[i]);
            } else {
                assert(r[i] == gs[i]);
                assert(r[j] == gs[j]);
            }
        }
    }
}

/// A known signer's review updates that signer's own group.
pub proof fn lemma_add_known(gs: Seq<GroupV>, author: Seq<char>, event_id: Seq<char>, d: ReviewDecision, k: int)
    requires
        authors_distinct(gs),
        0 <= k < gs.len(),
        gs[k].author == author,
    ensures
        add_review(gs, author, event_id, d) == gs.update(
            k,
            GroupV { conflict: gs[k].conflict || gs[k].decision != d, ..gs[k] },
        ),
{
    assert(has_group(gs, author));
    let j = choose|j: int| 0 <= j < gs.len() && gs[j].author == author;
    assert(j == k);
}

/// Collect the earliest review ids of the consistent groups that decided `d`.
fn decided_ids(gs: &Vec<Group>, d: ReviewDecision) -> (r: Vec<String>)
    ensures
        views(r@) == decided(views(gs@), d),
{
    let mut out: Vec<String> = Vec::new();
    let n = gs.len();
    let mut i: usize = 0;
    while i < n
        invariant
            n == gs@.len(),
            i <= n,
            views(out@) == decided(views(gs@).take(i as int), d),
        decreases n - i,
    {
        proof {
            assert(views(gs@).take(i + 1).drop_last() =~= views(gs@).take(i as int));
            assert(views(gs@).take(i + 1).last() == gs@[i as int]@);
        }
        if !gs[i].conflict && gs[i].decision == d {
            out.push(gs[i].first.clone());
            proof {
                assert(views(out@) =~= decided(views(gs@).take(i as int), d).push(gs@[i as int].first@));
            }
        }
        i += 1;
    }
    assert(views(gs@).take(n as int) =~= views(gs@));
    out
}

/// Collect the signers who decided more than one way.
fn conflicted_authors(gs: &Vec<Group>) -> (r: Vec<String>)
    ensures
        views(r@) == conflicted(views(gs@)),
{
    let mut out: Vec<String> = Vec::new();
    let n = gs.len();
    let mut i: usize = 0;
    while i < n
        invariant
            n == gs@.len(),
            i <= n,
            views(out@) == conflicted(views(gs@).take(i as int)),
        decreases n - i,
    {
        proof {
            assert(views(gs@).take(i + 1).drop_last() =~= views(gs@).take(i as int));
            assert(views(gs@).take(i + 1).last() == gs@[i as int]@);
        }
        if gs[i].conflict {
            out.push(gs[i].author.clone());
            proof {
                assert(views(out@) =~= conflicted(views(gs@).take(i as int)).push(gs@[i as int].author@));
            }
        }
        i += 1;
    }
    assert(views(gs@).take(n as int) =~= views(gs@));
    out
}

/// Count review `r` into the groups.
fn count_review(groups: &mut Vec<Group>, r: &EventEnvelope<Review>)
    requires
        authors_distinct(views(old(groups)@)),
    ensures
        views(final(groups)@) == add_review(views(old(groups)@), r.author@, r.event_id@, r.payload.decision),
        authors_distinct(views(final(groups)@)),
{
    let ghost gs = views(groups@);
    proof {
        lemma_add_review(gs, r.author@, r.event_id@, r.payload.decision);
    }
    let n = groups.len();
    let mut k: usize = 0;
    while k < n
        invariant
            n == groups@.len(),
            gs == views(groups@),
            gs == views(old(groups)@),
            authors_distinct(gs),
            k <= n,
            forall|j: int| 0 <= j < k ==> gs[j].author != r.author@,
        decreases n - k,
    {
        if same_text(groups[k].author.as_str(), r.author.as_str()) {
            let g = Group {
                author: groups[k].author.clone(),
                first: groups[k].first.clone(),
                decision: groups[k].decision,
                conflict: groups[k].conflict || groups[k].decision != r.payload.decision,
            };
            groups.set(k, g);
            proof {
                lemma_add_known(gs, r.author@, r.event_id@, r.payload.decision, k as int);
                assert(views(groups@) =~= gs.update(
                    k as int,
                    GroupV { conflict: gs[k as int].conflict || gs[k as int].decision != r.payload.decision, ..gs[k as int] },
                ));
                assert(views(groups@) == add_review(gs, r.author@, r.event_id@, r.payload.decision));
                assert(gs == views(old(groups)@));
            }
            return;
        }
        k += 1;
    }
    groups.push(
        Group {
            author: r.author.clone(),
            first: r.event_id.clone(),
            decision: r.payload.decision,
            conflict: false,
        },
    );
    proof {
        assert(!has_group(gs, r.author@));
        assert(views(groups@) =~= gs.push(
            GroupV { author: r.author@, first: r.event_id@, decision: r.payload.decision, conflict: false },
        ));
    }
}

/// Tally the reviews of proposal `pid` under `policy`. Each ratifier counts
/// once, by the earliest of their reviews; a ratifier who decided more than
/// one way counts as conflicting; reviews by others are listed, not counted.
pub fn evaluate(reviews: &Vec<EventEnvelope<Review>>, pid: &str, policy: &RatificationPolicy) -> (r: RatificationEvaluation)
    ensures
        r@ == evaluation_of(views(reviews@), pid@, policy@),
{
    let ghost rs = views(reviews@);
    let ghost rat = policy@.ratifiers;
    let mut groups: Vec<Group> = Vec::new();
    let mut unauthorized: Vec<String> = Vec::new();
    let n = reviews.len();
    let mut i: usize = 0;
    assert(views(groups@) =~= tally_groups(rs.take(0), pid@, rat));
    assert(views(unauthorized@) =~= tally_unauthorized(rs.take(0), pid@, rat));
    while i < n
        invariant
            n == reviews@.len(),
            rs == views(reviews@),
            rat == policy@.ratifiers,
            i <= n,
            views(groups@) == tally_groups(rs.take(i as int), pid@, rat),
            views(unauthorized@) == tally_unauthorized(rs.take(i as int), pid@, rat),
            authors_distinct(views(groups@)),
        decreases n - i,
    {
        let r = &reviews[i];
        proof {
            assert(rs.take(i + 1).drop_last() =~= rs.take(i as int));
            assert(rs.take(i + 1).last() == r@);
        }
        if same_text(r.payload.proposal_event_id.as_str(), pid) {
            if contains_str(&policy.ratifiers, r.author.as_str()) {
                count_review(&mut groups, r);
            } else {
                unauthorized.push(r.event_id.clone());
                proof {
                    assert(views(unauthorized@) =~= tally_unauthorized(rs.take(i as int), pid@, rat).push(r.event_id@));
                }
            }
        }
        i += 1;
    }
    proof {
        assert(rs.take(n as int) =~= rs);
    }
    let accepted = sort_dedup_vec(decided_ids(&groups, ReviewDecision::Accept));
    let rejected = sort_dedup_vec(decided_ids(&groups, ReviewDecision::Reject));
    let revise = sort_dedup_vec(decided_ids(&groups, ReviewDecision::Revise));
    let conflicting = sort_dedup_vec(conflicted_authors(&groups));
    let unauthorized = sort_dedup_vec(unauthorized);
    let status = if conflicting.len() > 0 || (accepted.len() > 0 && (rejected.len() > 0
        || revise.len() > 0)) || (rejected.len() > 0 && revise.len() > 0) {
        RatificationStatus::Contested
    } else if accepted.len() >= policy.approval_quorum {
        RatificationStatus::Ratified
    } else if rejected.len() >= policy.rejection_threshold {
        RatificationStatus::Rejected
    } else if revise.len() > 0 {
        RatificationStatus::RevisionRequested
    } else {
        RatificationStatus::Pending
    };
    RatificationEvaluation {
        status,
        accepted_review_event_ids: accepted,
        rejected_review_event_ids: rejected,
        revision_review_event_ids: revise,
        unauthorized_review_event_ids: unauthorized,
        conflicting_reviewers: conflicting,
    }
}

} // verus!
