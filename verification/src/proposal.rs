//! Proposals: machine-generated, human-reviewable knowledge from one snapshot.

use vstd::prelude::*;

use crate::claim::{
    claim_fault, fault_of_err, id_fault, normalized_claim, Claim, ClaimV,
};
use crate::digest::{jcs_sha256, digest_of};
use crate::error::{
    invalid, invalid_fault, or_else, reports, require_hex_32, require_non_empty,
    CoreError, Fault, Validate,
};
use crate::evidence::{blank_fault, hex_fault, EvidenceRef, EvidenceRefV};
use crate::json::{
    json_array_of, json_int, json_opt_str, json_str, lit, push_json_array, push_json_int,
    push_json_opt_str, push_json_str, push_lit, ToJson,
};
use crate::order::{sort_dedup, sort_dedup_vec, views};
use crate::snapshot::{
    normalized_snapshot, same_text, schema_fault, snapshot_fault, snapshot_json,
    RetrievalSnapshot, RetrievalSnapshotV, PROPOSAL_SCHEMA_V1,
};
use crate::claim::contains_str;

verus! {

/// The generator that produced a proposal.
#[derive(Debug, Clone, PartialEq, Eq)]
pub struct GeneratorInfo {
    pub name: String,
    pub version: String,
    pub model: Option<String>,
    pub prompt_version: Option<String>,
}

/// The content of generator information.
pub struct GeneratorInfoV {
    pub name: Seq<char>,
    pub version: Seq<char>,
    pub model: Option<Seq<char>>,
    pub prompt_version: Option<Seq<char>>,
}

/// The view of an optional string.
pub open spec fn opt_view(s: Option<String>) -> Option<Seq<char>> {
    match s {
        Some(v) => Some(v@),
        None => None,
    }
}

impl View for GeneratorInfo {
    type V = GeneratorInfoV;

    open spec fn view(&self) -> GeneratorInfoV {
        GeneratorInfoV {
            name: self.name@,
            version: self.version@,
            model: opt_view(self.model),
            prompt_version: opt_view(self.prompt_version),
        }
    }
}

/// The JSON of generator information.
pub open spec fn generator_json(g: GeneratorInfoV) -> Seq<u8> {
    lit("{\"name\":") + json_str(g.name) + lit(",\"version\":") + json_str(g.version) + lit(
        ",\"model\":",
    ) + json_opt_str(g.model) + lit(",\"promptVersion\":") + json_opt_str(g.prompt_version) + lit(
        "}",
    )
}

/// The fault of an optional field that is present but blank.
pub open spec fn blank_opt_fault(field: &str, s: Option<Seq<char>>) -> Option<Fault> {
    match s {
        Some(v) => if crate::text::is_blank(v) {
            Some(invalid_fault(field, "must not be blank when present"))
        } else {
            None
        },
        None => None,
    }
}

/// The first rule generator information breaks, in check order.
pub open spec fn generator_fault(g: GeneratorInfoV) -> Option<Fault> {
    or_else(
        blank_fault("generator.name", g.name),
        or_else(
            blank_fault("generator.version", g.version),
            or_else(
                blank_opt_fault("generator.model", g.model),
                blank_opt_fault("generator.promptVersion", g.prompt_version),
            ),
        ),
    )
}

impl ToJson for GeneratorInfo {
    open spec fn json_of(v: GeneratorInfoV) -> Seq<u8> {
        generator_json(v)
    }

    fn write_json(&self, buf: &mut Vec<u8>) {
        let mut out: Vec<u8> = Vec::new();
        push_lit(&mut out, "{\"name\":");
        assert(out@ =~= lit("{\"name\":"));
        push_json_str(&mut out, self.name.as_str());
        push_lit(&mut out, ",\"version\":");
        push_json_str(&mut out, self.version.as_str());
        push_lit(&mut out, ",\"model\":");
        push_json_opt_str(&mut out, &self.model);
        push_lit(&mut out, ",\"promptVersion\":");
        push_json_opt_str(&mut out, &self.prompt_version);
        push_lit(&mut out, "}");
        buf.append(&mut out);
    }
}

impl Validate for GeneratorInfo {
    open spec fn first_fault(v: GeneratorInfoV) -> Option<Fault> {
        generator_fault(v)
    }

    fn validate(&self) -> (r: Result<(), CoreError>) {
        require_non_empty("generator.name", self.name.as_str())?;
        require_non_empty("generator.version", self.version.as_str())?;
        if let Some(model) = &self.model {
            if crate::text::blank(model.as_str()) {
                return Err(invalid("generator.model", "must not be blank when present"));
            }
        }
        if let Some(prompt_version) = &self.prompt_version {
            if crate::text::blank(prompt_version.as_str()) {
                return Err(invalid("generator.promptVersion", "must not be blank when present"));
            }
        }
        Ok(())
    }
}

/// The source event ids that a claim cites, evidence then counterevidence.
pub open spec fn claim_sources(c: ClaimV) -> Seq<Seq<char>> {
    (c.evidence + c.counterevidence).map_values(|e: EvidenceRefV| e.event_id)
}

/// The source event ids that a sequence of claims cites, claim after claim.
pub open spec fn claims_sources(cs: Seq<ClaimV>) -> Seq<Seq<char>>
    decreases cs.len(),
{
    if cs.len() == 0 {
        Seq::empty()
    } else {
        claims_sources(cs.drop_last()) + claim_sources(cs.last())
    }
}

/// Collect the event ids of `claims`' evidence, sorted and deduplicated.
pub fn source_ids_of(claims: &Vec<Claim>) -> (r: Vec<String>)
    ensures
        views(r@) == sort_dedup::<String>(claims_sources(views(claims@))),
{
    let ghost cv = views(claims@);
    let mut ids: Vec<String> = Vec::new();
    let n = claims.len();
    let mut i: usize = 0;
    assert(cv.take(0) =~= Seq::<ClaimV>::empty());
    assert(views(ids@) =~= Seq::<Seq<char>>::empty());
    while i < n
        invariant
            n == claims@.len(),
            cv == views(claims@),
            i <= n,
            views(ids@) == claims_sources(cv.take(i as int)),
        decreases n - i,
    {
        let all = claims[i].all_evidence();
        let ghost base = views(ids@);
        let m = all.len();
        let mut j: usize = 0;
        while j < m
            invariant
                m == all@.len(),
                j <= m,
                views(ids@) == base + views(all@).take(j as int).map_values(
                    |e: EvidenceRefV| e.event_id,
                ),
            decreases m - j,
        {
            let ghost prev = views(ids@);
            ids.push(all[j].event_id.clone());
            proof {
                assert(views(ids@) =~= prev.push(all@[j as int].event_id@));
                assert(views(all@)[j as int] == all@[j as int]@);
                assert(views(all@).take(j + 1) =~= views(all@).take(j as int).push(all@[j as int]@));
                assert(views(ids@) =~= base + views(all@).take(j + 1).map_values(
                    |e: EvidenceRefV| e.event_id,
                ));
            }
            j += 1;
        }
        proof {
            assert(views(all@).take(m as int) =~= views(all@));
            assert(cv[i as int] == claims@[i as int]@);
            assert(cv.take(i + 1).drop_last() =~= cv.take(i as int));
            assert(views(ids@) =~= claims_sources(cv.take(i + 1)));
        }
        i += 1;
    }
    assert(cv.take(n as int) =~= cv);
    sort_dedup_vec(ids)
}

/// A knowledge proposal drawn from one retrieval snapshot.
#[derive(Debug, Clone, PartialEq, Eq)]
pub struct Proposal {
    pub schema: String,
    pub proposal_id: String,
    pub channel_id: String,
    pub created_at: i64,
    pub generator: GeneratorInfo,
    pub policy_id: String,
    pub snapshot: RetrievalSnapshot,
    pub claims: Vec<Claim>,
}

/// The content of a proposal.
pub struct ProposalV {
    pub schema: Seq<char>,
    pub proposal_id: Seq<char>,
    pub channel_id: Seq<char>,
    pub created_at: i64,
    pub generator: GeneratorInfoV,
    pub policy_id: Seq<char>,
    pub snapshot: RetrievalSnapshotV,
    pub claims: Seq<ClaimV>,
}

impl View for Proposal {
    type V = ProposalV;

    open spec fn view(&self) -> ProposalV {
        ProposalV {
            schema: self.schema@,
            proposal_id: self.proposal_id@,
            channel_id: self.channel_id@,
            created_at: self.created_at,
            generator: self.generator@,
            policy_id: self.policy_id@,
            snapshot: self.snapshot@,
            claims: views(self.claims@),
        }
    }
}

/// The JSON of a proposal.
pub open spec fn proposal_json(p: ProposalV) -> Seq<u8> {
    lit("{\"schema\":") + json_str(p.schema) + lit(",\"proposalId\":") + json_str(p.proposal_id)
        + lit(",\"channelId\":") + json_str(p.channel_id) + lit(",\"createdAt\":") + json_int(
        p.created_at as int,
    ) + lit(",\"generator\":") + generator_json(p.generator) + lit(",\"policyId\":") + json_str(
        p.policy_id,
    ) + lit(",\"snapshot\":") + snapshot_json(p.snapshot) + lit(",\"claims\":") + json_array_of::<
        Claim,
    >(p.claims) + lit("}")
}

/// A proposal's content address: the digest of its JSON with `proposalId` blank.
pub open spec fn proposal_id_digest(p: ProposalV) -> Option<Seq<char>> {
    digest_of(proposal_json(ProposalV { proposal_id: Seq::empty(), ..p }))
}

/// The digest of a proposal's whole JSON, as reviews and records cite it.
pub open spec fn proposal_digest(p: ProposalV) -> Option<Seq<char>> {
    digest_of(proposal_json(p))
}

/// The distinct source event ids that a proposal's claims cite, in order.
pub open spec fn proposal_sources(p: ProposalV) -> Seq<Seq<char>> {
    sort_dedup::<String>(claims_sources(p.claims))
}

/// A proposal with normalized snapshot and claims, claims sorted and
/// deduplicated by identifier.
pub open spec fn normalized_proposal(p: ProposalV) -> ProposalV {
    ProposalV {
        snapshot: normalized_snapshot(p.snapshot),
        claims: sort_dedup::<Claim>(p.claims.map_values(|c: ClaimV| normalized_claim(c))),
        ..p
    }
}

/// The rule a cited evidence reference breaks inside a proposal, if any.
pub open spec fn evidence_scope_fault(
    e: EvidenceRefV,
    channel: Seq<char>,
    community: Seq<char>,
    sources: Seq<Seq<char>>,
) -> Option<Fault> {
    if e.channel_id != channel {
        Some(invalid_fault("proposal.claims.evidence", "cross-channel evidence is not allowed in v1"))
    } else if e.community != community {
        Some(
            invalid_fault(
                "proposal.claims.evidence",
                "evidence community must match the retrieval snapshot",
            ),
        )
    } else if !sources.contains(e.event_id) {
        Some(
            invalid_fault(
                "proposal.claims.evidence",
                "every evidence event must be present in the retrieval snapshot",
            ),
        )
    } else {
        None
    }
}

/// The first scope fault among evidence references, in order.
pub open spec fn evidence_scope_fault_in(
    es: Seq<EvidenceRefV>,
    channel: Seq<char>,
    community: Seq<char>,
    sources: Seq<Seq<char>>,
) -> Option<Fault>
    decreases es.len(),
{
    if es.len() == 0 {
        None
    } else {
        or_else(
            evidence_scope_fault(es[0], channel, community, sources),
            evidence_scope_fault_in(es.drop_first(), channel, community, sources),
        )
    }
}

/// The first fault among a proposal's claims: each claim's own rules, then the
/// scope of its evidence.
pub open spec fn proposal_claims_fault(
    cs: Seq<ClaimV>,
    channel: Seq<char>,
    community: Seq<char>,
    sources: Seq<Seq<char>>,
) -> Option<Fault>
    decreases cs.len(),
{
    if cs.len() == 0 {
        None
    } else {
        or_else(
            or_else(
                claim_fault(cs[0]),
                evidence_scope_fault_in(
                    cs[0].evidence + cs[0].counterevidence,
                    channel,
                    community,
                    sources,
                ),
            ),
            proposal_claims_fault(cs.drop_first(), channel, community, sources),
        )
    }
}

/// The first rule a proposal's header breaks: everything but its claims and
/// its address, in check order.
pub open spec fn proposal_header_fault(p: ProposalV) -> Option<Fault> {
    or_else(
        schema_fault("proposal.schema", p.schema, PROPOSAL_SCHEMA_V1),
        or_else(
            hex_fault("proposalId", p.proposal_id),
            or_else(
                blank_fault("proposal.channelId", p.channel_id),
                or_else(
                    blank_fault("proposal.policyId", p.policy_id),
                    or_else(
                        generator_fault(p.generator),
                        or_else(
                            snapshot_fault(p.snapshot),
                            or_else(
                                if p.snapshot.channel_id != p.channel_id {
                                    Some(
                                        invalid_fault(
                                            "proposal.snapshot",
                                            "snapshot and proposal channels must match",
                                        ),
                                    )
                                } else {
                                    None
                                },
                                or_else(
                                    if p.claims.len() == 0 {
                                        Some(invalid_fault("proposal.claims", "must not be empty"))
                                    } else {
                                        None
                                    },
                                    if !crate::order::sorted_by_key::<Claim>(p.claims) {
                                        Some(
                                            invalid_fault(
                                                "proposal.claims",
                                                "must be sorted by claimId and unique",
                                            ),
                                        )
                                    } else {
                                        None
                                    },
                                ),
                            ),
                        ),
                    ),
                ),
            ),
        ),
    )
}

/// The first rule a proposal breaks, in check order.
pub open spec fn proposal_fault(p: ProposalV) -> Option<Fault> {
    or_else(
        proposal_header_fault(p),
        or_else(
            proposal_claims_fault(
                p.claims,
                p.channel_id,
                p.snapshot.community,
                p.snapshot.source_event_ids,
            ),
            id_fault("proposalId", proposal_id_digest(p), p.proposal_id),
        ),
    )
}

/// What sealing makes of a proposal: normalized, addressed, then validated.
pub open spec fn proposal_sealed(r: Result<Proposal, CoreError>, p: ProposalV) -> bool {
    match proposal_id_digest(normalized_proposal(p)) {
        None => r is Err && fault_of_err(r) == Fault::Canonical,
        Some(d) => {
            let sealed = ProposalV { proposal_id: d, ..normalized_proposal(p) };
            match proposal_fault(sealed) {
                None => r is Ok && r->Ok_0@ == sealed,
                Some(f) => r is Err && fault_of_err(r) == f,
            }
        },
    }
}

fn check_evidence_scope(
    es: &Vec<EvidenceRef>,
    channel: &str,
    community: &str,
    sources: &Vec<String>,
) -> (r: Result<(), CoreError>)
    ensures
        reports(r, evidence_scope_fault_in(views(es@), channel@, community@, views(sources@))),
{
    let n = es.len();
    let mut i: usize = 0;
    let ghost v = views(es@);
    assert(v.skip(0) =~= v);
    while i < n
        invariant
            n == es@.len(),
            v == views(es@),
            i <= n,
            evidence_scope_fault_in(v, channel@, community@, views(sources@))
                == evidence_scope_fault_in(v.skip(i as int), channel@, community@, views(sources@)),
        decreases n - i,
    {
        proof {
            assert(v.skip(i as int)[0] == es@[i as int]@);
            assert(v.skip(i as int).drop_first() =~= v.skip(i + 1));
        }
        let e = &es[i];
        if !same_text(e.channel_id.as_str(), channel) {
            return Err(
                invalid("proposal.claims.evidence", "cross-channel evidence is not allowed in v1"),
            );
        }
        if !same_text(e.community.as_str(), community) {
            return Err(
                invalid(
                    "proposal.claims.evidence",
                    "evidence community must match the retrieval snapshot",
                ),
            );
        }
        if !contains_str(sources, e.event_id.as_str()) {
            return Err(
                invalid(
                    "proposal.claims.evidence",
                    "every evidence event must be present in the retrieval snapshot",
                ),
            );
        }
        i += 1;
    }
    assert(v.skip(n as int) =~= Seq::<EvidenceRefV>::empty());
    Ok(())
}

impl Proposal {
    /// Normalize the snapshot and every claim, then sort and deduplicate the
    /// claims by identifier, keeping the first of each.
    pub fn normalize(&mut self)
        ensures
            final(self)@ == normalized_proposal(old(self)@),
    {
        self.snapshot.normalize();
        let mut claims: Vec<Claim> = Vec::new();
        std::mem::swap(&mut claims, &mut self.claims);
        let ghost orig = views(claims@);
        let ghost total = claims@.len();
        assert(total == claims.len());
        let mut normalized: Vec<Claim> = Vec::new();
        let mut k: usize = 0;
        while claims.len() > 0
            invariant
                k + claims@.len() == total,
                total <= usize::MAX,
                total == orig.len(),
                views(claims@) == orig.skip(k as int),
                views(normalized@) == orig.take(k as int).map_values(
                    |c: ClaimV| normalized_claim(c),
                ),
            decreases claims@.len(),
        {
            let ghost before = claims@;
            let mut claim = claims.remove(0);
            proof {
                assert(views(before)[0] == claim@);
                assert(views(claims@) =~= views(before).drop_first());
                assert(orig.skip(k as int).drop_first() =~= orig.skip(k + 1));
            }
            claim.normalize();
            let ghost prev = normalized@;
            normalized.push(claim);
            proof {
                assert(orig[k as int] == views(before)[0]);
                assert(views(normalized@) =~= views(prev).push(claim@));
                assert(orig.take(k + 1) =~= orig.take(k as int).push(orig[k as int]));
                assert(views(normalized@) =~= orig.take(k + 1).map_values(
                    |c: ClaimV| normalized_claim(c),
                ));
            }
            k += 1;
        }
        assert(orig.take(k as int) =~= orig);
        self.claims = sort_dedup_vec(normalized);
    }

    fn write_json_with_id(&self, id: &str, buf: &mut Vec<u8>)
        ensures
            final(buf)@ == old(buf)@ + proposal_json(ProposalV { proposal_id: id@, ..self@ }),
    {
        let mut out: Vec<u8> = Vec::new();
        push_lit(&mut out, "{\"schema\":");
        assert(out@ =~= lit("{\"schema\":"));
        push_json_str(&mut out, self.schema.as_str());
        push_lit(&mut out, ",\"proposalId\":");
        push_json_str(&mut out, id);
        push_lit(&mut out, ",\"channelId\":");
        push_json_str(&mut out, self.channel_id.as_str());
        push_lit(&mut out, ",\"createdAt\":");
        push_json_int(&mut out, self.created_at);
        push_lit(&mut out, ",\"generator\":");
        self.generator.write_json(&mut out);
        push_lit(&mut out, ",\"policyId\":");
        push_json_str(&mut out, self.policy_id.as_str());
        push_lit(&mut out, ",\"snapshot\":");
        self.snapshot.write_json(&mut out);
        push_lit(&mut out, ",\"claims\":");
        push_json_array(&mut out, &self.claims);
        push_lit(&mut out, "}");
        buf.append(&mut out);
    }

    /// The content address of the proposal.
    pub fn computed_id(&self) -> (r: Result<String, CoreError>)
        ensures
            match proposal_id_digest(self@) {
                Some(d) => r is Ok && r->Ok_0@ == d,
                None => r is Err && fault_of_err(r) == Fault::Canonical,
            },
    {
        let mut json: Vec<u8> = Vec::new();
        self.write_json_with_id("", &mut json);
        proof {
            assert(""@ =~= Seq::<char>::empty()) by {
                reveal_strlit("");
            }
        }
        jcs_sha256(json.as_slice())
    }

    /// The digest of the whole proposal, identifier included.
    pub fn digest(&self) -> (r: Result<String, CoreError>)
        ensures
            match proposal_digest(self@) {
                Some(d) => r is Ok && r->Ok_0@ == d,
                None => r is Err && fault_of_err(r) == Fault::Canonical,
            },
    {
        let mut json: Vec<u8> = Vec::new();
        self.write_json(&mut json);
        jcs_sha256(json.as_slice())
    }

    /// Normalize, address and validate the proposal.
    pub fn seal(self) -> (r: Result<Proposal, CoreError>)
        ensures
            proposal_sealed(r, self@),
    {
        let mut proposal = self;
        proposal.normalize();
        let id = proposal.computed_id()?;
        proposal.proposal_id = id;
        assert(proposal_id_digest(proposal@) == proposal_id_digest(normalized_proposal(self@)));
        proposal.validate()?;
        Ok(proposal)
    }

    /// The distinct source event ids that the claims cite, in order.
    pub fn evidence_event_ids(&self) -> (r: Vec<String>)
        ensures
            views(r@) == proposal_sources(self@),
    {
        source_ids_of(&self.claims)
    }
}

impl ToJson for Proposal {
    open spec fn json_of(v: ProposalV) -> Seq<u8> {
        proposal_json(v)
    }

    fn write_json(&self, buf: &mut Vec<u8>) {
        self.write_json_with_id(self.proposal_id.as_str(), buf);
    }
}

impl Validate for Proposal {
    open spec fn first_fault(v: ProposalV) -> Option<Fault> {
        proposal_fault(v)
    }

    fn validate(&self) -> (r: Result<(), CoreError>) {
        match self.validate_header() {
            Err(e) => return Err(e),
            Ok(()) => {},
        }
        match self.validate_claims() {
            Err(e) => return Err(e),
            Ok(()) => {},
        }
        self.check_id()
    }
}

impl Proposal {
    fn check_id(&self) -> (r: Result<(), CoreError>)
        ensures
            reports(r, id_fault("proposalId", proposal_id_digest(self@), self@.proposal_id)),
    {
        let computed = match self.computed_id() {
            Ok(c) => c,
            Err(e) => return Err(e),
        };
        if !same_text(computed.as_str(), self.proposal_id.as_str()) {
            return Err(invalid("proposalId", "does not match canonical payload digest"));
        }
        Ok(())
    }

    fn validate_header(&self) -> (r: Result<(), CoreError>)
        ensures
            reports(r, proposal_header_fault(self@)),
    {
        if !same_text(self.schema.as_str(), PROPOSAL_SCHEMA_V1) {
            return Err(invalid("proposal.schema", "unsupported schema"));
        }
        require_hex_32("proposalId", self.proposal_id.as_str())?;
        require_non_empty("proposal.channelId", self.channel_id.as_str())?;
        require_non_empty("proposal.policyId", self.policy_id.as_str())?;
        self.generator.validate()?;
        self.snapshot.validate()?;
        if !same_text(self.snapshot.channel_id.as_str(), self.channel_id.as_str()) {
            return Err(invalid("proposal.snapshot", "snapshot and proposal channels must match"));
        }
        if self.claims.len() == 0 {
            return Err(invalid("proposal.claims", "must not be empty"));
        }
        if !crate::order::is_sorted_unique(self.claims.as_slice()) {
            return Err(invalid("proposal.claims", "must be sorted by claimId and unique"));
        }
        Ok(())
    }

    #[verifier::spinoff_prover]
    #[verifier::rlimit(80)]
    fn validate_claims(&self) -> (r: Result<(), CoreError>)
        ensures
            reports(
                r,
                proposal_claims_fault(
                    self@.claims,
                    self@.channel_id,
                    self@.snapshot.community,
                    self@.snapshot.source_event_ids,
                ),
            ),
    {
        let n = self.claims.len();
        let mut i: usize = 0;
        let ghost v = views(self.claims@);
        let ghost community = self.snapshot.community@;
        let ghost sources = views(self.snapshot.source_event_ids@);
        assert(v.skip(0) =~= v);
        while i < n
            invariant
                n == self.claims@.len(),
                v == views(self.claims@),
                community == self.snapshot.community@,
                sources == views(self.snapshot.source_event_ids@),
                i <= n,
                proposal_claims_fault(v, self.channel_id@, community, sources)
                    == proposal_claims_fault(v.skip(i as int), self.channel_id@, community, sources),
            decreases n - i,
        {
            proof {
                assert(v.skip(i as int)[0] == self.claims@[i as int]@);
                assert(v.skip(i as int).drop_first() =~= v.skip(i + 1));
            }
            let claim = &self.claims[i];
            claim.validate()?;
            let all = claim.all_evidence();
            check_evidence_scope(
                &all,
                self.channel_id.as_str(),
                self.snapshot.community.as_str(),
                &self.snapshot.source_event_ids,
            )?;
            i += 1;
        }
        assert(v.skip(n as int) =~= Seq::<ClaimV>::empty());
        Ok(())
    }
}

} // verus!
