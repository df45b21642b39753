//! Claims: one statement of knowledge with its evidence.

use vstd::prelude::*;

use crate::digest::{jcs_sha256, digest_of};
use crate::error::{
    first_fault_in, invalid, invalid_fault, or_else, require_hex_32, require_non_empty,
    require_sorted_unique, sorted_fault, validate_all, CoreError, Fault, Validate,
};
use crate::evidence::{blank_fault, hex_fault, EvidenceRef, EvidenceRefV};
use crate::json::{
    json_array_of, json_int, json_opt_int, json_str, lit, push_json_array, push_json_int,
    push_json_opt_int, push_json_str, push_lit, ToJson,
};
use crate::order::{sort_dedup, sort_dedup_vec, views, SortKey};
use crate::text::{chars_lt, lemma_chars_lt_order, str_order, Rank};

verus! {

/// The epistemic state of a claim.
#[derive(Debug, Clone, Copy, PartialEq, Eq, Structural)]
pub enum ClaimState {
    Asserted,
    Inferred,
    Unsupported,
    Superseded,
}

/// The wire name of a claim state.
pub open spec fn state_json(s: ClaimState) -> Seq<u8> {
    match s {
        ClaimState::Asserted => lit("\"asserted\""),
        ClaimState::Inferred => lit("\"inferred\""),
        ClaimState::Unsupported => lit("\"unsupported\""),
        ClaimState::Superseded => lit("\"superseded\""),
    }
}

/// One statement of knowledge, content-addressed by `claim_id`.
#[derive(Debug, Clone, PartialEq, Eq)]
pub struct Claim {
    pub claim_id: String,
    pub text: String,
    pub state: ClaimState,
    pub valid_from: i64,
    pub valid_until: Option<i64>,
    pub evidence: Vec<EvidenceRef>,
    pub counterevidence: Vec<EvidenceRef>,
    pub supersedes: Vec<String>,
}

/// The content of a claim.
pub struct ClaimV {
    pub claim_id: Seq<char>,
    pub text: Seq<char>,
    pub state: ClaimState,
    pub valid_from: i64,
    pub valid_until: Option<i64>,
    pub evidence: Seq<EvidenceRefV>,
    pub counterevidence: Seq<EvidenceRefV>,
    pub supersedes: Seq<Seq<char>>,
}

impl View for Claim {
    type V = ClaimV;

    open spec fn view(&self) -> ClaimV {
        ClaimV {
            claim_id: self.claim_id@,
            text: self.text@,
            state: self.state,
            valid_from: self.valid_from,
            valid_until: self.valid_until,
            evidence: views(self.evidence@),
            counterevidence: views(self.counterevidence@),
            supersedes: views(self.supersedes@),
        }
    }
}

/// The JSON of a claim.
pub open spec fn claim_json(c: ClaimV) -> Seq<u8> {
    lit("{\"claimId\":") + json_str(c.claim_id) + lit(",\"text\":") + json_str(c.text) + lit(
        ",\"state\":",
    ) + state_json(c.state) + lit(",\"validFrom\":") + json_int(c.valid_from as int) + lit(
        ",\"validUntil\":",
    ) + json_opt_int(
        match c.valid_until {
            Some(u) => Some(u as int),
            None => None,
        },
    ) + lit(",\"evidence\":") + json_array_of::<EvidenceRef>(c.evidence) + lit(
        ",\"counterevidence\":",
    ) + json_array_of::<EvidenceRef>(c.counterevidence) + lit(",\"supersedes\":")
        + json_array_of::<String>(c.supersedes) + lit("}")
}

/// A claim's content address: the digest of its JSON with `claimId` blank.
pub open spec fn claim_digest(c: ClaimV) -> Option<Seq<char>> {
    digest_of(claim_json(ClaimV { claim_id: Seq::empty(), ..c }))
}

/// A claim with its collections sorted and deduplicated.
pub open spec fn normalized_claim(c: ClaimV) -> ClaimV {
    ClaimV {
        evidence: sort_dedup::<EvidenceRef>(c.evidence),
        counterevidence: sort_dedup::<EvidenceRef>(c.counterevidence),
        supersedes: sort_dedup::<String>(c.supersedes),
        ..c
    }
}

/// The fault of a content address that cannot be computed or does not match.
pub open spec fn id_fault(field: &str, digest: Option<Seq<char>>, id: Seq<char>) -> Option<Fault> {
    match digest {
        None => Some(Fault::Canonical),
        Some(d) => if d != id {
            Some(invalid_fault(field, "does not match canonical payload digest"))
        } else {
            None
        },
    }
}

/// The first rule a claim breaks, in check order.
pub open spec fn claim_fault(c: ClaimV) -> Option<Fault> {
    or_else(
        hex_fault("claimId", c.claim_id),
        or_else(
            blank_fault("claim.text", c.text),
            or_else(
                if c.valid_until matches Some(u) && u <= c.valid_from {
                    Some(invalid_fault("claim.validUntil", "must be later than validFrom"))
                } else {
                    None
                },
                or_else(
                    sorted_fault::<EvidenceRef>("claim.evidence", c.evidence),
                    or_else(
                        sorted_fault::<EvidenceRef>("claim.counterevidence", c.counterevidence),
                        or_else(
                            sorted_fault::<String>("claim.supersedes", c.supersedes),
                            or_else(
                                first_fault_in::<EvidenceRef>(c.evidence + c.counterevidence),
                                or_else(
                                    if c.state == ClaimState::Asserted && c.evidence.len() == 0 {
                                        Some(
                                            invalid_fault(
                                                "claim.evidence",
                                                "asserted claims require primary supporting evidence",
                                            ),
                                        )
                                    } else {
                                        None
                                    },
                                    or_else(
                                        if c.supersedes.contains(c.claim_id) {
                                            Some(
                                                invalid_fault(
                                                    "claim.supersedes",
                                                    "a claim cannot supersede itself",
                                                ),
                                            )
                                        } else {
                                            None
                                        },
                                        id_fault("claimId", claim_digest(c), c.claim_id),
                                    ),
                                ),
                            ),
                        ),
                    ),
                ),
            ),
        ),
    )
}

/// What sealing makes of a claim: normalized, addressed, then validated.
pub open spec fn claim_sealed(r: Result<Claim, CoreError>, c: ClaimV) -> bool {
    match claim_digest(normalized_claim(c)) {
        None => r is Err && fault_of_err(r) == Fault::Canonical,
        Some(d) => {
            let sealed = ClaimV { claim_id: d, ..normalized_claim(c) };
            match claim_fault(sealed) {
                None => r is Ok && r->Ok_0@ == sealed,
                Some(f) => r is Err && fault_of_err(r) == f,
            }
        },
    }
}

/// The fault of a failed result.
pub open spec fn fault_of_err<T>(r: Result<T, CoreError>) -> Fault {
    crate::error::fault_of(r->Err_0)
}

/// True when `ids` contains `id`.
pub fn contains_str(ids: &Vec<String>, id: &str) -> (r: bool)
    ensures
        r == views(ids@).contains(id@),
{
    let n = ids.len();
    let mut i: usize = 0;
    while i < n
        invariant
            n == ids@.len(),
            i <= n,
            forall|k: int| 0 <= k < i ==> ids@[k]@ != id@,
        decreases n - i,
    {
        if str_order(ids[i].as_str(), id) == Rank::Same {
            assert(views(ids@)[i as int] == id@);
            return true;
        }
        i += 1;
    }
    proof {
        if views(ids@).contains(id@) {
            let k = choose|k: int| 0 <= k < views(ids@).len() && views(ids@)[k] == id@;
            assert(ids@[k]@ == id@);
        }
    }
    false
}

/// A copy of a list of strings.
pub fn copy_strings(v: &Vec<String>) -> (r: Vec<String>)
    ensures
        views(r@) == views(v@),
{
    let mut out: Vec<String> = Vec::new();
    let n = v.len();
    let mut i: usize = 0;
    while i < n
        invariant
            n == v@.len(),
            i <= n,
            out@.len() == i,
            forall|k: int| 0 <= k < i ==> out@[k]@ == v@[k]@,
        decreases n - i,
    {
        out.push(v[i].clone());
        i += 1;
    }
    assert(views(out@) =~= views(v@));
    out
}

/// Copies of `src`, appended to `out`.
pub fn append_evidence(out: &mut Vec<EvidenceRef>, src: &Vec<EvidenceRef>)
    ensures
        views(final(out)@) == views(old(out)@) + views(src@),
{
    let n = src.len();
    let mut i: usize = 0;
    while i < n
        invariant
            n == src@.len(),
            i <= n,
            views(out@) == views(old(out)@) + views(src@).take(i as int),
        decreases n - i,
    {
        let ghost prev = out@;
        let d = src[i].duplicate();
        out.push(d);
        assert(views(out@) =~= views(prev).push(d@));
        assert(views(src@)[i as int] == src@[i as int]@);
        assert(views(src@).take(i + 1) =~= views(src@).take(i as int).push(src@[i as int]@));
        assert(views(out@) =~= views(old(out)@) + views(src@).take(i + 1));
        i += 1;
    }
    assert(views(src@).take(n as int) =~= views(src@));
}

impl Claim {
    fn write_json_with_id(&self, id: &str, buf: &mut Vec<u8>)
        ensures
            final(buf)@ == old(buf)@ + claim_json(ClaimV { claim_id: id@, ..self@ }),
    {
        let mut out: Vec<u8> = Vec::new();
        push_lit(&mut out, "{\"claimId\":");
        assert(out@ =~= lit("{\"claimId\":"));
        push_json_str(&mut out, id);
        push_lit(&mut out, ",\"text\":");
        push_json_str(&mut out, self.text.as_str());
        push_lit(&mut out, ",\"state\":");
        match self.state {
            ClaimState::Asserted => push_lit(&mut out, "\"asserted\""),
            ClaimState::Inferred => push_lit(&mut out, "\"inferred\""),
            ClaimState::Unsupported => push_lit(&mut out, "\"unsupported\""),
            ClaimState::Superseded => push_lit(&mut out, "\"superseded\""),
        }
        push_lit(&mut out, ",\"validFrom\":");
        push_json_int(&mut out, self.valid_from);
        push_lit(&mut out, ",\"validUntil\":");
        push_json_opt_int(&mut out, self.valid_until);
        push_lit(&mut out, ",\"evidence\":");
        push_json_array(&mut out, &self.evidence);
        push_lit(&mut out, ",\"counterevidence\":");
        push_json_array(&mut out, &self.counterevidence);
        push_lit(&mut out, ",\"supersedes\":");
        push_json_array(&mut out, &self.supersedes);
        push_lit(&mut out, "}");
        buf.append(&mut out);
    }

    /// Sort and deduplicate the evidence, counterevidence and superseded claims.
    pub fn normalize(&mut self)
        ensures
            final(self)@ == normalized_claim(old(self)@),
    {
        let mut evidence: Vec<EvidenceRef> = Vec::new();
        std::mem::swap(&mut evidence, &mut self.evidence);
        self.evidence = sort_dedup_vec(evidence);
        let mut counterevidence: Vec<EvidenceRef> = Vec::new();
        std::mem::swap(&mut counterevidence, &mut self.counterevidence);
        self.counterevidence = sort_dedup_vec(counterevidence);
        let mut supersedes: Vec<String> = Vec::new();
        std::mem::swap(&mut supersedes, &mut self.supersedes);
        self.supersedes = sort_dedup_vec(supersedes);
    }

    /// The content address of the claim.
    pub fn computed_id(&self) -> (r: Result<String, CoreError>)
        ensures
            match claim_digest(self@) {
                Some(d) => r is Ok && r->Ok_0@ == d,
                None => r is Err && fault_of_err(r) == Fault::Canonical,
            },
    {
        let mut json: Vec<u8> = Vec::new();
        self.write_json_with_id("", &mut json);
        proof {
            assert(""@ =~= Seq::<char>::empty()) by {
                reveal_strlit("");
            }
        }
        jcs_sha256(json.as_slice())
    }

    /// Normalize, address and validate the claim.
    pub fn seal(self) -> (r: Result<Claim, CoreError>)
        ensures
            claim_sealed(r, self@),
    {
        let mut claim = self;
        claim.normalize();
        let id = claim.computed_id()?;
        claim.claim_id = id;
        assert(claim_digest(claim@) == claim_digest(normalized_claim(self@)));
        claim.validate()?;
        Ok(claim)
    }

    /// The evidence followed by the counterevidence.
    pub fn all_evidence(&self) -> (r: Vec<EvidenceRef>)
        ensures
            views(r@) == self@.evidence + self@.counterevidence,
    {
        let mut out: Vec<EvidenceRef> = Vec::new();
        append_evidence(&mut out, &self.evidence);
        append_evidence(&mut out, &self.counterevidence);
        assert(views(out@) =~= self@.evidence + self@.counterevidence);
        out
    }
}

impl ToJson for Claim {
    open spec fn json_of(v: ClaimV) -> Seq<u8> {
        claim_json(v)
    }

    fn write_json(&self, buf: &mut Vec<u8>) {
        self.write_json_with_id(self.claim_id.as_str(), buf);
    }
}

impl Validate for Claim {
    open spec fn first_fault(v: ClaimV) -> Option<Fault> {
        claim_fault(v)
    }

    fn validate(&self) -> (r: Result<(), CoreError>) {
        require_hex_32("claimId", self.claim_id.as_str())?;
        require_non_empty("claim.text", self.text.as_str())?;
        if let Some(until) = self.valid_until {
            if until <= self.valid_from {
                return Err(invalid("claim.validUntil", "must be later than validFrom"));
            }
        }
        require_sorted_unique("claim.evidence", self.evidence.as_slice())?;
        require_sorted_unique("claim.counterevidence", self.counterevidence.as_slice())?;
        require_sorted_unique("claim.supersedes", self.supersedes.as_slice())?;
        let all = self.all_evidence();
        validate_all(all.as_slice())?;
        if self.state == ClaimState::Asserted && self.evidence.len() == 0 {
            return Err(
                invalid("claim.evidence", "asserted claims require primary supporting evidence"),
            );
        }
        if contains_str(&self.supersedes, self.claim_id.as_str()) {
            return Err(invalid("claim.supersedes", "a claim cannot supersede itself"));
        }
        let computed = self.computed_id()?;
        if str_order(computed.as_str(), self.claim_id.as_str()) != Rank::Same {
            return Err(invalid("claimId", "does not match canonical payload digest"));
        }
        Ok(())
    }
}

/// Claims are ordered and deduplicated by their identifier.
impl SortKey for Claim {
    type Key = Seq<char>;

    open spec fn key(v: ClaimV) -> Seq<char> {
        v.claim_id
    }

    open spec fn key_lt(a: Seq<char>, b: Seq<char>) -> bool {
        chars_lt(a, b)
    }

    proof fn lemma_key_order(a: Seq<char>, b: Seq<char>, c: Seq<char>) {
        lemma_chars_lt_order(a, b, c);
    }

    fn key_rank(&self, other: &Claim) -> (r: Rank) {
        str_order(self.claim_id.as_str(), other.claim_id.as_str())
    }
}

} // verus!
