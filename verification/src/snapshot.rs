//! Retrieval snapshots: the exact source inventory a proposal was made from.

use vstd::prelude::*;

use crate::claim::{fault_of_err, id_fault};
use crate::coverage::{
    normalized_coverage, CoverageLane, CoverageLaneV, CoverageRecord, CoverageRecordV,
    CoverageStatus,
};
use crate::digest::{jcs_sha256, digest_of};
use crate::error::{
    invalid, invalid_fault, or_else, require_hex_32, require_non_empty, require_sorted_unique,
    sorted_fault, CoreError, Fault, Validate,
};
use crate::evidence::{blank_fault, hex_fault};
use crate::json::{json_array_of, json_str, lit, push_json_array, push_json_str, push_lit, ToJson};
use crate::order::{sort_dedup, sort_dedup_vec, views};
use crate::text::{str_order, Rank};

verus! {

pub const PROPOSAL_SCHEMA_V1: &'static str = "comb.proposal.v1";

pub const SNAPSHOT_SCHEMA_V1: &'static str = "comb.snapshot.v1";

pub const REVIEW_SCHEMA_V1: &'static str = "comb.review.v1";

pub const RECORD_SCHEMA_V1: &'static str = "comb.record.v1";

pub const INVALIDATION_SCHEMA_V1: &'static str = "comb.invalidation.v1";

/// True when two strings hold the same text.
pub fn same_text(a: &str, b: &str) -> (r: bool)
    ensures
        r == (a@ == b@),
{
    str_order(a, b) == Rank::Same
}

/// The fault of a schema other than the expected one.
pub open spec fn schema_fault(field: &str, schema: Seq<char>, expected: &str) -> Option<Fault> {
    if schema != expected@ {
        Some(invalid_fault(field, "unsupported schema"))
    } else {
        None
    }
}

/// The fault of the first identifier in `ids` that is not 32 bytes of hexadecimal.
pub open spec fn hex_fault_in(field: &str, ids: Seq<Seq<char>>) -> Option<Fault>
    decreases ids.len(),
{
    if ids.len() == 0 {
        None
    } else {
        or_else(hex_fault(field, ids[0]), hex_fault_in(field, ids.drop_first()))
    }
}

/// Check every identifier, in order, for 32 bytes of hexadecimal.
pub fn require_hex_32_all(field: &'static str, ids: &Vec<String>) -> (r: Result<(), CoreError>)
    ensures
        crate::error::reports(r, hex_fault_in(field, views(ids@))),
{
    let n = ids.len();
    let mut i: usize = 0;
    let ghost v = views(ids@);
    assert(v.skip(0) =~= v);
    while i < n
        invariant
            n == ids@.len(),
            v == views(ids@),
            i <= n,
            hex_fault_in(field, v) == hex_fault_in(field, v.skip(i as int)),
        decreases n - i,
    {
        proof {
            assert(v.skip(i as int)[0] == ids@[i as int]@);
            assert(v.skip(i as int).drop_first() =~= v.skip(i + 1));
        }
        require_hex_32(field, ids[i].as_str())?;
        i += 1;
    }
    assert(v.skip(n as int) =~= Seq::<Seq<char>>::empty());
    Ok(())
}

/// The kinds of all lanes, lane after lane.
pub open spec fn all_kinds(lanes: Seq<CoverageLaneV>) -> Seq<u32>
    decreases lanes.len(),
{
    if lanes.len() == 0 {
        Seq::empty()
    } else {
        all_kinds(lanes.drop_last()) + lanes.last().kinds
    }
}

/// The sum of the lanes' retrieved counts.
pub open spec fn retrieved_total(lanes: Seq<CoverageLaneV>) -> int
    decreases lanes.len(),
{
    if lanes.len() == 0 {
        0
    } else {
        retrieved_total(lanes.drop_last()) + lanes.last().retrieved
    }
}

/// Some lane covers another channel.
pub open spec fn lane_off_channel(lanes: Seq<CoverageLaneV>, channel: Seq<char>) -> bool {
    exists|i: int| 0 <= i < lanes.len() && #[trigger] lanes[i].channel_id != channel
}

/// A source-of-truth capture of one channel.
#[derive(Debug, Clone, PartialEq, Eq)]
pub struct RetrievalSnapshot {
    pub schema: String,
    pub snapshot_id: String,
    pub community: String,
    pub channel_id: String,
    pub source_event_ids: Vec<String>,
    pub coverage: CoverageRecord,
}

/// The content of a snapshot.
pub struct RetrievalSnapshotV {
    pub schema: Seq<char>,
    pub snapshot_id: Seq<char>,
    pub community: Seq<char>,
    pub channel_id: Seq<char>,
    pub source_event_ids: Seq<Seq<char>>,
    pub coverage: CoverageRecordV,
}

impl View for RetrievalSnapshot {
    type V = RetrievalSnapshotV;

    open spec fn view(&self) -> RetrievalSnapshotV {
        RetrievalSnapshotV {
            schema: self.schema@,
            snapshot_id: self.snapshot_id@,
            community: self.community@,
            channel_id: self.channel_id@,
            source_event_ids: views(self.source_event_ids@),
            coverage: self.coverage@,
        }
    }
}

/// The JSON of a snapshot.
pub open spec fn snapshot_json(s: RetrievalSnapshotV) -> Seq<u8> {
    lit("{\"schema\":") + json_str(s.schema) + lit(",\"snapshotId\":") + json_str(s.snapshot_id)
        + lit(",\"community\":") + json_str(s.community) + lit(",\"channelId\":") + json_str(
        s.channel_id,
    ) + lit(",\"sourceEventIds\":") + json_array_of::<String>(s.source_event_ids) + lit(
        ",\"coverage\":",
    ) + crate::coverage::coverage_json(s.coverage) + lit("}")
}

/// A snapshot's content address: the digest of its JSON with `snapshotId` blank.
pub open spec fn snapshot_digest(s: RetrievalSnapshotV) -> Option<Seq<char>> {
    digest_of(snapshot_json(RetrievalSnapshotV { snapshot_id: Seq::empty(), ..s }))
}

/// A snapshot with sorted, deduplicated sources and normalized coverage.
pub open spec fn normalized_snapshot(s: RetrievalSnapshotV) -> RetrievalSnapshotV {
    RetrievalSnapshotV {
        source_event_ids: sort_dedup::<String>(s.source_event_ids),
        coverage: normalized_coverage(s.coverage),
        ..s
    }
}

/// The first rule a snapshot breaks, in check order.
pub open spec fn snapshot_fault(s: RetrievalSnapshotV) -> Option<Fault> {
    or_else(
        schema_fault("snapshot.schema", s.schema, SNAPSHOT_SCHEMA_V1),
        or_else(
            hex_fault("snapshotId", s.snapshot_id),
            or_else(
                blank_fault("snapshot.community", s.community),
                or_else(
                    blank_fault("snapshot.channelId", s.channel_id),
                    or_else(
                        sorted_fault::<String>("snapshot.sourceEventIds", s.source_event_ids),
                        or_else(
                            hex_fault_in("snapshot.sourceEventId", s.source_event_ids),
                            or_else(
                                crate::coverage::coverage_fault(s.coverage),
                                or_else(
                                    if lane_off_channel(s.coverage.lanes, s.channel_id) {
                                        Some(
                                            invalid_fault(
                                                "snapshot.coverage",
                                                "all coverage lanes must match the snapshot channel",
                                            ),
                                        )
                                    } else {
                                        None
                                    },
                                    or_else(
                                        if !all_kinds(s.coverage.lanes).no_duplicates() {
                                            Some(
                                                invalid_fault(
                                                    "snapshot.coverage",
                                                    "coverage lane kind sets must not overlap",
                                                ),
                                            )
                                        } else {
                                            None
                                        },
                                        or_else(
                                            manifest_fault(s),
                                            id_fault("snapshotId", snapshot_digest(s), s.snapshot_id),
                                        ),
                                    ),
                                ),
                            ),
                        ),
                    ),
                ),
            ),
        ),
    )
}

/// The fault of complete coverage whose retrieved counts overflow or differ
/// from the number of sources.
pub open spec fn manifest_fault(s: RetrievalSnapshotV) -> Option<Fault> {
    if s.coverage.status != CoverageStatus::Complete {
        None
    } else if retrieved_total(s.coverage.lanes) > u64::MAX {
        Some(invalid_fault("snapshot.coverage", "retrieved count overflow"))
    } else if retrieved_total(s.coverage.lanes) != s.source_event_ids.len() {
        Some(
            invalid_fault(
                "snapshot.sourceEventIds",
                "complete coverage requires the source manifest size to match retrieved inventory",
            ),
        )
    } else {
        None
    }
}

/// What sealing makes of a snapshot: normalized, addressed, then validated.
pub open spec fn snapshot_sealed(r: Result<RetrievalSnapshot, CoreError>, s: RetrievalSnapshotV) -> bool {
    match snapshot_digest(normalized_snapshot(s)) {
        None => r is Err && fault_of_err(r) == Fault::Canonical,
        Some(d) => {
            let sealed = RetrievalSnapshotV { snapshot_id: d, ..normalized_snapshot(s) };
            match snapshot_fault(sealed) {
                None => r is Ok && r->Ok_0@ == sealed,
                Some(f) => r is Err && fault_of_err(r) == f,
            }
        },
    }
}

proof fn lemma_retrieved_total_nonneg(lanes: Seq<CoverageLaneV>)
    ensures
        retrieved_total(lanes) >= 0,
    decreases lanes.len(),
{
    if lanes.len() > 0 {
        lemma_retrieved_total_nonneg(lanes.drop_last());
    }
}

fn lanes_on_channel(lanes: &Vec<CoverageLane>, channel: &str) -> (r: bool)
    ensures
        r == !lane_off_channel(views(lanes@), channel@),
{
    let n = lanes.len();
    let mut i: usize = 0;
    while i < n
        invariant
            n == lanes@.len(),
            i <= n,
            forall|k: int| 0 <= k < i ==> (#[trigger] views(lanes@)[k]).channel_id == channel@,
        decreases n - i,
    {
        assert(views(lanes@)[i as int] == lanes@[i as int]@);
        if !same_text(lanes[i].channel_id.as_str(), channel) {
            assert(views(lanes@)[i as int].channel_id != channel@);
            return false;
        }
        i += 1;
    }
    true
}

fn contains_u32(v: &Vec<u32>, x: u32) -> (r: bool)
    ensures
        r == v@.contains(x),
{
    let n = v.len();
    let mut i: usize = 0;
    while i < n
        invariant
            n == v@.len(),
            i <= n,
            forall|k: int| 0 <= k < i ==> v@[k] != x,
        decreases n - i,
    {
        if v[i] == x {
            return true;
        }
        i += 1;
    }
    false
}

fn kinds_disjoint(lanes: &Vec<CoverageLane>) -> (r: bool)
    ensures
        r == all_kinds(views(lanes@)).no_duplicates(),
{
    let ghost lv = views(lanes@);
    let mut seen: Vec<u32> = Vec::new();
    let n = lanes.len();
    let mut i: usize = 0;
    assert(lv.take(0) =~= Seq::<CoverageLaneV>::empty());
    while i < n
        invariant
            n == lanes@.len(),
            lv == views(lanes@),
            i <= n,
            seen@ == all_kinds(lv.take(i as int)),
            seen@.no_duplicates(),
        decreases n - i,
    {
        let kinds = &lanes[i].kinds;
        assert(lv[i as int].kinds == kinds@);
        assert(lv.take(i + 1).drop_last() =~= lv.take(i as int));
        let m = kinds.len();
        let mut j: usize = 0;
        let ghost base = seen@;
        while j < m
            invariant
                n == lanes@.len(),
                lv == views(lanes@),
                i < n,
                base == all_kinds(lv.take(i as int)),
                kinds@ == lv[i as int].kinds,
                m == kinds@.len(),
                j <= m,
                seen@ == base + kinds@.take(j as int),
                seen@.no_duplicates(),
            decreases m - j,
        {
            let kind = kinds[j];
            if contains_u32(&seen, kind) {
                proof {
                    let p = choose|p: int| 0 <= p < seen@.len() && seen@[p] == kind;
                    let full = all_kinds(lv);
                    lemma_all_kinds_prefix(lv, i + 1);
                    let prefix = all_kinds(lv.take(i + 1));
                    assert(lv.take(i + 1).drop_last() =~= lv.take(i as int));
                    assert(lv.take(i + 1).last() == lv[i as int]);
                    assert(prefix == base + kinds@);
                    assert(prefix[p] == kind);
                    assert(prefix[base.len() + j] == kind);
                    assert(full[p] == prefix[p]);
                    assert(full[base.len() + j] == prefix[base.len() + j]);
                }
                return false;
            }
            seen.push(kind);
            assert(kinds@.take(j + 1) =~= kinds@.take(j as int).push(kind));
            assert(seen@ =~= base + kinds@.take(j + 1));
            j += 1;
        }
        assert(kinds@.take(m as int) =~= kinds@);
        i += 1;
    }
    assert(lv.take(n as int) =~= lv);
    true
}

/// The kinds of a prefix of the lanes are a prefix of all kinds.
proof fn lemma_all_kinds_prefix(lanes: Seq<CoverageLaneV>, k: int)
    requires
        0 <= k <= lanes.len(),
    ensures
        all_kinds(lanes.take(k)).len() <= all_kinds(lanes).len(),
        forall|p: int|
            0 <= p < all_kinds(lanes.take(k)).len() ==> #[trigger] all_kinds(lanes)[p] == all_kinds(
                lanes.take(k),
            )[p],
    decreases lanes.len() - k,
{
    if k < lanes.len() {
        lemma_all_kinds_prefix(lanes, k + 1);
        assert(lanes.take(k + 1).drop_last() =~= lanes.take(k));
    } else {
        assert(lanes.take(k) =~= lanes);
    }
}

fn total_retrieved(lanes: &Vec<CoverageLane>) -> (r: Option<u64>)
    ensures
        match r {
            Some(t) => t == retrieved_total(views(lanes@)),
            None => retrieved_total(views(lanes@)) > u64::MAX,
        },
{
    let ghost lv = views(lanes@);
    let n = lanes.len();
    let mut total: u64 = 0;
    let mut i: usize = 0;
    assert(lv.take(0) =~= Seq::<CoverageLaneV>::empty());
    while i < n
        invariant
            n == lanes@.len(),
            lv == views(lanes@),
            i <= n,
            total == retrieved_total(lv.take(i as int)),
        decreases n - i,
    {
        assert(lv.take(i + 1).drop_last() =~= lv.take(i as int));
        assert(lv[i as int] == lanes@[i as int]@);
        match total.checked_add(lanes[i].retrieved) {
            Some(t) => total = t,
            None => {
                proof {
                    lemma_total_prefix(lv, i + 1);
                }
                return None;
            },
        }
        i += 1;
    }
    assert(lv.take(n as int) =~= lv);
    Some(total)
}

proof fn lemma_total_prefix(lanes: Seq<CoverageLaneV>, k: int)
    requires
        0 <= k <= lanes.len(),
    ensures
        retrieved_total(lanes.take(k)) <= retrieved_total(lanes),
    decreases lanes.len() - k,
{
    if k < lanes.len() {
        lemma_total_prefix(lanes, k + 1);
        assert(lanes.take(k + 1).drop_last() =~= lanes.take(k));
    } else {
        assert(lanes.take(k) =~= lanes);
    }
}

impl RetrievalSnapshot {
    /// Sort and deduplicate the sources and normalize the coverage.
    pub fn normalize(&mut self)
        ensures
            final(self)@ == normalized_snapshot(old(self)@),
    {
        let mut ids: Vec<String> = Vec::new();
        std::mem::swap(&mut ids, &mut self.source_event_ids);
        self.source_event_ids = sort_dedup_vec(ids);
        self.coverage.normalize();
    }

    fn write_json_with_id(&self, id: &str, buf: &mut Vec<u8>)
        ensures
            final(buf)@ == old(buf)@ + snapshot_json(RetrievalSnapshotV { snapshot_id: id@, ..self@ }),
    {
        let mut out: Vec<u8> = Vec::new();
        push_lit(&mut out, "{\"schema\":");
        assert(out@ =~= lit("{\"schema\":"));
        push_json_str(&mut out, self.schema.as_str());
        push_lit(&mut out, ",\"snapshotId\":");
        push_json_str(&mut out, id);
        push_lit(&mut out, ",\"community\":");
        push_json_str(&mut out, self.community.as_str());
        push_lit(&mut out, ",\"channelId\":");
        push_json_str(&mut out, self.channel_id.as_str());
        push_lit(&mut out, ",\"sourceEventIds\":");
        push_json_array(&mut out, &self.source_event_ids);
        push_lit(&mut out, ",\"coverage\":");
        self.coverage.write_json(&mut out);
        push_lit(&mut out, "}");
        buf.append(&mut out);
    }

    /// The content address of the snapshot.
    pub fn computed_id(&self) -> (r: Result<String, CoreError>)
        ensures
            match snapshot_digest(self@) {
                Some(d) => r is Ok && r->Ok_0@ == d,
                None => r is Err && fault_of_err(r) == Fault::Canonical,
            },
    {
        let mut json: Vec<u8> = Vec::new();
        self.write_json_with_id("", &mut json);
        proof {
            assert(""@ =~= Seq::<char>::empty()) by {
                reveal_strlit("");
            }
        }
        jcs_sha256(json.as_slice())
    }

    /// Normalize, address and validate the snapshot.
    pub fn seal(self) -> (r: Result<RetrievalSnapshot, CoreError>)
        ensures
            snapshot_sealed(r, self@),
    {
        let mut snapshot = self;
        snapshot.normalize();
        let id = snapshot.computed_id()?;
        snapshot.snapshot_id = id;
        assert(snapshot_digest(snapshot@) == snapshot_digest(normalized_snapshot(self@)));
        snapshot.validate()?;
        Ok(snapshot)
    }
}

impl ToJson for RetrievalSnapshot {
    open spec fn json_of(v: RetrievalSnapshotV) -> Seq<u8> {
        snapshot_json(v)
    }

    fn write_json(&self, buf: &mut Vec<u8>) {
        self.write_json_with_id(self.snapshot_id.as_str(), buf);
    }
}

impl Validate for RetrievalSnapshot {
    open spec fn first_fault(v: RetrievalSnapshotV) -> Option<Fault> {
        snapshot_fault(v)
    }

    fn validate(&self) -> (r: Result<(), CoreError>) {
        if !same_text(self.schema.as_str(), SNAPSHOT_SCHEMA_V1) {
            return Err(invalid("snapshot.schema", "unsupported schema"));
        }
        require_hex_32("snapshotId", self.snapshot_id.as_str())?;
        require_non_empty("snapshot.community", self.community.as_str())?;
        require_non_empty("snapshot.channelId", self.channel_id.as_str())?;
        require_sorted_unique("snapshot.sourceEventIds", self.source_event_ids.as_slice())?;
        require_hex_32_all("snapshot.sourceEventId", &self.source_event_ids)?;
        self.coverage.validate()?;
        if !lanes_on_channel(&self.coverage.lanes, self.channel_id.as_str()) {
            return Err(
                invalid("snapshot.coverage", "all coverage lanes must match the snapshot channel"),
            );
        }
        if !kinds_disjoint(&self.coverage.lanes) {
            return Err(invalid("snapshot.coverage", "coverage lane kind sets must not overlap"));
        }
        if self.coverage.status == CoverageStatus::Complete {
            proof {
                lemma_retrieved_total_nonneg(self@.coverage.lanes);
            }
            match total_retrieved(&self.coverage.lanes) {
                None => {
                    return Err(invalid("snapshot.coverage", "retrieved count overflow"));
                },
                Some(total) => {
                    if total != self.source_event_ids.len() as u64 {
                        return Err(
                            invalid(
                                "snapshot.sourceEventIds",
                                "complete coverage requires the source manifest size to match retrieved inventory",
                            ),
                        );
                    }
                },
            }
        }
        let computed = self.computed_id()?;
        if !same_text(computed.as_str(), self.snapshot_id.as_str()) {
            return Err(invalid("snapshotId", "does not match canonical payload digest"));
        }
        Ok(())
    }
}

} // verus!
