//! Self-attested coverage: what a capture of one channel claims to have seen.

use vstd::prelude::*;

use crate::error::{
    first_fault_in, invalid, invalid_fault, or_else, require_non_empty, require_sorted_unique,
    sorted_fault, validate_all, CoreError, Fault, Validate,
};
use crate::evidence::blank_fault;
use crate::json::{
    json_array_of, json_int, json_str, lit, push_json_array, push_json_int, push_json_str,
    push_json_uint, push_lit, ToJson,
};
use crate::order::{sort_dedup, sort_dedup_vec, views, SortKey};
use crate::text::{chars_lt, lemma_chars_lt_order, str_order, Rank};

verus! {

/// How much of a window a capture covered.
#[derive(Debug, Clone, Copy, PartialEq, Eq, Structural)]
pub enum CoverageStatus {
    Complete,
    Partial,
    Stale,
    Failed,
}

/// The wire name of a coverage status.
pub open spec fn status_json(s: CoverageStatus) -> Seq<u8> {
    match s {
        CoverageStatus::Complete => lit("\"complete\""),
        CoverageStatus::Partial => lit("\"partial\""),
        CoverageStatus::Stale => lit("\"stale\""),
        CoverageStatus::Failed => lit("\"failed\""),
    }
}

/// Why a capture is known to be incomplete.
#[derive(Debug, Clone, Copy, PartialEq, Eq, Structural)]
pub enum CoverageGapReason {
    QueryCapOverflow,
    SameSecondOverflow,
    CountChangedDuringCapture,
    SubscriptionDisconnect,
    SourceDeleted,
    SourceUnavailable,
    SignatureInvalid,
    MissingTranscript,
    PrivateDmNotGranted,
    AdapterError,
}

/// Position of a gap reason in declaration order.
pub open spec fn reason_index(r: CoverageGapReason) -> int {
    match r {
        CoverageGapReason::QueryCapOverflow => 0,
        CoverageGapReason::SameSecondOverflow => 1,
        CoverageGapReason::CountChangedDuringCapture => 2,
        CoverageGapReason::SubscriptionDisconnect => 3,
        CoverageGapReason::SourceDeleted => 4,
        CoverageGapReason::SourceUnavailable => 5,
        CoverageGapReason::SignatureInvalid => 6,
        CoverageGapReason::MissingTranscript => 7,
        CoverageGapReason::PrivateDmNotGranted => 8,
        CoverageGapReason::AdapterError => 9,
    }
}

/// The wire name of a gap reason.
pub open spec fn reason_json(r: CoverageGapReason) -> Seq<u8> {
    match r {
        CoverageGapReason::QueryCapOverflow => lit("\"query_cap_overflow\""),
        CoverageGapReason::SameSecondOverflow => lit("\"same_second_overflow\""),
        CoverageGapReason::CountChangedDuringCapture => lit("\"count_changed_during_capture\""),
        CoverageGapReason::SubscriptionDisconnect => lit("\"subscription_disconnect\""),
        CoverageGapReason::SourceDeleted => lit("\"source_deleted\""),
        CoverageGapReason::SourceUnavailable => lit("\"source_unavailable\""),
        CoverageGapReason::SignatureInvalid => lit("\"signature_invalid\""),
        CoverageGapReason::MissingTranscript => lit("\"missing_transcript\""),
        CoverageGapReason::PrivateDmNotGranted => lit("\"private_dm_not_granted\""),
        CoverageGapReason::AdapterError => lit("\"adapter_error\""),
    }
}

fn reason_rank(r: CoverageGapReason) -> (n: u8)
    ensures
        n as int == reason_index(r),
{
    match r {
        CoverageGapReason::QueryCapOverflow => 0,
        CoverageGapReason::SameSecondOverflow => 1,
        CoverageGapReason::CountChangedDuringCapture => 2,
        CoverageGapReason::SubscriptionDisconnect => 3,
        CoverageGapReason::SourceDeleted => 4,
        CoverageGapReason::SourceUnavailable => 5,
        CoverageGapReason::SignatureInvalid => 6,
        CoverageGapReason::MissingTranscript => 7,
        CoverageGapReason::PrivateDmNotGranted => 8,
        CoverageGapReason::AdapterError => 9,
    }
}

fn write_reason(r: CoverageGapReason, buf: &mut Vec<u8>)
    ensures
        final(buf)@ == old(buf)@ + reason_json(r),
{
    match r {
        CoverageGapReason::QueryCapOverflow => push_lit(buf, "\"query_cap_overflow\""),
        CoverageGapReason::SameSecondOverflow => push_lit(buf, "\"same_second_overflow\""),
        CoverageGapReason::CountChangedDuringCapture => push_lit(
            buf,
            "\"count_changed_during_capture\"",
        ),
        CoverageGapReason::SubscriptionDisconnect => push_lit(buf, "\"subscription_disconnect\""),
        CoverageGapReason::SourceDeleted => push_lit(buf, "\"source_deleted\""),
        CoverageGapReason::SourceUnavailable => push_lit(buf, "\"source_unavailable\""),
        CoverageGapReason::SignatureInvalid => push_lit(buf, "\"signature_invalid\""),
        CoverageGapReason::MissingTranscript => push_lit(buf, "\"missing_transcript\""),
        CoverageGapReason::PrivateDmNotGranted => push_lit(buf, "\"private_dm_not_granted\""),
        CoverageGapReason::AdapterError => push_lit(buf, "\"adapter_error\""),
    }
}

/// A known gap in a capture.
#[derive(Debug, Clone, PartialEq, Eq)]
pub struct CoverageGap {
    pub reason: CoverageGapReason,
    pub detail: String,
}

/// The content of a coverage gap.
pub struct CoverageGapV {
    pub reason: CoverageGapReason,
    pub detail: Seq<char>,
}

impl View for CoverageGap {
    type V = CoverageGapV;

    open spec fn view(&self) -> CoverageGapV {
        CoverageGapV { reason: self.reason, detail: self.detail@ }
    }
}

/// The derived order of gaps: by reason, then by detail.
pub open spec fn gap_lt(a: CoverageGapV, b: CoverageGapV) -> bool {
    if a.reason != b.reason {
        reason_index(a.reason) < reason_index(b.reason)
    } else {
        chars_lt(a.detail, b.detail)
    }
}

/// The JSON of a gap.
pub open spec fn gap_json(g: CoverageGapV) -> Seq<u8> {
    lit("{\"reason\":") + reason_json(g.reason) + lit(",\"detail\":") + json_str(g.detail) + lit(
        "}",
    )
}

impl SortKey for CoverageGap {
    type Key = CoverageGapV;

    open spec fn key(v: CoverageGapV) -> CoverageGapV {
        v
    }

    open spec fn key_lt(a: CoverageGapV, b: CoverageGapV) -> bool {
        gap_lt(a, b)
    }

    proof fn lemma_key_order(a: CoverageGapV, b: CoverageGapV, c: CoverageGapV) {
        lemma_chars_lt_order(a.detail, b.detail, c.detail);
    }

    fn key_rank(&self, other: &CoverageGap) -> (r: Rank) {
        let x = reason_rank(self.reason);
        let y = reason_rank(other.reason);
        if x < y {
            Rank::Before
        } else if y < x {
            Rank::After
        } else {
            str_order(self.detail.as_str(), other.detail.as_str())
        }
    }
}

impl ToJson for CoverageGap {
    open spec fn json_of(v: CoverageGapV) -> Seq<u8> {
        gap_json(v)
    }

    fn write_json(&self, buf: &mut Vec<u8>) {
        let mut out: Vec<u8> = Vec::new();
        push_lit(&mut out, "{\"reason\":");
        assert(out@ =~= lit("{\"reason\":"));
        write_reason(self.reason, &mut out);
        push_lit(&mut out, ",\"detail\":");
        push_json_str(&mut out, self.detail.as_str());
        push_lit(&mut out, "}");
        buf.append(&mut out);
    }
}

/// Lexicographic order of kind lists.
pub open spec fn kinds_lt(a: Seq<u32>, b: Seq<u32>) -> bool
    decreases a.len(),
{
    if a.len() == 0 {
        b.len() > 0
    } else if b.len() == 0 {
        false
    } else if a[0] < b[0] {
        true
    } else if a[0] == b[0] {
        kinds_lt(a.drop_first(), b.drop_first())
    } else {
        false
    }
}

proof fn lemma_kinds_lt_order(a: Seq<u32>, b: Seq<u32>, c: Seq<u32>)
    ensures
        !kinds_lt(a, a),
        kinds_lt(a, b) && kinds_lt(b, c) ==> kinds_lt(a, c),
        kinds_lt(a, b) || kinds_lt(b, a) || a == b,
        !(kinds_lt(a, b) && kinds_lt(b, a)),
    decreases a.len(),
{
    if a.len() > 0 {
        let b1 = if b.len() > 0 { b.drop_first() } else { a.drop_first() };
        let c1 = if c.len() > 0 { c.drop_first() } else { a.drop_first() };
        lemma_kinds_lt_order(a.drop_first(), b1, c1);
    }
    if a.len() > 0 && b.len() > 0 && a[0] == b[0] && a.drop_first() == b.drop_first() {
        assert(a =~= seq![a[0]] + a.drop_first());
        assert(b =~= seq![b[0]] + b.drop_first());
    }
    if a.len() == 0 && b.len() == 0 {
        assert(a =~= b);
    }
}

fn kinds_order(a: &Vec<u32>, b: &Vec<u32>) -> (r: Rank)
    ensures
        r == Rank::Before <==> kinds_lt(a@, b@),
        r == Rank::After <==> kinds_lt(b@, a@),
        r == Rank::Same <==> a@ == b@,
{
    proof {
        lemma_kinds_lt_order(a@, b@, a@);
    }
    let na = a.len();
    let nb = b.len();
    let mut i: usize = 0;
    assert(a@.skip(0) =~= a@);
    assert(b@.skip(0) =~= b@);
    while i < na && i < nb
        invariant
            na == a@.len(),
            nb == b@.len(),
            i <= na,
            i <= nb,
            a@.take(i as int) == b@.take(i as int),
            kinds_lt(a@, b@) == kinds_lt(a@.skip(i as int), b@.skip(i as int)),
            kinds_lt(b@, a@) == kinds_lt(b@.skip(i as int), a@.skip(i as int)),
        decreases na - i,
    {
        let x = a[i];
        let y = b[i];
        assert(a@.skip(i as int).drop_first() =~= a@.skip(i + 1));
        assert(b@.skip(i as int).drop_first() =~= b@.skip(i + 1));
        if x < y {
            return Rank::Before;
        }
        if y < x {
            return Rank::After;
        }
        assert(a@.take(i + 1) =~= a@.take(i as int).push(x));
        assert(b@.take(i + 1) =~= b@.take(i as int).push(y));
        i += 1;
    }
    if i < nb {
        Rank::Before
    } else if i < na {
        Rank::After
    } else {
        assert(a@ =~= a@.take(i as int));
        assert(b@ =~= b@.take(i as int));
        Rank::Same
    }
}

fn u64_order(a: u64, b: u64) -> (r: Rank)
    ensures
        r == Rank::Before <==> a < b,
        r == Rank::After <==> b < a,
        r == Rank::Same <==> a == b,
{
    if a < b {
        Rank::Before
    } else if b < a {
        Rank::After
    } else {
        Rank::Same
    }
}

/// What one capture lane (one channel, some kinds) counted and retrieved.
#[derive(Debug, Clone, PartialEq, Eq)]
pub struct CoverageLane {
    pub channel_id: String,
    pub kinds: Vec<u32>,
    pub count_before: u64,
    pub retrieved: u64,
    pub count_after: u64,
    pub signature_failures: u64,
    pub unresolved_sources: u64,
}

/// The content of a coverage lane.
pub struct CoverageLaneV {
    pub channel_id: Seq<char>,
    pub kinds: Seq<u32>,
    pub count_before: u64,
    pub retrieved: u64,
    pub count_after: u64,
    pub signature_failures: u64,
    pub unresolved_sources: u64,
}

impl View for CoverageLane {
    type V = CoverageLaneV;

    open spec fn view(&self) -> CoverageLaneV {
        CoverageLaneV {
            channel_id: self.channel_id@,
            kinds: self.kinds@,
            count_before: self.count_before,
            retrieved: self.retrieved,
            count_after: self.count_after,
            signature_failures: self.signature_failures,
            unresolved_sources: self.unresolved_sources,
        }
    }
}

/// The derived order of lanes: field by field, in declaration order.
pub open spec fn lane_lt(a: CoverageLaneV, b: CoverageLaneV) -> bool {
    if a.channel_id != b.channel_id {
        chars_lt(a.channel_id, b.channel_id)
    } else if a.kinds != b.kinds {
        kinds_lt(a.kinds, b.kinds)
    } else if a.count_before != b.count_before {
        a.count_before < b.count_before
    } else if a.retrieved != b.retrieved {
        a.retrieved < b.retrieved
    } else if a.count_after != b.count_after {
        a.count_after < b.count_after
    } else if a.signature_failures != b.signature_failures {
        a.signature_failures < b.signature_failures
    } else {
        a.unresolved_sources < b.unresolved_sources
    }
}

/// A lane is exact when the counts before and after agree with what was
/// retrieved, every signature verified and every source resolved.
pub open spec fn lane_exact(l: CoverageLaneV) -> bool {
    l.count_before == l.count_after && l.count_before == l.retrieved && l.signature_failures == 0
        && l.unresolved_sources == 0
}

/// A lane with its kinds sorted and deduplicated.
pub open spec fn normalized_lane(l: CoverageLaneV) -> CoverageLaneV {
    CoverageLaneV { kinds: sort_dedup::<u32>(l.kinds), ..l }
}

/// The JSON of a lane.
pub open spec fn lane_json(l: CoverageLaneV) -> Seq<u8> {
    lit("{\"channelId\":") + json_str(l.channel_id) + lit(",\"kinds\":") + json_array_of::<u32>(
        l.kinds,
    ) + lit(",\"countBefore\":") + json_int(l.count_before as int) + lit(",\"retrieved\":")
        + json_int(l.retrieved as int) + lit(",\"countAfter\":") + json_int(l.count_after as int)
        + lit(",\"signatureFailures\":") + json_int(l.signature_failures as int) + lit(
        ",\"unresolvedSources\":",
    ) + json_int(l.unresolved_sources as int) + lit("}")
}

/// The first rule a lane breaks, in check order.
pub open spec fn lane_fault(l: CoverageLaneV) -> Option<Fault> {
    or_else(
        blank_fault("coverage.lane.channelId", l.channel_id),
        or_else(
            if l.kinds.len() == 0 {
                Some(invalid_fault("coverage.lane.kinds", "must not be empty"))
            } else {
                None
            },
            sorted_fault::<u32>("coverage.lane.kinds", l.kinds),
        ),
    )
}

impl CoverageLane {
    /// Sort and deduplicate the lane's kinds.
    pub fn normalize(&mut self)
        ensures
            final(self)@ == normalized_lane(old(self)@),
    {
        let mut kinds: Vec<u32> = Vec::new();
        std::mem::swap(&mut kinds, &mut self.kinds);
        self.kinds = sort_dedup_vec(kinds);
        assert(views(old(self).kinds@) =~= old(self).kinds@);
        assert(views(self.kinds@) =~= self.kinds@);
    }

    /// Counts agree, signatures verified and sources resolved.
    pub fn is_exact(&self) -> (r: bool)
        ensures
            r == lane_exact(self@),
    {
        self.count_before == self.count_after && self.count_before == self.retrieved
            && self.signature_failures == 0 && self.unresolved_sources == 0
    }
}

impl SortKey for CoverageLane {
    type Key = CoverageLaneV;

    open spec fn key(v: CoverageLaneV) -> CoverageLaneV {
        v
    }

    open spec fn key_lt(a: CoverageLaneV, b: CoverageLaneV) -> bool {
        lane_lt(a, b)
    }

    proof fn lemma_key_order(a: CoverageLaneV, b: CoverageLaneV, c: CoverageLaneV) {
        lemma_chars_lt_order(a.channel_id, b.channel_id, c.channel_id);
        lemma_chars_lt_order(a.channel_id, c.channel_id, b.channel_id);
        lemma_chars_lt_order(b.channel_id, a.channel_id, c.channel_id);
        lemma_kinds_lt_order(a.kinds, b.kinds, c.kinds);
        lemma_kinds_lt_order(a.kinds, c.kinds, b.kinds);
        lemma_kinds_lt_order(b.kinds, a.kinds, c.kinds);
    }

    fn key_rank(&self, other: &CoverageLane) -> (r: Rank) {
        let r = str_order(self.channel_id.as_str(), other.channel_id.as_str());
        if r != Rank::Same {
            return r;
        }
        let r = kinds_order(&self.kinds, &other.kinds);
        if r != Rank::Same {
            return r;
        }
        let r = u64_order(self.count_before, other.count_before);
        if r != Rank::Same {
            return r;
        }
        let r = u64_order(self.retrieved, other.retrieved);
        if r != Rank::Same {
            return r;
        }
        let r = u64_order(self.count_after, other.count_after);
        if r != Rank::Same {
            return r;
        }
        let r = u64_order(self.signature_failures, other.signature_failures);
        if r != Rank::Same {
            return r;
        }
        u64_order(self.unresolved_sources, other.unresolved_sources)
    }
}

impl ToJson for CoverageLane {
    open spec fn json_of(v: CoverageLaneV) -> Seq<u8> {
        lane_json(v)
    }

    fn write_json(&self, buf: &mut Vec<u8>) {
        let mut out: Vec<u8> = Vec::new();
        push_lit(&mut out, "{\"channelId\":");
        assert(out@ =~= lit("{\"channelId\":"));
        push_json_str(&mut out, self.channel_id.as_str());
        push_lit(&mut out, ",\"kinds\":");
        push_json_array(&mut out, &self.kinds);
        assert(views(self.kinds@) =~= self.kinds@);
        push_lit(&mut out, ",\"countBefore\":");
        push_json_uint(&mut out, self.count_before);
        push_lit(&mut out, ",\"retrieved\":");
        push_json_uint(&mut out, self.retrieved);
        push_lit(&mut out, ",\"countAfter\":");
        push_json_uint(&mut out, self.count_after);
        push_lit(&mut out, ",\"signatureFailures\":");
        push_json_uint(&mut out, self.signature_failures);
        push_lit(&mut out, ",\"unresolvedSources\":");
        push_json_uint(&mut out, self.unresolved_sources);
        push_lit(&mut out, "}");
        buf.append(&mut out);
    }
}

impl Validate for CoverageLane {
    open spec fn first_fault(v: CoverageLaneV) -> Option<Fault> {
        lane_fault(v)
    }

    fn validate(&self) -> (r: Result<(), CoreError>) {
        require_non_empty("coverage.lane.channelId", self.channel_id.as_str())?;
        if self.kinds.len() == 0 {
            return Err(invalid("coverage.lane.kinds", "must not be empty"));
        }
        let r = require_sorted_unique("coverage.lane.kinds", self.kinds.as_slice());
        assert(views(self.kinds@) =~= self.kinds@);
        r
    }
}

/// A half-open interval of Unix seconds: `since` inclusive, `until` exclusive.
#[derive(Debug, Clone, Copy, PartialEq, Eq, Structural)]
pub struct TemporalWindow {
    pub since: i64,
    pub until: i64,
}

impl View for TemporalWindow {
    type V = TemporalWindow;

    open spec fn view(&self) -> TemporalWindow {
        *self
    }
}

/// The JSON of a window.
pub open spec fn window_json(w: TemporalWindow) -> Seq<u8> {
    lit("{\"since\":") + json_int(w.since as int) + lit(",\"until\":") + json_int(w.until as int)
        + lit("}")
}

/// The rule a window breaks, if any: it must not be empty.
pub open spec fn window_fault(w: TemporalWindow) -> Option<Fault> {
    if w.since >= w.until {
        Some(invalid_fault("window", "must be a non-empty half-open interval"))
    } else {
        None
    }
}

impl Validate for TemporalWindow {
    open spec fn first_fault(v: TemporalWindow) -> Option<Fault> {
        window_fault(v)
    }

    fn validate(&self) -> (r: Result<(), CoreError>) {
        if self.since >= self.until {
            return Err(invalid("window", "must be a non-empty half-open interval"));
        }
        Ok(())
    }
}

fn write_window(w: &TemporalWindow, buf: &mut Vec<u8>)
    ensures
        final(buf)@ == old(buf)@ + window_json(*w),
{
    let mut out: Vec<u8> = Vec::new();
    push_lit(&mut out, "{\"since\":");
    assert(out@ =~= lit("{\"since\":"));
    push_json_int(&mut out, w.since);
    push_lit(&mut out, ",\"until\":");
    push_json_int(&mut out, w.until);
    push_lit(&mut out, "}");
    buf.append(&mut out);
}

/// The self-attested coverage of one capture.
#[derive(Debug, Clone, PartialEq, Eq)]
pub struct CoverageRecord {
    pub status: CoverageStatus,
    pub requested_window: TemporalWindow,
    pub capture_started_at: i64,
    pub capture_completed_at: i64,
    pub lanes: Vec<CoverageLane>,
    pub gaps: Vec<CoverageGap>,
}

/// The content of a coverage record.
pub struct CoverageRecordV {
    pub status: CoverageStatus,
    pub requested_window: TemporalWindow,
    pub capture_started_at: i64,
    pub capture_completed_at: i64,
    pub lanes: Seq<CoverageLaneV>,
    pub gaps: Seq<CoverageGapV>,
}

impl View for CoverageRecord {
    type V = CoverageRecordV;

    open spec fn view(&self) -> CoverageRecordV {
        CoverageRecordV {
            status: self.status,
            requested_window: self.requested_window,
            capture_started_at: self.capture_started_at,
            capture_completed_at: self.capture_completed_at,
            lanes: views(self.lanes@),
            gaps: views(self.gaps@),
        }
    }
}

/// Complete coverage: a non-empty window that ended before capture began,
/// a capture that finished after it started, at least one lane, no gaps, and
/// every lane exact.
pub open spec fn complete_contract(c: CoverageRecordV) -> bool {
    &&& c.requested_window.since < c.requested_window.until
    &&& c.requested_window.until <= c.capture_started_at
    &&& c.capture_started_at <= c.capture_completed_at
    &&& c.lanes.len() > 0
    &&& c.gaps.len() == 0
    &&& forall|i: int| 0 <= i < c.lanes.len() ==> lane_exact(#[trigger] c.lanes[i])
}

/// A coverage record with normalized lanes, and lanes and gaps sorted and
/// deduplicated.
pub open spec fn normalized_coverage(c: CoverageRecordV) -> CoverageRecordV {
    CoverageRecordV {
        lanes: sort_dedup::<CoverageLane>(c.lanes.map_values(|l: CoverageLaneV| normalized_lane(l))),
        gaps: sort_dedup::<CoverageGap>(c.gaps),
        ..c
    }
}

/// The JSON of a coverage record.
pub open spec fn coverage_json(c: CoverageRecordV) -> Seq<u8> {
    lit("{\"status\":") + status_json(c.status) + lit(",\"requestedWindow\":") + window_json(
        c.requested_window,
    ) + lit(",\"captureStartedAt\":") + json_int(c.capture_started_at as int) + lit(
        ",\"captureCompletedAt\":",
    ) + json_int(c.capture_completed_at as int) + lit(",\"lanes\":") + json_array_of::<
        CoverageLane,
    >(c.lanes) + lit(",\"gaps\":") + json_array_of::<CoverageGap>(c.gaps) + lit("}")
}

/// The first rule a coverage record breaks, in check order.
pub open spec fn coverage_fault(c: CoverageRecordV) -> Option<Fault> {
    or_else(
        window_fault(c.requested_window),
        or_else(
            if c.capture_completed_at < c.capture_started_at {
                Some(invalid_fault("coverage.captureCompletedAt", "must not precede captureStartedAt"))
            } else {
                None
            },
            or_else(
                sorted_fault::<CoverageLane>("coverage.lanes", c.lanes),
                or_else(
                    sorted_fault::<CoverageGap>("coverage.gaps", c.gaps),
                    or_else(
                        first_fault_in::<CoverageLane>(c.lanes),
                        if c.status == CoverageStatus::Complete && !complete_contract(c) {
                            Some(
                                invalid_fault(
                                    "coverage.status",
                                    "complete coverage requires a bounded settled window, stable exact counts, valid signatures, resolved sources, and no gaps",
                                ),
                            )
                        } else {
                            None
                        },
                    ),
                ),
            ),
        ),
    )
}

impl CoverageRecord {
    /// Normalize every lane, then sort and deduplicate lanes and gaps.
    pub fn normalize(&mut self)
        ensures
            final(self)@ == normalized_coverage(old(self)@),
    {
        let mut lanes: Vec<CoverageLane> = Vec::new();
        std::mem::swap(&mut lanes, &mut self.lanes);
        let ghost orig = views(lanes@);
        let mut normalized: Vec<CoverageLane> = Vec::new();
        let mut k: usize = 0;
        let ghost total = lanes@.len();
        assert(total == lanes.len());
        while lanes.len() > 0
            invariant
                k + lanes@.len() == total,
                total <= usize::MAX,
                total == orig.len(),
                views(lanes@) == orig.skip(k as int),
                views(normalized@) == orig.take(k as int).map_values(
                    |l: CoverageLaneV| normalized_lane(l),
                ),
            decreases lanes@.len(),
        {
            let ghost before = lanes@;
            let mut lane = lanes.remove(0);
            proof {
                assert(views(before)[0] == lane@);
                assert(views(lanes@) =~= views(before).drop_first());
                assert(orig.skip(k as int).drop_first() =~= orig.skip(k + 1));
            }
            lane.normalize();
            let ghost prev = normalized@;
            normalized.push(lane);
            proof {
                assert(orig[k as int] == views(before)[0]);
                assert(views(normalized@) =~= views(prev).push(lane@));
                assert(orig.take(k + 1) =~= orig.take(k as int).push(orig[k as int]));
                assert(views(normalized@) =~= orig.take(k + 1).map_values(
                    |l: CoverageLaneV| normalized_lane(l),
                ));
            }
            k += 1;
        }
        assert(orig.take(k as int) =~= orig);
        self.lanes = sort_dedup_vec(normalized);
        let mut gaps: Vec<CoverageGap> = Vec::new();
        std::mem::swap(&mut gaps, &mut self.gaps);
        self.gaps = sort_dedup_vec(gaps);
    }

    /// Whether the record meets the contract for complete coverage.
    pub fn satisfies_complete_contract(&self) -> (r: bool)
        ensures
            r == complete_contract(self@),
    {
        if !(self.requested_window.since < self.requested_window.until
            && self.requested_window.until <= self.capture_started_at
            && self.capture_started_at <= self.capture_completed_at && self.lanes.len() > 0
            && self.gaps.len() == 0) {
            return false;
        }
        let n = self.lanes.len();
        let mut i: usize = 0;
        while i < n
            invariant
                n == self.lanes@.len(),
                i <= n,
                forall|k: int| 0 <= k < i ==> lane_exact(#[trigger] views(self.lanes@)[k]),
            decreases n - i,
        {
            if !self.lanes[i].is_exact() {
                assert(views(self.lanes@)[i as int] == self.lanes@[i as int]@);
                return false;
            }
            i += 1;
        }
        true
    }

    fn write_json_body(&self, buf: &mut Vec<u8>)
        ensures
            final(buf)@ == old(buf)@ + coverage_json(self@),
    {
        let mut out: Vec<u8> = Vec::new();
        push_lit(&mut out, "{\"status\":");
        assert(out@ =~= lit("{\"status\":"));
        match self.status {
            CoverageStatus::Complete => push_lit(&mut out, "\"complete\""),
            CoverageStatus::Partial => push_lit(&mut out, "\"partial\""),
            CoverageStatus::Stale => push_lit(&mut out, "\"stale\""),
            CoverageStatus::Failed => push_lit(&mut out, "\"failed\""),
        }
        push_lit(&mut out, ",\"requestedWindow\":");
        write_window(&self.requested_window, &mut out);
        push_lit(&mut out, ",\"captureStartedAt\":");
        push_json_int(&mut out, self.capture_started_at);
        push_lit(&mut out, ",\"captureCompletedAt\":");
        push_json_int(&mut out, self.capture_completed_at);
        push_lit(&mut out, ",\"lanes\":");
        push_json_array(&mut out, &self.lanes);
        push_lit(&mut out, ",\"gaps\":");
        push_json_array(&mut out, &self.gaps);
        push_lit(&mut out, "}");
        buf.append(&mut out);
    }
}

impl ToJson for CoverageRecord {
    open spec fn json_of(v: CoverageRecordV) -> Seq<u8> {
        coverage_json(v)
    }

    fn write_json(&self, buf: &mut Vec<u8>) {
        self.write_json_body(buf);
    }
}

impl Validate for CoverageRecord {
    open spec fn first_fault(v: CoverageRecordV) -> Option<Fault> {
        coverage_fault(v)
    }

    fn validate(&self) -> (r: Result<(), CoreError>) {
        self.requested_window.validate()?;
        if self.capture_completed_at < self.capture_started_at {
            return Err(invalid("coverage.captureCompletedAt", "must not precede captureStartedAt"));
        }
        require_sorted_unique("coverage.lanes", self.lanes.as_slice())?;
        require_sorted_unique("coverage.gaps", self.gaps.as_slice())?;
        validate_all(self.lanes.as_slice())?;
        if self.status == CoverageStatus::Complete && !self.satisfies_complete_contract() {
            return Err(
                invalid(
                    "coverage.status",
                    "complete coverage requires a bounded settled window, stable exact counts, valid signatures, resolved sources, and no gaps",
                ),
            );
        }
        Ok(())
    }
}

} // verus!
