//! The QoS sweep driver's bookkeeping: prior-record matching, reuse of
//! already-run points, the retry policy for the storage sub-benchmark and
//! the sanity check on the applied QoS.
use vstd::prelude::*;
use crate::qos::IoCostQoSOvr;
use crate::types::{BenchKnobs, IoCostModelParams, IoCostQoSParams};

verus! {

/// What the storage sub-benchmark recorded of memory.
#[derive(Clone, Copy, Debug, PartialEq, Eq, Structural)]
pub struct StorageMemInfo {
    pub profile: u32,
    pub share: u64,
}

#[derive(Clone, Copy, Debug, PartialEq, Eq, Structural)]
pub struct StorageRecord {
    pub mem: StorageMemInfo,
}

/// What studying a storage record yields; the offload factor is in
/// thousandths.
#[derive(Clone, Copy, Debug, PartialEq, Eq, Structural)]
pub struct StorageResult {
    pub mem_size: u64,
    pub mem_usage: u64,
    pub mem_offload_factor: u64,
}

/// The memory-hog tuning scenario of the protection sub-benchmark.
#[derive(Clone, Copy, Debug, PartialEq, Eq, Structural)]
pub struct MemHogTuneRec {
    pub size_min: u64,
    pub size_max: u64,
    pub final_size: Option<u64>,
}

/// A protection record; empty when the protection benchmark failed (a
/// non-fatal outcome).
#[derive(Clone, Copy, Debug, PartialEq, Eq, Structural)]
pub struct ProtectionRecord {
    pub tune: Option<MemHogTuneRec>,
}

/// One finished sweep point.
#[derive(Clone, Copy, Debug)]
pub struct IoCostQoSRecordRun {
    pub period_start: u64,
    pub period_end: u64,
    pub ovr: IoCostQoSOvr,
    pub qos: Option<IoCostQoSParams>,
    pub stor: StorageRecord,
    pub prot: ProtectionRecord,
}

/// A sweep's record: the base knobs it ran against, the finished points
/// in plan order, and the incremental points of an interrupted run.
pub struct IoCostQoSRecord {
    pub base_model: IoCostModelParams,
    pub base_qos: IoCostQoSParams,
    pub mem_profile: u32,
    pub runs: Vec<Option<IoCostQoSRecordRun>>,
    pub dither_dist: Option<i64>,
    pub inc_runs: Vec<IoCostQoSRecordRun>,
}

/// A finished point holds an applied QoS exactly when its override left
/// QoS on, and then the applied QoS is the base with the override folded
/// in.
pub open spec fn record_run_wf(rr: IoCostQoSRecordRun, base: IoCostQoSParams) -> bool {
    rr.qos == crate::qos::spec_qos_compose(base, rr.ovr)
}

/// Builds the record of one finished point: the applied QoS is kept only
/// for points that ran with QoS on.
pub fn build_record_run(
    period_start: u64,
    period_end: u64,
    ovr: &IoCostQoSOvr,
    applied: &IoCostQoSParams,
    stor: &StorageRecord,
    prot: &ProtectionRecord,
) -> (rr: IoCostQoSRecordRun)
    ensures
        rr.period_start == period_start,
        rr.period_end == period_end,
        rr.ovr == *ovr,
        rr.stor == *stor,
        rr.prot == *prot,
        rr.qos == (if ovr.off {
            None::<IoCostQoSParams>
        } else {
            Some(*applied)
        }),
{
    IoCostQoSRecordRun {
        period_start,
        period_end,
        ovr: *ovr,
        qos: if ovr.off {
            None
        } else {
            Some(*applied)
        },
        stor: *stor,
        prot: *prot,
    }
}

/// The base record a prior sweep is identified by: its first finished
/// point, or its first incremental point.
pub open spec fn spec_base_rec(rec: &IoCostQoSRecord) -> Option<IoCostQoSRecordRun> {
    if rec.runs@.len() > 0 && rec.runs@[0] is Some {
        rec.runs@[0]
    } else if rec.inc_runs@.len() > 0 {
        Some(rec.inc_runs@[0])
    } else {
        None
    }
}

/// Whether a prior record was produced under the current configuration:
/// same base model and QoS bit for bit, and the same memory profile.
pub open spec fn spec_prev_matches(
    rec: &IoCostQoSRecord,
    mem_profile: u32,
    bench: &BenchKnobs,
) -> bool {
    match spec_base_rec(rec) {
        None => false,
        Some(base_rec) => rec.base_model == bench.iocost.model && rec.base_qos == bench.iocost.qos
            && mem_profile == base_rec.stor.mem.profile,
    }
}

impl IoCostQoSRecord {
    /// Decides whether this prior record may seed the current sweep.
    pub fn prev_matches(&self, mem_profile: u32, bench: &BenchKnobs) -> (r: bool)
        ensures
            r == spec_prev_matches(self, mem_profile, bench),
    {
        let base_rec: &IoCostQoSRecordRun = if self.runs.len() > 0 && self.runs[0].is_some() {
            match &self.runs[0] {
                Some(rr) => rr,
                None => {
                    return false;
                },
            }
        } else if self.inc_runs.len() > 0 {
            &self.inc_runs[0]
        } else {
            return false;
        };
        if !(self.base_model == bench.iocost.model && self.base_qos == bench.iocost.qos) {
            return false;
        }
        if mem_profile != base_rec.stor.mem.profile {
            return false;
        }
        true
    }
}

/// The first finished point with this override among the prior record's
/// runs, scanning the plan-ordered points first.
pub open spec fn spec_find_in_opts(
    s: Seq<Option<IoCostQoSRecordRun>>,
    ovr: IoCostQoSOvr,
) -> Option<IoCostQoSRecordRun>
    decreases s.len(),
{
    if s.len() == 0 {
        None
    } else if s[0] is Some && s[0]->0.ovr == ovr {
        s[0]
    } else {
        spec_find_in_opts(s.skip(1), ovr)
    }
}

pub open spec fn spec_find_in_runs(
    s: Seq<IoCostQoSRecordRun>,
    ovr: IoCostQoSOvr,
) -> Option<IoCostQoSRecordRun>
    decreases s.len(),
{
    if s.len() == 0 {
        None
    } else if s[0].ovr == ovr {
        Some(s[0])
    } else {
        spec_find_in_runs(s.skip(1), ovr)
    }
}

pub open spec fn spec_find_matching(rec: &IoCostQoSRecord, ovr: IoCostQoSOvr) -> Option<
    IoCostQoSRecordRun,
> {
    match spec_find_in_opts(rec.runs@, ovr) {
        Some(rr) => Some(rr),
        None => spec_find_in_runs(rec.inc_runs@, ovr),
    }
}

/// Finds a finished point of the prior record (including incremental
/// points of an interrupted run) that ran with exactly this override.
pub fn find_matching_rec_run(ovr: &IoCostQoSOvr, prev_rec: &IoCostQoSRecord) -> (r: Option<
    IoCostQoSRecordRun,
>)
    ensures
        r == spec_find_matching(prev_rec, *ovr),
{
    proof {
        assert(prev_rec.runs@.skip(0) =~= prev_rec.runs@);
        assert(prev_rec.inc_runs@.skip(0) =~= prev_rec.inc_runs@);
    }
    let mut i: usize = 0;
    while i < prev_rec.runs.len()
        invariant
            i <= prev_rec.runs@.len(),
            spec_find_in_opts(prev_rec.runs@, *ovr) == spec_find_in_opts(
                prev_rec.runs@.skip(i as int),
                *ovr,
            ),
        decreases prev_rec.runs@.len() - i,
    {
        proof {
            assert(prev_rec.runs@.skip(i as int)[0] == prev_rec.runs@[i as int]);
            assert(prev_rec.runs@.skip(i as int).skip(1) =~= prev_rec.runs@.skip(i as int + 1));
        }
        match &prev_rec.runs[i] {
            Some(rr) => {
                if rr.ovr == *ovr {
                    return Some(*rr);
                }
            },
            None => {},
        }
        i = i + 1;
    }
    proof {
        assert(prev_rec.runs@.skip(prev_rec.runs@.len() as int).len() == 0);
    }
    let mut j: usize = 0;
    while j < prev_rec.inc_runs.len()
        invariant
            j <= prev_rec.inc_runs@.len(),
            spec_find_in_opts(prev_rec.runs@, *ovr) is None,
            spec_find_in_runs(prev_rec.inc_runs@, *ovr) == spec_find_in_runs(
                prev_rec.inc_runs@.skip(j as int),
                *ovr,
            ),
        decreases prev_rec.inc_runs@.len() - j,
    {
        proof {
            assert(prev_rec.inc_runs@.skip(j as int)[0] == prev_rec.inc_runs@[j as int]);
            assert(prev_rec.inc_runs@.skip(j as int).skip(1) =~= prev_rec.inc_runs@.skip(
                j as int + 1,
            ));
        }
        if prev_rec.inc_runs[j].ovr == *ovr {
            return Some(prev_rec.inc_runs[j]);
        }
        j = j + 1;
    }
    proof {
        assert(prev_rec.inc_runs@.skip(prev_rec.inc_runs@.len() as int).len() == 0);
    }
    None
}

/// What the sweep does with one planned point.
#[derive(Clone, Copy, Debug, PartialEq, Eq, Structural)]
pub enum RunDisposition {
    /// a matching prior point exists: reuse it
    Reuse,
    /// marked skip and nothing to reuse: record an empty slot
    Skip,
    /// run the benchmarks
    Run,
}

pub open spec fn spec_disposition(rec: &IoCostQoSRecord, ovr: IoCostQoSOvr) -> RunDisposition {
    if spec_find_matching(rec, ovr) is Some {
        RunDisposition::Reuse
    } else if ovr.skip {
        RunDisposition::Skip
    } else {
        RunDisposition::Run
    }
}

pub open spec fn spec_count_runs(rec: &IoCostQoSRecord, ovrs: Seq<IoCostQoSOvr>) -> int
    decreases ovrs.len(),
{
    if ovrs.len() == 0 {
        0
    } else {
        spec_count_runs(rec, ovrs.drop_last()) + if spec_disposition(rec, ovrs.last()) is Run {
            1int
        } else {
            0int
        }
    }
}

/// Decides, for every planned point, whether it is reused, skipped or
/// run, and how many must run.
pub fn plan_dispositions(runs: &Vec<IoCostQoSOvr>, prev_rec: &IoCostQoSRecord) -> (r: (
    Vec<RunDisposition>,
    usize,
))
    ensures
        r.0@.len() == runs@.len(),
        forall|i: int|
            0 <= i < runs@.len() ==> #[trigger] r.0@[i] == spec_disposition(prev_rec, runs@[i]),
        r.1 as int == spec_count_runs(prev_rec, runs@),
{
    let mut out: Vec<RunDisposition> = Vec::new();
    let mut nr_to_run: usize = 0;
    let mut i: usize = 0;
    while i < runs.len()
        invariant
            i <= runs@.len(),
            out@.len() == i,
            nr_to_run <= i,
            forall|j: int|
                0 <= j < i ==> #[trigger] out@[j] == spec_disposition(prev_rec, runs@[j]),
            nr_to_run as int == spec_count_runs(prev_rec, runs@.take(i as int)),
        decreases runs@.len() - i,
    {
        let d = if find_matching_rec_run(&runs[i], prev_rec).is_some() {
            RunDisposition::Reuse
        } else if runs[i].skip {
            RunDisposition::Skip
        } else {
            nr_to_run = nr_to_run + 1;
            RunDisposition::Run
        };
        out.push(d);
        i = i + 1;
        proof {
            assert(runs@.take(i as int).drop_last() =~= runs@.take(i - 1));
            assert(runs@.take(i as int).last() == runs@[i - 1]);
        }
    }
    proof {
        assert(runs@.take(runs@.len() as int) =~= runs@);
    }
    (out, nr_to_run)
}

/// Why a sweep cannot proceed.
#[derive(Clone, Copy, Debug, PartialEq, Eq, Structural)]
pub enum SweepError {
    /// points must run but the existing result was produced under a
    /// different configuration
    PrevMismatch,
    /// the applied QoS did not equal the composed target
    QoSDivergence,
    /// the storage benchmark exhausted its retries
    StorageFailed,
}

/// Whether the sweep may proceed: either nothing needs to run, or the
/// prior record matches, or every point runs afresh (so the stale record
/// is wholly replaced).
pub fn sweep_gate(nr_to_run: usize, prev_ok: bool, total: usize) -> (r: Result<(), SweepError>)
    ensures
        r is Ok <==> (nr_to_run == 0 || prev_ok || nr_to_run == total),
        r is Err ==> r->Err_0 is PrevMismatch,
{
    if nr_to_run == 0 || prev_ok || nr_to_run == total {
        Ok(())
    } else {
        Err(SweepError::PrevMismatch)
    }
}

/// The post-run sanity check: a point that ran with QoS on must show
/// exactly the composed target; divergence means the supervisor failed to
/// apply the configuration and is a hard error.
pub fn check_result_qos(
    got: &Option<IoCostQoSParams>,
    target: &Option<IoCostQoSParams>,
) -> (r: Result<(), SweepError>)
    ensures
        r is Ok <==> (got is None || got == target),
        r is Err ==> r->Err_0 is QoSDivergence,
{
    match got {
        None => Ok(()),
        Some(g) => {
            match target {
                Some(t) => {
                    if *g == *t {
                        Ok(())
                    } else {
                        Err(SweepError::QoSDivergence)
                    }
                },
                None => Err(SweepError::QoSDivergence),
            }
        },
    }
}

/// What the storage retry loop does after a failed attempt.
#[derive(Clone, Copy, Debug, PartialEq, Eq, Structural)]
pub enum RetryStep {
    Retry,
    GiveUp,
}

/// After `tries` failed attempts with a budget of `nr_retries` extra
/// attempts: retry until the budget is spent, and never while the program
/// is exiting.
pub fn storage_retry_step(tries: u32, nr_retries: u32, exiting: bool) -> (r: RetryStep)
    ensures
        r == (if exiting || tries > nr_retries {
            RetryStep::GiveUp
        } else {
            RetryStep::Retry
        }),
{
    if exiting || tries > nr_retries {
        RetryStep::GiveUp
    } else {
        RetryStep::Retry
    }
}

/// The size range handed to the protection benchmark: from a bit below
/// the storage benchmark's memory share (four fifths of it) up to the
/// storage-probed size.
pub fn prot_size_range(stor_rec: &StorageRecord, stor_res: &StorageResult) -> (r: (u64, u64))
    ensures
        r.0 as int == stor_rec.mem.share as int * 4 / 5,
        r.1 == stor_res.mem_size,
{
    proof {
        assert(stor_rec.mem.share as int * 4 / 5 <= stor_rec.mem.share as int && stor_rec
            .mem
            .share as int * 4 / 5 >= 0) by (nonlinear_arith);
    }
    (((stor_rec.mem.share as u128) * 4 / 5) as u64, stor_res.mem_size)
}

/// How many extra attempts each storage run of the base point gets.
pub fn stor_loops_for(i: usize, stor_base_loops: u32, stor_loops: u32) -> (r: u32)
    ensures
        r == (if i == 0 {
            stor_base_loops
        } else {
            stor_loops
        }),
{
    if i == 0 {
        stor_base_loops
    } else {
        stor_loops
    }
}

impl IoCostQoSRecord {
    /// Appends a freshly finished point to the incremental list, which
    /// the caller persists before moving on, so an interrupted sweep can
    /// reuse the point.
    pub fn append_inc_run(&mut self, recr: IoCostQoSRecordRun)
        ensures
            final(self).inc_runs@ == old(self).inc_runs@.push(recr),
            final(self).runs@ == old(self).runs@,
            final(self).base_model == old(self).base_model,
            final(self).base_qos == old(self).base_qos,
            final(self).mem_profile == old(self).mem_profile,
            final(self).dither_dist == old(self).dither_dist,
    {
        self.inc_runs.push(recr);
    }

    /// Closes the sweep: the finished points are padded with empty slots
    /// up to the planned count (points abandoned under allow-fail), and
    /// the incremental list is cleared.
    pub fn finalize(&mut self, planned: usize)
        requires
            old(self).runs@.len() <= planned,
        ensures
            final(self).runs@.len() == planned,
            forall|i: int|
                0 <= i < old(self).runs@.len() ==> #[trigger] final(self).runs@[i] == old(
                    self,
                ).runs@[i],
            forall|i: int|
                old(self).runs@.len() <= i < planned ==> (#[trigger] final(self).runs@[i])
                    is None,
            final(self).inc_runs@.len() == 0,
            final(self).base_model == old(self).base_model,
            final(self).base_qos == old(self).base_qos,
            final(self).mem_profile == old(self).mem_profile,
            final(self).dither_dist == old(self).dither_dist,
    {
        while self.runs.len() < planned
            invariant
                self.runs@.len() <= planned,
                forall|i: int|
                    0 <= i < old(self).runs@.len() ==> #[trigger] self.runs@[i] == old(
                        self,
                    ).runs@[i],
                forall|i: int|
                    old(self).runs@.len() <= i < self.runs@.len() ==> (
                    #[trigger] self.runs@[i]) is None,
                old(self).runs@.len() <= self.runs@.len(),
                self.inc_runs@ == old(self).inc_runs@,
                self.base_model == old(self).base_model,
                self.base_qos == old(self).base_qos,
                self.mem_profile == old(self).mem_profile,
                self.dither_dist == old(self).dither_dist,
            decreases planned - self.runs@.len(),
        {
            self.runs.push(None);
        }
        self.inc_runs = Vec::new();
        proof {
            assert(self.inc_runs@ =~= Seq::<IoCostQoSRecordRun>::empty());
        }
    }
}

/// What the sweep does after a point has exhausted its retries.
#[derive(Clone, Copy, Debug, PartialEq, Eq, Structural)]
pub enum FailDisposition {
    /// record an empty slot and go on to the next point
    RecordSkip,
    /// the failure ends the sweep
    Abort,
}

/// A failed point is recorded as a skipped slot and the sweep proceeds
/// exactly when failures are allowed and the program is not exiting;
/// otherwise the sweep aborts.
pub fn after_point_failure(allow_fail: bool, exiting: bool) -> (r: FailDisposition)
    ensures
        (r is RecordSkip) <==> (allow_fail && !exiting),
{
    if allow_fail && !exiting {
        FailDisposition::RecordSkip
    } else {
        FailDisposition::Abort
    }
}

} // verus!
