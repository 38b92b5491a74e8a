//! The report aggregator: per-second samples are accumulated, and on each
//! interval boundary a summary is emitted whose per-metric values are the
//! arithmetic mean of the contributing samples. Emitted files are named
//! `{bucket}.json` with the bucket aligned to the interval, and files
//! older than the retention horizon are scheduled for deletion.
use vstd::prelude::*;
use crate::num::{all_digits, dec_digits, dec_value, lemma_dec_digits_value, parse_u64};
use crate::statmap::{
    acc_slice_stat_map, acc_stat_map, div_slice_stat_map, div_stat_map, lemma_stat_get_divided,
    sat_add, slice_wf, spec_div_opt, spec_merged, spec_slice_merged, spec_slice_val, stat_get,
    stat_wf,
};

verus! {

/// The plain sum of a sample history.
pub open spec fn spec_sum(s: Seq<u64>) -> nat
    decreases s.len(),
{
    if s.len() == 0 {
        0
    } else {
        spec_sum(s.drop_last()) + s.last() as nat
    }
}

/// The sum as the accumulator computes it: saturating at each step.
pub open spec fn spec_sat_sum(s: Seq<u64>) -> nat
    decreases s.len(),
{
    if s.len() == 0 {
        0
    } else {
        sat_add(spec_sat_sum(s.drop_last()), s.last() as nat)
    }
}

/// The saturating sum never exceeds the plain sum, and equals it whenever
/// the plain sum fits in a `u64`.
pub proof fn lemma_sat_sum_exact(s: Seq<u64>)
    ensures
        spec_sat_sum(s) <= spec_sum(s),
        spec_sum(s) <= u64::MAX ==> spec_sat_sum(s) == spec_sum(s),
    decreases s.len(),
{
    if s.len() > 0 {
        lemma_sat_sum_exact(s.drop_last());
    }
}

/// One metric's accumulator: the running (saturating) sum, the sample
/// count, and the history it stands for.
pub struct MeanAcc {
    pub sum: u64,
    pub n: u64,
    pub hist: Ghost<Seq<u64>>,
}

/// `after` is `before` with one sample `v` taken in.
pub open spec fn mean_acc_pushed(before: MeanAcc, after: MeanAcc, v: u64) -> bool {
    &&& after.n == before.n + 1
    &&& after.hist@ == before.hist@.push(v)
    &&& after.sum as nat == sat_add(before.sum as nat, v as nat)
}

impl MeanAcc {
    /// The sum and count track the history.
    pub open spec fn wf(&self) -> bool {
        &&& self.n == self.hist@.len()
        &&& self.sum as nat == spec_sat_sum(self.hist@)
    }

    pub fn zero() -> (r: MeanAcc)
        ensures
            r.wf(),
            r.n == 0,
            r.hist@ =~= Seq::<u64>::empty(),
    {
        MeanAcc { sum: 0, n: 0, hist: Ghost(Seq::empty()) }
    }

    /// Takes one sample in.
    pub fn push(&mut self, v: u64)
        requires
            old(self).wf(),
            old(self).n < u64::MAX,
        ensures
            final(self).wf(),
            mean_acc_pushed(*old(self), *final(self), v),
    {
        proof {
            assert(old(self).hist@.push(v).drop_last() =~= old(self).hist@);
        }
        self.sum = self.sum.saturating_add(v);
        self.n = self.n + 1;
        self.hist = Ghost(self.hist@.push(v));
    }

    /// The averaged value this accumulator reports.
    pub fn mean(&self) -> (r: u64)
        requires
            self.wf(),
            self.n > 0,
        ensures
            r as nat == spec_sat_sum(self.hist@) / self.n as nat,
    {
        self.sum / self.n
    }
}

/// Given a history whose plain sum fits the machine, the reported average
/// is exactly the arithmetic mean of the contributing samples, rounded
/// down.
pub proof fn lemma_mean_is_arithmetic_mean(acc: MeanAcc)
    requires
        acc.wf(),
        acc.n > 0,
        spec_sum(acc.hist@) <= u64::MAX,
    ensures
        acc.sum as nat == spec_sum(acc.hist@),
        acc.sum as nat / acc.n as nat == spec_sum(acc.hist@) / acc.hist@.len(),
{
    lemma_sat_sum_exact(acc.hist@);
}

/// One reference-workload instance's metrics in a per-second report.
/// Rates and loads are in thousandths, latencies in microseconds.
pub struct HashdReport {
    pub svc_name: String,
    pub phase: u32,
    pub rps: u64,
    pub load: u64,
    pub lat_p50: u64,
    pub lat_p90: u64,
    pub lat_p99: u64,
}

/// The accumulator for one instance.
pub struct HashdAcc {
    pub rps: MeanAcc,
    pub load: MeanAcc,
    pub lat_p50: MeanAcc,
    pub lat_p90: MeanAcc,
    pub lat_p99: MeanAcc,
}

pub open spec fn hashd_acc_wf(a: &HashdAcc, n: u64) -> bool {
    &&& a.rps.wf() && a.rps.n == n
    &&& a.load.wf() && a.load.n == n
    &&& a.lat_p50.wf() && a.lat_p50.n == n
    &&& a.lat_p90.wf() && a.lat_p90.n == n
    &&& a.lat_p99.wf() && a.lat_p99.n == n
}

pub open spec fn hashd_acc_pushed(before: &HashdAcc, after: &HashdAcc, rep: &HashdReport) -> bool {
    &&& mean_acc_pushed(before.rps, after.rps, rep.rps)
    &&& mean_acc_pushed(before.load, after.load, rep.load)
    &&& mean_acc_pushed(before.lat_p50, after.lat_p50, rep.lat_p50)
    &&& mean_acc_pushed(before.lat_p90, after.lat_p90, rep.lat_p90)
    &&& mean_acc_pushed(before.lat_p99, after.lat_p99, rep.lat_p99)
}

/// The summary an accumulator yields: every metric averaged, the identity
/// fields (service name, phase) taken from the latest sample.
pub open spec fn hashd_summary_ok(
    acc: &HashdAcc,
    last: &HashdReport,
    out: &HashdReport,
) -> bool {
    &&& out.svc_name@ == last.svc_name@
    &&& out.phase == last.phase
    &&& out.rps as nat == spec_sat_sum(acc.rps.hist@) / acc.rps.n as nat
    &&& out.load as nat == spec_sat_sum(acc.load.hist@) / acc.load.n as nat
    &&& out.lat_p50 as nat == spec_sat_sum(acc.lat_p50.hist@) / acc.lat_p50.n as nat
    &&& out.lat_p90 as nat == spec_sat_sum(acc.lat_p90.hist@) / acc.lat_p90.n as nat
    &&& out.lat_p99 as nat == spec_sat_sum(acc.lat_p99.hist@) / acc.lat_p99.n as nat
}

impl HashdAcc {
    fn zero() -> (r: HashdAcc)
        ensures
            hashd_acc_wf(&r, 0),
    {
        HashdAcc {
            rps: MeanAcc::zero(),
            load: MeanAcc::zero(),
            lat_p50: MeanAcc::zero(),
            lat_p90: MeanAcc::zero(),
            lat_p99: MeanAcc::zero(),
        }
    }

    fn push(&mut self, rep: &HashdReport, n: u64)
        requires
            hashd_acc_wf(old(self), n),
            n < u64::MAX,
        ensures
            hashd_acc_wf(final(self), (n + 1) as u64),
            hashd_acc_pushed(old(self), final(self), rep),
    {
        self.rps.push(rep.rps);
        self.load.push(rep.load);
        self.lat_p50.push(rep.lat_p50);
        self.lat_p90.push(rep.lat_p90);
        self.lat_p99.push(rep.lat_p99);
    }

    fn summarize(&self, last: &HashdReport, n: u64) -> (out: HashdReport)
        requires
            hashd_acc_wf(self, n),
            n > 0,
        ensures
            hashd_summary_ok(self, last, &out),
    {
        HashdReport {
            svc_name: copy_string(&last.svc_name),
            phase: last.phase,
            rps: self.rps.mean(),
            load: self.load.mean(),
            lat_p50: self.lat_p50.mean(),
            lat_p90: self.lat_p90.mean(),
            lat_p99: self.lat_p99.mean(),
        }
    }
}

fn copy_string(s: &String) -> (r: String)
    ensures
        r@ == s@,
{
    String::from_str(s.as_str())
}

/// IO-latency histograms keyed by percentile, one map per request class.
pub struct IoLatSet {
    pub read: Vec<(String, u64)>,
    pub write: Vec<(String, u64)>,
    pub discard: Vec<(String, u64)>,
    pub flush: Vec<(String, u64)>,
}

pub open spec fn iolat_wf(s: &IoLatSet) -> bool {
    stat_wf(s.read@) && stat_wf(s.write@) && stat_wf(s.discard@) && stat_wf(s.flush@)
}

impl IoLatSet {
    pub fn empty() -> (r: IoLatSet)
        ensures
            iolat_wf(&r),
            r.read@.len() == 0 && r.write@.len() == 0 && r.discard@.len() == 0 && r.flush@.len()
                == 0,
    {
        IoLatSet { read: Vec::new(), write: Vec::new(), discard: Vec::new(), flush: Vec::new() }
    }
}

/// What the aggregator consumes of each per-second base report.
pub struct ReportSample {
    pub hashd: [HashdReport; 2],
    pub mem_stat: Vec<(String, Vec<(String, u64)>)>,
    pub io_stat: Vec<(String, Vec<(String, u64)>)>,
    pub vmstat: Vec<(String, u64)>,
    pub iolat: IoLatSet,
    /// IO-cost vrate in thousandths
    pub vrate: u64,
}

pub open spec fn sample_wf(s: &ReportSample) -> bool {
    &&& slice_wf(s.mem_stat@)
    &&& slice_wf(s.io_stat@)
    &&& stat_wf(s.vmstat@)
    &&& iolat_wf(&s.iolat)
}

/// A summary ready to be written to `{bucket}.json`.
pub struct EmittedSummary {
    pub bucket: u64,
    pub file_name: String,
    pub hashd: [HashdReport; 2],
    pub mem_stat: Vec<(String, Vec<(String, u64)>)>,
    pub io_stat: Vec<(String, Vec<(String, u64)>)>,
    pub vmstat: Vec<(String, u64)>,
    pub iolat: IoLatSet,
    pub vrate_mean: u64,
    pub nr_samples: u64,
    /// delete `{stamp}.json` for `delete_lo <= stamp < delete_hi`
    pub delete_lo: u64,
    pub delete_hi: u64,
}

/// One aggregation instance: the one-second file or the one-minute file.
pub struct ReportFile {
    pub intv: u64,
    pub retention: Option<u64>,
    pub next_at: u64,
    pub hashd_acc0: HashdAcc,
    pub hashd_acc1: HashdAcc,
    pub mem_stat_acc: Vec<(String, Vec<(String, u64)>)>,
    pub io_stat_acc: Vec<(String, Vec<(String, u64)>)>,
    pub vmstat_acc: Vec<(String, u64)>,
    pub iolat_acc: IoLatSet,
    pub vrate_acc: MeanAcc,
    pub nr_samples: u64,
}

impl ReportFile {
    pub open spec fn wf(&self) -> bool {
        &&& self.intv > 0
        &&& self.next_at >= self.intv
        &&& self.next_at as int % self.intv as int == 0
        &&& hashd_acc_wf(&self.hashd_acc0, self.nr_samples)
        &&& hashd_acc_wf(&self.hashd_acc1, self.nr_samples)
        &&& slice_wf(self.mem_stat_acc@)
        &&& slice_wf(self.io_stat_acc@)
        &&& stat_wf(self.vmstat_acc@)
        &&& iolat_wf(&self.iolat_acc)
        &&& self.vrate_acc.wf()
        &&& self.vrate_acc.n == self.nr_samples
    }

    /// A fresh aggregator: the first boundary is the next multiple of the
    /// interval strictly after `now`.
    pub fn new(intv: u64, retention: Option<u64>, now: u64) -> (r: ReportFile)
        requires
            intv > 0,
            now <= u64::MAX - intv,
        ensures
            r.wf(),
            r.intv == intv,
            r.retention == retention,
            r.nr_samples == 0,
            r.next_at == ((now as int / intv as int) + 1) * intv as int,
            r.next_at > now,
    {
        let next_at = compute_next_at(now, intv);
        ReportFile {
            intv,
            retention,
            next_at,
            hashd_acc0: HashdAcc::zero(),
            hashd_acc1: HashdAcc::zero(),
            mem_stat_acc: Vec::new(),
            io_stat_acc: Vec::new(),
            vmstat_acc: Vec::new(),
            iolat_acc: IoLatSet::empty(),
            vrate_acc: MeanAcc::zero(),
            nr_samples: 0,
        }
    }

    /// Accumulates one sample; on an interval boundary, emits the summary
    /// and resets. The summary's bucket stamp is aligned to the interval,
    /// the file name is the stamp in decimal with a `.json` suffix, and
    /// the boundary before the emission never exceeds the sample time,
    /// which the boundary after it strictly exceeds.
    pub fn tick(&mut self, s: &ReportSample, now: u64) -> (out: Option<EmittedSummary>)
        requires
            old(self).wf(),
            sample_wf(s),
            old(self).nr_samples < u64::MAX,
            now <= u64::MAX - old(self).intv,
        ensures
            final(self).wf(),
            final(self).intv == old(self).intv,
            final(self).retention == old(self).retention,
            (out is Some) == (now >= old(self).next_at),
            out is None ==> {
                &&& final(self).next_at == old(self).next_at
                &&& final(self).nr_samples == old(self).nr_samples + 1
                &&& hashd_acc_pushed(&old(self).hashd_acc0, &final(self).hashd_acc0, &s.hashd[0])
                &&& hashd_acc_pushed(&old(self).hashd_acc1, &final(self).hashd_acc1, &s.hashd[1])
                &&& mean_acc_pushed(old(self).vrate_acc, final(self).vrate_acc, s.vrate)
                &&& (forall|k: Seq<char>|
                    #[trigger] stat_get(final(self).vmstat_acc@, k) == spec_merged(
                        old(self).vmstat_acc@,
                        s.vmstat@,
                        k,
                    ))
                &&& (forall|k: Seq<char>|
                    #[trigger] stat_get(final(self).iolat_acc.read@, k) == spec_merged(
                        old(self).iolat_acc.read@,
                        s.iolat.read@,
                        k,
                    ))
                &&& (forall|k: Seq<char>|
                    #[trigger] stat_get(final(self).iolat_acc.write@, k) == spec_merged(
                        old(self).iolat_acc.write@,
                        s.iolat.write@,
                        k,
                    ))
                &&& (forall|k: Seq<char>|
                    #[trigger] stat_get(final(self).iolat_acc.discard@, k) == spec_merged(
                        old(self).iolat_acc.discard@,
                        s.iolat.discard@,
                        k,
                    ))
                &&& (forall|k: Seq<char>|
                    #[trigger] stat_get(final(self).iolat_acc.flush@, k) == spec_merged(
                        old(self).iolat_acc.flush@,
                        s.iolat.flush@,
                        k,
                    ))
                &&& (forall|name: Seq<char>, k: Seq<char>|
                    #[trigger] spec_slice_val(final(self).mem_stat_acc@, name, k)
                        == spec_slice_merged(old(self).mem_stat_acc@, s.mem_stat@, name, k))
                &&& (forall|name: Seq<char>, k: Seq<char>|
                    #[trigger] spec_slice_val(final(self).io_stat_acc@, name, k)
                        == spec_slice_merged(old(self).io_stat_acc@, s.io_stat@, name, k))
            },
            out is Some ==> {
                let e = out->0;
                let n1 = (old(self).nr_samples + 1) as u64;
                &&& e.bucket as int == (now as int / old(self).intv as int) * old(self).intv as int
                &&& e.bucket as int % old(self).intv as int == 0
                &&& e.file_name@ == dec_digits(e.bucket as nat) + ".json"@
                &&& old(self).next_at <= now < final(self).next_at
                &&& final(self).next_at as int == ((now as int / old(self).intv as int) + 1) * old(
                    self,
                ).intv as int
                &&& e.nr_samples == n1
                &&& hashd_summary_ok_vals(&old(self).hashd_acc0, &s.hashd[0], &e.hashd[0], n1)
                &&& hashd_summary_ok_vals(&old(self).hashd_acc1, &s.hashd[1], &e.hashd[1], n1)
                &&& e.vrate_mean as nat == sat_add(
                    old(self).vrate_acc.sum as nat,
                    s.vrate as nat,
                ) / n1 as nat
                &&& (forall|k: Seq<char>|
                    #[trigger] stat_get(e.vmstat@, k) == spec_div_opt(
                        spec_merged(old(self).vmstat_acc@, s.vmstat@, k),
                        n1,
                    ))
                &&& (forall|k: Seq<char>|
                    #[trigger] stat_get(e.iolat.read@, k) == spec_merged(
                        old(self).iolat_acc.read@,
                        s.iolat.read@,
                        k,
                    ))
                &&& (forall|k: Seq<char>|
                    #[trigger] stat_get(e.iolat.write@, k) == spec_merged(
                        old(self).iolat_acc.write@,
                        s.iolat.write@,
                        k,
                    ))
                &&& (forall|k: Seq<char>|
                    #[trigger] stat_get(e.iolat.discard@, k) == spec_merged(
                        old(self).iolat_acc.discard@,
                        s.iolat.discard@,
                        k,
                    ))
                &&& (forall|k: Seq<char>|
                    #[trigger] stat_get(e.iolat.flush@, k) == spec_merged(
                        old(self).iolat_acc.flush@,
                        s.iolat.flush@,
                        k,
                    ))
                &&& (forall|name: Seq<char>, k: Seq<char>|
                    #[trigger] spec_slice_val(e.mem_stat@, name, k) == spec_div_opt(
                        spec_slice_merged(old(self).mem_stat_acc@, s.mem_stat@, name, k),
                        n1,
                    ))
                &&& (forall|name: Seq<char>, k: Seq<char>|
                    #[trigger] spec_slice_val(e.io_stat@, name, k) == spec_div_opt(
                        spec_slice_merged(old(self).io_stat_acc@, s.io_stat@, name, k),
                        n1,
                    ))
                &&& final(self).nr_samples == 0
                &&& final(self).vrate_acc.n == 0
                &&& final(self).mem_stat_acc@.len() == 0
                &&& final(self).io_stat_acc@.len() == 0
                &&& final(self).vmstat_acc@.len() == 0
                &&& final(self).iolat_acc.read@.len() == 0
                &&& final(self).iolat_acc.write@.len() == 0
                &&& final(self).iolat_acc.discard@.len() == 0
                &&& final(self).iolat_acc.flush@.len() == 0
                &&& (match old(self).retention {
                    Some(ret) => e.delete_lo as int == sat_sub(
                        old(self).next_at as int - old(self).intv as int,
                        ret as int,
                    ) && e.delete_hi as int == sat_sub(now as int, ret as int),
                    None => e.delete_lo == 0 && e.delete_hi == 0,
                })
            },
    {
        self.hashd_acc0.push(&s.hashd[0], self.nr_samples);
        self.hashd_acc1.push(&s.hashd[1], self.nr_samples);
        acc_slice_stat_map(&mut self.mem_stat_acc, &s.mem_stat);
        acc_slice_stat_map(&mut self.io_stat_acc, &s.io_stat);
        acc_stat_map(&mut self.vmstat_acc, &s.vmstat);
        acc_stat_map(&mut self.iolat_acc.read, &s.iolat.read);
        acc_stat_map(&mut self.iolat_acc.write, &s.iolat.write);
        acc_stat_map(&mut self.iolat_acc.discard, &s.iolat.discard);
        acc_stat_map(&mut self.iolat_acc.flush, &s.iolat.flush);
        self.vrate_acc.push(s.vrate);
        self.nr_samples = self.nr_samples + 1;

        if now < self.next_at {
            return None;
        }

        let n1 = self.nr_samples;
        let was_at = self.next_at - self.intv;
        self.next_at = compute_next_at(now, self.intv);
        proof {
            assert((now as int / self.intv as int) * self.intv as int <= now as int && (now as int
                / self.intv as int) * self.intv as int >= 0) by (nonlinear_arith)
                requires
                    self.intv > 0,
                    now >= 0,
            ;
        }
        let bucket = now / self.intv * self.intv;
        proof {
            assert(bucket as int % self.intv as int == 0) by (nonlinear_arith)
                requires
                    self.intv > 0,
                    bucket as int == (now as int / self.intv as int) * self.intv as int,
            ;
            assert(old(self).next_at <= now);
            assert(self.next_at as int == ((now as int / self.intv as int) + 1) * self.intv as int);
            assert(self.next_at > now);
        }
        let mut file_name = crate::num::u64_to_string(bucket);
        file_name.append(".json");

        let hashd0 = self.hashd_acc0.summarize(&s.hashd[0], n1);
        let hashd1 = self.hashd_acc1.summarize(&s.hashd[1], n1);
        let vrate_mean = self.vrate_acc.mean();

        let mut mem_stat = core_take_slice(&mut self.mem_stat_acc);
        let mut io_stat = core_take_slice(&mut self.io_stat_acc);
        let mut vmstat = core_take_stat(&mut self.vmstat_acc);
        div_slice_stat_map(&mut mem_stat, n1);
        div_slice_stat_map(&mut io_stat, n1);
        let ghost vm_before = vmstat@;
        div_stat_map(&mut vmstat, n1);
        proof {
            lemma_stat_get_divided(vm_before, vmstat@, n1);
            assert(forall|name: Seq<char>, k: Seq<char>|
                #[trigger] spec_slice_val(mem_stat@, name, k) == spec_div_opt(
                    spec_slice_merged(old(self).mem_stat_acc@, s.mem_stat@, name, k),
                    n1,
                ));
            assert(forall|name: Seq<char>, k: Seq<char>|
                #[trigger] spec_slice_val(io_stat@, name, k) == spec_div_opt(
                    spec_slice_merged(old(self).io_stat_acc@, s.io_stat@, name, k),
                    n1,
                ));
        }
        let iolat = IoLatSet {
            read: core_take_stat(&mut self.iolat_acc.read),
            write: core_take_stat(&mut self.iolat_acc.write),
            discard: core_take_stat(&mut self.iolat_acc.discard),
            flush: core_take_stat(&mut self.iolat_acc.flush),
        };

        let (delete_lo, delete_hi) = match self.retention {
            Some(ret) => (was_at.saturating_sub(ret), now.saturating_sub(ret)),
            None => (0, 0),
        };

        self.hashd_acc0 = HashdAcc::zero();
        self.hashd_acc1 = HashdAcc::zero();
        self.vrate_acc = MeanAcc::zero();
        self.nr_samples = 0;

        Some(
            EmittedSummary {
                bucket,
                file_name,
                hashd: [hashd0, hashd1],
                mem_stat,
                io_stat,
                vmstat,
                iolat,
                vrate_mean,
                nr_samples: n1,
                delete_lo,
                delete_hi,
            },
        )
    }
}

/// The summary values a metric accumulator plus the closing sample yield.
pub open spec fn hashd_summary_ok_vals(
    acc: &HashdAcc,
    last: &HashdReport,
    out: &HashdReport,
    n1: u64,
) -> bool {
    &&& out.svc_name@ == last.svc_name@
    &&& out.phase == last.phase
    &&& out.rps as nat == sat_add(acc.rps.sum as nat, last.rps as nat) / n1 as nat
    &&& out.load as nat == sat_add(acc.load.sum as nat, last.load as nat) / n1 as nat
    &&& out.lat_p50 as nat == sat_add(acc.lat_p50.sum as nat, last.lat_p50 as nat) / n1 as nat
    &&& out.lat_p90 as nat == sat_add(acc.lat_p90.sum as nat, last.lat_p90 as nat) / n1 as nat
    &&& out.lat_p99 as nat == sat_add(acc.lat_p99.sum as nat, last.lat_p99 as nat) / n1 as nat
}

/// `a - b`, floored at zero.
pub open spec fn sat_sub(a: int, b: int) -> int {
    if a >= b {
        a - b
    } else {
        0
    }
}

/// The next interval boundary strictly after `now`.
fn compute_next_at(now: u64, intv: u64) -> (r: u64)
    requires
        intv > 0,
        now <= u64::MAX - intv,
    ensures
        r as int == ((now as int / intv as int) + 1) * intv as int,
        r > now,
        r >= intv,
        r as int % intv as int == 0,
{
    proof {
        assert(((now as int / intv as int) + 1) * intv as int <= now as int + intv as int
            && ((now as int / intv as int) + 1) * intv as int > now as int && ((now as int
            / intv as int) + 1) * intv as int >= intv as int && (((now as int
            / intv as int) + 1) * intv as int) % intv as int == 0) by (nonlinear_arith)
            requires
                intv > 0,
                now >= 0,
        ;
    }
    (now / intv + 1) * intv
}

/// Takes the whole slice-stat accumulator out, leaving it empty.
fn core_take_slice(m: &mut Vec<(String, Vec<(String, u64)>)>) -> (r: Vec<
    (String, Vec<(String, u64)>),
>)
    ensures
        r@ == old(m)@,
        final(m)@.len() == 0,
{
    let mut tmp: Vec<(String, Vec<(String, u64)>)> = Vec::new();
    core::mem::swap(m, &mut tmp);
    tmp
}

/// Takes the whole stat accumulator out, leaving it empty.
fn core_take_stat(m: &mut Vec<(String, u64)>) -> (r: Vec<(String, u64)>)
    ensures
        r@ == old(m)@,
        final(m)@.len() == 0,
{
    let mut tmp: Vec<(String, u64)> = Vec::new();
    core::mem::swap(m, &mut tmp);
    tmp
}

// ---------------------------------------------------------------------------
// Report file names.
/// The stamp a report file name denotes: names are `{stamp}.json` with a
/// nonempty all-digit stamp.
pub open spec fn spec_report_stamp(name: Seq<char>) -> Option<u64> {
    if name.len() > 5 && name.skip(name.len() - 5) == ".json"@ && all_digits(
        name.take(name.len() - 5),
    ) && dec_value(name.take(name.len() - 5)) <= u64::MAX {
        Some(dec_value(name.take(name.len() - 5)) as u64)
    } else {
        None
    }
}

/// An emitted file name parses back to its own bucket stamp.
pub proof fn lemma_report_name_roundtrip(bucket: u64)
    ensures
        spec_report_stamp(dec_digits(bucket as nat) + ".json"@) == Some(bucket),
{
    reveal_strlit(".json");
    lemma_dec_digits_value(bucket as nat);
    let name = dec_digits(bucket as nat) + ".json"@;
    let d = dec_digits(bucket as nat);
    assert(name.len() == d.len() + 5);
    assert(name.skip(name.len() - 5) =~= ".json"@);
    assert(name.take(name.len() - 5) =~= d);
}

/// Reads a report file name; exactly the names of the form `{stamp}.json`
/// with a stamp that fits yield their stamp.
pub fn parse_report_name(name: &str) -> (r: Option<u64>)
    ensures
        r == spec_report_stamp(name@),
{
    proof {
        reveal_strlit(".json");
    }
    let n = name.unicode_len();
    if n <= 5 {
        return None;
    }
    if !(name.get_char(n - 5) == '.' && name.get_char(n - 4) == 'j' && name.get_char(n - 3) == 's'
        && name.get_char(n - 2) == 'o' && name.get_char(n - 1) == 'n') {
        proof {
            assert(name@.skip(n as int - 5) != ".json"@) by {
                if name@.skip(n as int - 5) == ".json"@ {
                    assert(name@.skip(n as int - 5)[0] == '.');
                    assert(name@.skip(n as int - 5)[1] == 'j');
                    assert(name@.skip(n as int - 5)[2] == 's');
                    assert(name@.skip(n as int - 5)[3] == 'o');
                    assert(name@.skip(n as int - 5)[4] == 'n');
                }
            }
        }
        return None;
    }
    proof {
        assert(name@.skip(n as int - 5) =~= ".json"@);
    }
    let stem = name.substring_char(0, n - 5);
    proof {
        assert(stem@ =~= name@.take(n as int - 5));
    }
    parse_u64(stem)
}

/// Whether the membership index list `r` holds `j`.
pub open spec fn holds_index(r: Seq<usize>, j: int) -> bool {
    exists|k: int| 0 <= k < r.len() && #[trigger] r[k] as int == j
}

/// A name is stale when it parses as a report stamp older than the
/// retention horizon.
pub open spec fn spec_stale(name: Seq<char>, now: u64, ret: u64) -> bool {
    match spec_report_stamp(name) {
        Some(st) => (st as int) < now as int - ret as int,
        None => false,
    }
}

/// Picks from a report directory listing the files to delete: exactly
/// those whose stamp lies beyond the retention horizon. Without a
/// retention horizon nothing is deleted.
pub fn clear_old_report_files(names: &Vec<String>, retention: Option<u64>, now: u64) -> (r: Vec<
    usize,
>)
    requires
        retention is Some ==> retention->0 <= now,
    ensures
        retention is None ==> r@.len() == 0,
        retention is Some ==> {
            let ret = retention->0;
            &&& (forall|k: int|
                0 <= k < r@.len() ==> (#[trigger] r@[k] as int) < names@.len() && spec_stale(
                    names@[r@[k] as int]@,
                    now,
                    ret,
                ))
            &&& (forall|j: int|
                0 <= j < names@.len() && spec_stale(#[trigger] names@[j]@, now, ret)
                    ==> holds_index(r@, j))
        },
{
    let mut r: Vec<usize> = Vec::new();
    let ret = match retention {
        Some(v) => v,
        None => {
            return r;
        },
    };
    let mut i: usize = 0;
    while i < names.len()
        invariant
            ret <= now,
            i <= names@.len(),
            forall|k: int|
                0 <= k < r@.len() ==> (#[trigger] r@[k] as int) < i && spec_stale(
                    names@[r@[k] as int]@,
                    now,
                    ret,
                ),
            forall|j: int|
                0 <= j < i && spec_stale(#[trigger] names@[j]@, now, ret) ==> holds_index(r@, j),
        decreases names@.len() - i,
    {
        let ghost r0 = r@;
        match parse_report_name(names[i].as_str()) {
            Some(st) => {
                if st < now - ret {
                    r.push(i);
                }
            },
            None => {},
        }
        i = i + 1;
        proof {
            assert forall|j: int|
                0 <= j < i && spec_stale(#[trigger] names@[j]@, now, ret) implies holds_index(
                r@,
                j,
            ) by {
                if j < i - 1 {
                    assert(holds_index(r0, j));
                    let w = choose|k: int| 0 <= k < r0.len() && #[trigger] r0[k] as int == j;
                    assert(r@[w] as int == j);
                } else {
                    assert(r@[r@.len() - 1] as int == j);
                }
            }
        }
    }
    r
}

} // verus!
