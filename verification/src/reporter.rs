//! The reporter's control core: what each event of its select loop does
//! to its state. Latency lines update the current histogram and pace the
//! cumulative sampler's kicks; the timer builds the per-second base
//! report that both aggregators consume.
use vstd::prelude::*;
use crate::report_file::{IoLatSet, iolat_wf, ReportSample, sample_wf};
use crate::statmap::stat_wf;
use crate::types::{DisableSeqKnobs, ResCtlReport, RunnerState};

verus! {

/// The cumulative sampler is kicked at most once per this many
/// milliseconds, so a stalled loop cannot flood it with signals.
pub const IOLAT_KICK_MIN_GAP_MS: u64 = 100;

/// Reports are taken this long after each second boundary.
pub const REPORT_OFFSET_MS: u64 = 500;

/// How many times a failed latency-reader child is restarted before the
/// reporter gives up.
pub const IOLAT_RETRIES: u32 = 2;

/// The reporter's own state between events.
pub struct ReporterCore {
    pub iolat: IoLatSet,
    pub iolat_cum: IoLatSet,
    pub iolat_cum_kicked_at_ms: u64,
    /// the second whose report is produced next
    pub next_at: u64,
}

impl ReporterCore {
    pub open spec fn wf(&self) -> bool {
        iolat_wf(&self.iolat) && iolat_wf(&self.iolat_cum)
    }

    pub fn new(now: u64) -> (r: ReporterCore)
        requires
            now < u64::MAX,
        ensures
            r.wf(),
            r.next_at == now + 1,
            r.iolat_cum_kicked_at_ms == 0,
    {
        ReporterCore {
            iolat: IoLatSet::empty(),
            iolat_cum: IoLatSet::empty(),
            iolat_cum_kicked_at_ms: 0,
            next_at: now + 1,
        }
    }

    /// A line from the per-second latency sampler arrived: take its
    /// histogram (a line that failed to parse changes nothing), and say
    /// whether to kick the cumulative sampler. A kick is due only when at
    /// least the minimum gap has passed since the last one; a clock that
    /// jumped backwards re-arms without kicking.
    pub fn on_sec_line(&mut self, parsed: Option<IoLatSet>, now_ms: u64) -> (kick: bool)
        requires
            old(self).wf(),
            parsed is Some ==> iolat_wf(&parsed->0),
        ensures
            final(self).wf(),
            kick == (now_ms >= old(self).iolat_cum_kicked_at_ms && now_ms - old(
                self,
            ).iolat_cum_kicked_at_ms > IOLAT_KICK_MIN_GAP_MS),
            final(self).iolat_cum_kicked_at_ms == (if now_ms < old(self).iolat_cum_kicked_at_ms
                || kick {
                now_ms
            } else {
                old(self).iolat_cum_kicked_at_ms
            }),
            final(self).iolat_cum == old(self).iolat_cum,
            final(self).next_at == old(self).next_at,
            match parsed {
                Some(h) => final(self).iolat == h,
                None => final(self).iolat == old(self).iolat,
            },
    {
        let kick = if now_ms < self.iolat_cum_kicked_at_ms {
            self.iolat_cum_kicked_at_ms = now_ms;
            false
        } else if now_ms - self.iolat_cum_kicked_at_ms > IOLAT_KICK_MIN_GAP_MS {
            self.iolat_cum_kicked_at_ms = now_ms;
            true
        } else {
            false
        };
        match parsed {
            Some(h) => {
                self.iolat = h;
            },
            None => {},
        }
        kick
    }

    /// A line from the cumulative latency sampler arrived: take its
    /// histogram; a line that failed to parse changes nothing.
    pub fn on_cum_line(&mut self, parsed: Option<IoLatSet>)
        requires
            old(self).wf(),
            parsed is Some ==> iolat_wf(&parsed->0),
        ensures
            final(self).wf(),
            final(self).iolat == old(self).iolat,
            final(self).iolat_cum_kicked_at_ms == old(self).iolat_cum_kicked_at_ms,
            final(self).next_at == old(self).next_at,
            match parsed {
                Some(h) => final(self).iolat_cum == h,
                None => final(self).iolat_cum == old(self).iolat_cum,
            },
    {
        match parsed {
            Some(h) => {
                self.iolat_cum = h;
            },
            None => {},
        }
    }

    /// How long to wait before the next report: the pending second plus
    /// the offset, or nothing if that instant has passed.
    pub fn sleep_for(&self, now_ms: u64) -> (r: Option<u64>)
        requires
            self.next_at < 0xFFFF_FFFF_FFFF,
        ensures
            ({
                let till = self.next_at * 1000 + REPORT_OFFSET_MS;
                r == (if now_ms < till {
                    Some((till - now_ms) as u64)
                } else {
                    None::<u64>
                })
            }),
    {
        let till = self.next_at * 1000 + REPORT_OFFSET_MS;
        if now_ms < till {
            Some(till - now_ms)
        } else {
            None
        }
    }

    /// A report was produced (or abandoned): the next report belongs to
    /// the second after the present one, however long the work took.
    pub fn rearm(&mut self, now: u64)
        requires
            now < u64::MAX,
        ensures
            final(self).next_at == now + 1,
            final(self).iolat == old(self).iolat,
            final(self).iolat_cum == old(self).iolat_cum,
            final(self).iolat_cum_kicked_at_ms == old(self).iolat_cum_kicked_at_ms,
    {
        self.next_at = now + 1;
    }
}

/// What the failed latency reader does next: restart while the budget
/// lasts and the program is not exiting; otherwise give up (fatal).
#[derive(Clone, Copy, Debug, PartialEq, Eq, Structural)]
pub enum RetryAction {
    Restart,
    GiveUp,
}

pub fn iolat_retry(retries: &mut u32, exiting: bool) -> (r: RetryAction)
    ensures
        r == (if *old(retries) > 0 && !exiting {
            RetryAction::Restart
        } else {
            RetryAction::GiveUp
        }),
        r is Restart ==> *final(retries) == *old(retries) - 1,
        r is GiveUp ==> *final(retries) == *old(retries),
{
    if *retries > 0 && !exiting {
        *retries = *retries - 1;
        RetryAction::Restart
    } else {
        RetryAction::GiveUp
    }
}

/// Everything the runner lock yields for one base report.
pub struct BaseInputs {
    /// unix seconds of this report
    pub now: u64,
    pub seq: u64,
    pub state: RunnerState,
    pub dseqs: DisableSeqKnobs,
    pub oomd_on: bool,
    pub sideloader_on: bool,
    pub bench_hashd_phase: u32,
    pub sample: ReportSample,
    pub swappiness: u32,
    pub zswap_enabled: bool,
}

/// One per-second report, as handed to the aggregators and written under
/// the report directory.
pub struct Report {
    pub timestamp: u64,
    pub seq: u64,
    pub state: RunnerState,
    pub resctl: ResCtlReport,
    pub oomd_on: bool,
    pub sideloader_on: bool,
    pub bench_hashd_phase: u32,
    pub sample: ReportSample,
    pub iolat_cum: IoLatSet,
    pub swappiness: u32,
    pub zswap_enabled: bool,
}

impl ReporterCore {
    /// Assembles the base report: the runner snapshot carried through,
    /// the resctl bits derived from the disable sequences, the current
    /// latency histogram overriding the sample's, and the cumulative
    /// histogram exactly as last received.
    pub fn make_base_report(&self, inp: BaseInputs) -> (r: Report)
        requires
            self.wf(),
            sample_wf(&inp.sample),
        ensures
            r.timestamp == inp.now,
            r.seq == inp.seq,
            r.state == inp.state,
            r.resctl.cpu == (inp.dseqs.cpu < inp.seq),
            r.resctl.mem == (inp.dseqs.mem < inp.seq),
            r.resctl.io == (inp.dseqs.io < inp.seq),
            r.oomd_on == inp.oomd_on,
            r.sideloader_on == inp.sideloader_on,
            r.bench_hashd_phase == inp.bench_hashd_phase,
            sample_wf(&r.sample),
            r.sample.hashd == inp.sample.hashd,
            r.sample.mem_stat == inp.sample.mem_stat,
            r.sample.io_stat == inp.sample.io_stat,
            r.sample.vmstat == inp.sample.vmstat,
            r.sample.vrate == inp.sample.vrate,
            iolat_stat_views_match(&r.sample.iolat, &self.iolat),
            iolat_stat_views_match(&r.iolat_cum, &self.iolat_cum),
            r.swappiness == inp.swappiness,
            r.zswap_enabled == inp.zswap_enabled,
    {
        let resctl = crate::types::resctl_report(&inp.dseqs, inp.seq);
        let sample = ReportSample {
            iolat: copy_iolat(&self.iolat),
            ..inp.sample
        };
        Report {
            timestamp: inp.now,
            seq: inp.seq,
            state: inp.state,
            resctl,
            oomd_on: inp.oomd_on,
            sideloader_on: inp.sideloader_on,
            bench_hashd_phase: inp.bench_hashd_phase,
            sample,
            iolat_cum: copy_iolat(&self.iolat_cum),
            swappiness: inp.swappiness,
            zswap_enabled: inp.zswap_enabled,
        }
    }
}

/// Both histogram sets carry the same keys and values everywhere.
pub open spec fn iolat_stat_views_match(a: &IoLatSet, b: &IoLatSet) -> bool {
    &&& stat_views_match(a.read@, b.read@)
    &&& stat_views_match(a.write@, b.write@)
    &&& stat_views_match(a.discard@, b.discard@)
    &&& stat_views_match(a.flush@, b.flush@)
}

pub open spec fn stat_views_match(a: Seq<(String, u64)>, b: Seq<(String, u64)>) -> bool {
    a.len() == b.len() && forall|i: int|
        0 <= i < a.len() ==> (#[trigger] a[i].0@) == b[i].0@ && a[i].1 == b[i].1
}

/// A key-and-value preserving copy of a histogram set.
fn copy_iolat(s: &IoLatSet) -> (r: IoLatSet)
    requires
        iolat_wf(s),
    ensures
        iolat_wf(&r),
        iolat_stat_views_match(&r, s),
{
    IoLatSet {
        read: crate::statmap::copy_stat_map(&s.read),
        write: crate::statmap::copy_stat_map(&s.write),
        discard: crate::statmap::copy_stat_map(&s.discard),
        flush: crate::statmap::copy_stat_map(&s.flush),
    }
}

} // verus!
