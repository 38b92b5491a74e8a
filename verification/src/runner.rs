//! The command reconciler: a single-owner state machine that compares the
//! externally written command file against the bench knob file and decides
//! what to start, stop or re-apply.
//!
//! The machine itself is pure: every external effect (starting a service,
//! resizing the balloon, writing a kernel knob) is decided here, carried
//! out by the caller, and its outcome handed back. `decide_cmd` picks the
//! step that the current state and files call for; `commit_cmd` folds the
//! outcome of that step back into the state.
use vstd::prelude::*;
use crate::types::{BenchKnobs, Cmd, HashdKnobs, IoCostKnobs, RunnerState, UnitState};

verus! {

/// How often slice health is re-verified, in milliseconds.
pub const HEALTH_CHECK_INTV_MS: u64 = 10_000;

/// Swappiness targets are capped here before being written back.
pub const SWAPPINESS_MAX: u32 = 200;

/// Static configuration the reconciler consults.
#[derive(Clone, Copy, Debug)]
pub struct RunnerCfg {
    /// allow Running without a completed reference-workload benchmark
    pub force_running: bool,
    pub enforce_mem: bool,
    pub enforce_oomd: bool,
    pub enforce_io: bool,
    /// every controller enforced: sideloader changes may be applied
    pub enforce_all: bool,
    /// skip periodic slice health checks
    pub bypass: bool,
    /// default swappiness when the command file sets none
    pub sr_swappiness: u32,
    /// default zswap enable when the command file sets none
    pub sr_zswap_enabled: bool,
    pub total_memory: u64,
}

/// Which benchmark a transient service handle belongs to.
#[derive(Clone, Copy, Debug, PartialEq, Eq, Structural)]
pub enum BenchKind {
    Hashd,
    IoCost,
}

/// A handle on a transient benchmark service.
#[derive(Clone, Copy, Debug, PartialEq, Eq, Structural)]
pub struct SvcHandle {
    pub kind: BenchKind,
}

/// The pair of reference-workload instances.
#[derive(Clone, Copy, Debug)]
pub struct HashdSet {
    pub active: [bool; 2],
}

/// The side/sysload runner: which named loads are up.
#[derive(Clone, Debug)]
pub struct SideRunner {
    pub sysloads: Vec<String>,
    pub sideloads: Vec<String>,
}

/// The memory balloon.
#[derive(Clone, Copy, Debug, PartialEq, Eq, Structural)]
pub struct Balloon {
    pub size: u64,
}

/// All state the reconciler owns.
pub struct RunnerData {
    pub state: RunnerState,
    pub warned_bench: bool,
    pub warned_init: bool,
    pub force_apply: bool,
    pub bench_hashd: Option<SvcHandle>,
    pub bench_iocost: Option<SvcHandle>,
    pub hashd_set: HashdSet,
    pub side_runner: SideRunner,
    pub balloon: Balloon,
    pub oomd_running: bool,
    /// the last command sequence acknowledged back to the writer
    pub cmd_ack_seq: u64,
}

/// One reconciliation step, as decided from `(state, cmd, bench)`.
#[derive(Clone, Copy, Debug, PartialEq, Eq, Structural)]
pub enum CmdDecision {
    /// start the IO-cost benchmark service, then BenchIoCost
    StartIoCostBench,
    /// size the balloon, stop OOMD, start the reference-workload
    /// benchmark, then BenchHashd
    StartHashdBench { balloon_size: u64, log_bps: u64 },
    /// a completed reference-workload benchmark exists: go Running
    GoRunning,
    /// the IO-cost benchmark must run first; warn once and stay Idle
    WarnBenchOrder,
    /// nothing has been benchmarked yet; warn once and stay Idle
    WarnInit,
    /// a pending request or a cancellation: drop everything, go Idle
    TearDown,
    /// steady Running state: re-apply workloads, side loads and balloon
    ApplyWorkloads,
    /// benchmark still in flight: nothing to do
    HoldBench,
}

/// Outcomes of the external work one step asked for.
#[derive(Clone, Copy, Debug, PartialEq, Eq, Structural)]
pub struct StepIo {
    /// the service start succeeded
    pub start_ok: bool,
    /// the balloon resize succeeded
    pub balloon_ok: bool,
    /// applying the reference workloads succeeded
    pub workloads_ok: bool,
}

#[derive(Clone, Copy, Debug, PartialEq, Eq, Structural)]
pub struct CommitOut {
    /// run another reconciliation pass at once
    pub repeat: bool,
    /// an isolation guarantee was lost; the caller must stop the program
    pub fatal: bool,
}

#[derive(Clone, Copy, Debug, PartialEq, Eq, Structural)]
pub struct CompletionOut {
    /// persist the bench knob file
    pub save_bench: bool,
    /// re-apply the IO-cost configuration from the knob file
    pub apply_iocost: bool,
}

/// The step that `(state, cmd, bench)` calls for. The reconciler never
/// moves spontaneously: this is the whole of its decision.
pub open spec fn spec_decide(
    state: RunnerState,
    cmd: Cmd,
    bench: BenchKnobs,
    force_running: bool,
) -> CmdDecision {
    match state {
        RunnerState::Idle => {
            if cmd.bench_iocost_seq > bench.iocost_seq {
                CmdDecision::StartIoCostBench
            } else if cmd.bench_hashd_seq > bench.hashd_seq {
                if bench.iocost_seq > 0 || force_running {
                    CmdDecision::StartHashdBench {
                        balloon_size: cmd.bench_hashd_balloon_size,
                        log_bps: cmd.hashd[0].log_bps,
                    }
                } else {
                    CmdDecision::WarnBenchOrder
                }
            } else if bench.hashd_seq > 0 || force_running {
                CmdDecision::GoRunning
            } else {
                CmdDecision::WarnInit
            }
        },
        RunnerState::Running => {
            if cmd.bench_hashd_seq > bench.hashd_seq || cmd.bench_iocost_seq > bench.iocost_seq {
                CmdDecision::TearDown
            } else {
                CmdDecision::ApplyWorkloads
            }
        },
        RunnerState::BenchHashd => {
            if cmd.bench_hashd_seq <= bench.hashd_seq {
                CmdDecision::TearDown
            } else {
                CmdDecision::HoldBench
            }
        },
        RunnerState::BenchIoCost => {
            if cmd.bench_iocost_seq <= bench.iocost_seq {
                CmdDecision::TearDown
            } else {
                CmdDecision::HoldBench
            }
        },
    }
}

/// The state a committed step lands in, as a function of the start state,
/// the decision and the outcome of the step's service start.
pub open spec fn spec_commit_state(state: RunnerState, d: CmdDecision, io: StepIo) -> RunnerState {
    match d {
        CmdDecision::StartIoCostBench => {
            if io.start_ok {
                RunnerState::BenchIoCost
            } else {
                state
            }
        },
        CmdDecision::StartHashdBench { .. } => {
            if io.balloon_ok && io.start_ok {
                RunnerState::BenchHashd
            } else {
                state
            }
        },
        CmdDecision::GoRunning => RunnerState::Running,
        CmdDecision::TearDown => RunnerState::Idle,
        _ => state,
    }
}

/// A lost isolation guarantee: a failed balloon resize, or a failed
/// workload apply in the Running state.
pub open spec fn spec_commit_fatal(d: CmdDecision, io: StepIo) -> bool {
    match d {
        CmdDecision::StartHashdBench { .. } => !io.balloon_ok,
        CmdDecision::ApplyWorkloads => !io.workloads_ok || !io.balloon_ok,
        _ => false,
    }
}

/// The balloon size that the Running state maintains: the configured
/// fraction of total memory, in thousandths, rounded down.
pub open spec fn spec_balloon_target(total_memory: u64, ratio: u64) -> u64 {
    ((total_memory as int * ratio as int) / 1000) as u64
}

pub fn balloon_target(total_memory: u64, ratio: u64) -> (r: u64)
    requires
        ratio <= 1000,
    ensures
        r == spec_balloon_target(total_memory, ratio),
{
    proof {
        assert(total_memory as int * ratio as int <= total_memory as int * 1000 && total_memory
            as int * ratio as int >= 0) by (nonlinear_arith)
            requires
                ratio <= 1000,
        ;
        assert((total_memory as int * ratio as int) / 1000 <= (total_memory as int * 1000) / 1000)
            by (nonlinear_arith)
            requires
                total_memory as int * ratio as int <= total_memory as int * 1000,
        ;
        assert((total_memory as int * 1000) / 1000 == total_memory as int) by (nonlinear_arith);
    }
    ((total_memory as u128 * ratio as u128) / 1000) as u64
}

impl RunnerData {
    /// An active benchmark state always holds the matching handle.
    pub open spec fn wf(&self) -> bool {
        &&& (self.state is BenchHashd ==> self.bench_hashd is Some)
        &&& (self.state is BenchIoCost ==> self.bench_iocost is Some)
    }

    pub fn new() -> (r: RunnerData)
        ensures
            r.wf(),
            r.state is Idle,
            !r.warned_bench && !r.warned_init && !r.force_apply,
            r.bench_hashd is None && r.bench_iocost is None,
            r.hashd_set.active@ =~= seq![false, false],
            r.side_runner.sysloads@.len() == 0 && r.side_runner.sideloads@.len() == 0,
            r.balloon.size == 0,
            r.oomd_running == true,
            r.cmd_ack_seq == 0,
    {
        let r = RunnerData {
            state: RunnerState::Idle,
            warned_bench: false,
            warned_init: false,
            force_apply: false,
            bench_hashd: None,
            bench_iocost: None,
            hashd_set: HashdSet { active: [false, false] },
            side_runner: SideRunner { sysloads: Vec::new(), sideloads: Vec::new() },
            balloon: Balloon { size: 0 },
            oomd_running: true,
            cmd_ack_seq: 0,
        };
        proof {
            assert(r.hashd_set.active@ =~= seq![false, false]);
        }
        r
    }

    /// Records the acknowledgement of the current command sequence; the
    /// caller persists it before acting on the command.
    pub fn write_ack(&mut self, cmd: &Cmd)
        ensures
            final(self).cmd_ack_seq == cmd.cmd_seq,
            final(self).state == old(self).state,
            final(self).warned_bench == old(self).warned_bench,
            final(self).warned_init == old(self).warned_init,
            final(self).force_apply == old(self).force_apply,
            final(self).bench_hashd == old(self).bench_hashd,
            final(self).bench_iocost == old(self).bench_iocost,
            final(self).hashd_set == old(self).hashd_set,
            final(self).side_runner.sysloads@ == old(self).side_runner.sysloads@,
            final(self).side_runner.sideloads@ == old(self).side_runner.sideloads@,
            final(self).balloon == old(self).balloon,
            final(self).oomd_running == old(self).oomd_running,
    {
        self.cmd_ack_seq = cmd.cmd_seq;
    }

    /// Tears everything down: both benchmark handles dropped, the
    /// reference-workload set and side loads stopped, state back to Idle.
    pub fn become_idle(&mut self)
        ensures
            final(self).wf(),
            final(self).state is Idle,
            final(self).bench_hashd is None,
            final(self).bench_iocost is None,
            final(self).hashd_set.active@ =~= seq![false, false],
            final(self).side_runner.sysloads@.len() == 0,
            final(self).side_runner.sideloads@.len() == 0,
            final(self).warned_bench == old(self).warned_bench,
            final(self).warned_init == old(self).warned_init,
            final(self).force_apply == old(self).force_apply,
            final(self).balloon == old(self).balloon,
            final(self).oomd_running == old(self).oomd_running,
            final(self).cmd_ack_seq == old(self).cmd_ack_seq,
    {
        self.bench_hashd = None;
        self.bench_iocost = None;
        self.hashd_set.active = [false, false];
        self.side_runner.sysloads = Vec::new();
        self.side_runner.sideloads = Vec::new();
        self.state = RunnerState::Idle;
        proof {
            assert(self.hashd_set.active@ =~= seq![false, false]);
        }
    }

    /// Picks the reconciliation step that the current state and the two
    /// files call for.
    pub fn decide_cmd(&self, cmd: &Cmd, bench: &BenchKnobs, cfg: &RunnerCfg) -> (d: CmdDecision)
        ensures
            d == spec_decide(self.state, *cmd, *bench, cfg.force_running),
    {
        match self.state {
            RunnerState::Idle => {
                if cmd.bench_iocost_seq > bench.iocost_seq {
                    CmdDecision::StartIoCostBench
                } else if cmd.bench_hashd_seq > bench.hashd_seq {
                    if bench.iocost_seq > 0 || cfg.force_running {
                        CmdDecision::StartHashdBench {
                            balloon_size: cmd.bench_hashd_balloon_size,
                            log_bps: cmd.hashd[0].log_bps,
                        }
                    } else {
                        CmdDecision::WarnBenchOrder
                    }
                } else if bench.hashd_seq > 0 || cfg.force_running {
                    CmdDecision::GoRunning
                } else {
                    CmdDecision::WarnInit
                }
            },
            RunnerState::Running => {
                if cmd.bench_hashd_seq > bench.hashd_seq || cmd.bench_iocost_seq
                    > bench.iocost_seq {
                    CmdDecision::TearDown
                } else {
                    CmdDecision::ApplyWorkloads
                }
            },
            RunnerState::BenchHashd => {
                if cmd.bench_hashd_seq <= bench.hashd_seq {
                    CmdDecision::TearDown
                } else {
                    CmdDecision::HoldBench
                }
            },
            RunnerState::BenchIoCost => {
                if cmd.bench_iocost_seq <= bench.iocost_seq {
                    CmdDecision::TearDown
                } else {
                    CmdDecision::HoldBench
                }
            },
        }
    }

    /// Folds the outcome of one reconciliation step back into the state.
    /// A failed service start leaves the state unchanged; the result says
    /// whether another pass is wanted and whether an isolation guarantee
    /// was lost (fatal to the caller). A one-shot warning flag set by an
    /// Idle step is cleared again by any step that leaves Idle.
    pub fn commit_cmd(&mut self, cmd: &Cmd, cfg: &RunnerCfg, d: &CmdDecision, io: &StepIo) -> (r:
        CommitOut)
        requires
            old(self).wf(),
            cmd.balloon_ratio <= 1000,
        ensures
            final(self).wf(),
            final(self).state == spec_commit_state(old(self).state, *d, *io),
            r.repeat == (d is GoRunning),
            r.fatal == spec_commit_fatal(*d, *io),
            final(self).warned_bench == (final(self).state is Idle && (old(self).warned_bench || (
            d is WarnBenchOrder))),
            final(self).warned_init == (final(self).state is Idle && (old(self).warned_init || (
            d is WarnInit))),
            final(self).force_apply == (old(self).force_apply || (d is StartIoCostBench
                && io.start_ok) || (d is StartHashdBench && io.balloon_ok && io.start_ok)),
            final(self).bench_hashd == (if d is TearDown {
                None::<SvcHandle>
            } else if d is StartHashdBench && io.balloon_ok && io.start_ok {
                Some(SvcHandle { kind: BenchKind::Hashd })
            } else {
                old(self).bench_hashd
            }),
            final(self).bench_iocost == (if d is TearDown {
                None::<SvcHandle>
            } else if d is StartIoCostBench && io.start_ok {
                Some(SvcHandle { kind: BenchKind::IoCost })
            } else {
                old(self).bench_iocost
            }),
            final(self).balloon.size == (if d is StartHashdBench && io.balloon_ok {
                d->StartHashdBench_balloon_size
            } else if d is ApplyWorkloads && io.workloads_ok && io.balloon_ok {
                spec_balloon_target(cfg.total_memory, cmd.balloon_ratio)
            } else {
                old(self).balloon.size
            }),
            final(self).oomd_running == (old(self).oomd_running && !(d is StartHashdBench
                && io.balloon_ok)),
            final(self).hashd_set.active@ =~= (if d is TearDown {
                seq![false, false]
            } else if d is ApplyWorkloads && io.workloads_ok {
                seq![cmd.hashd[0].active, cmd.hashd[1].active]
            } else {
                old(self).hashd_set.active@
            }),
            final(self).side_runner.sysloads@.len() == (if d is TearDown {
                0int
            } else {
                old(self).side_runner.sysloads@.len() as int
            }),
            final(self).side_runner.sideloads@.len() == (if d is TearDown {
                0int
            } else {
                old(self).side_runner.sideloads@.len() as int
            }),
            final(self).cmd_ack_seq == old(self).cmd_ack_seq,
    {
        let mut repeat = false;
        match d {
            CmdDecision::StartIoCostBench => {
                if io.start_ok {
                    self.bench_iocost = Some(SvcHandle { kind: BenchKind::IoCost });
                    self.state = RunnerState::BenchIoCost;
                    self.force_apply = true;
                }
            },
            CmdDecision::StartHashdBench { balloon_size, log_bps: _ } => {
                if io.balloon_ok {
                    self.balloon.size = *balloon_size;
                    self.oomd_running = false;
                    if io.start_ok {
                        self.bench_hashd = Some(SvcHandle { kind: BenchKind::Hashd });
                        self.state = RunnerState::BenchHashd;
                        self.force_apply = true;
                    }
                }
            },
            CmdDecision::GoRunning => {
                self.state = RunnerState::Running;
                repeat = true;
            },
            CmdDecision::WarnBenchOrder => {
                self.warned_bench = true;
            },
            CmdDecision::WarnInit => {
                self.warned_init = true;
            },
            CmdDecision::TearDown => {
                self.become_idle();
            },
            CmdDecision::ApplyWorkloads => {
                if io.workloads_ok {
                    self.hashd_set.active = [cmd.hashd[0].active, cmd.hashd[1].active];
                    proof {
                        assert(self.hashd_set.active@ =~= seq![
                            cmd.hashd[0].active,
                            cmd.hashd[1].active,
                        ]);
                    }
                    if io.balloon_ok {
                        self.balloon.size = balloon_target(cfg.total_memory, cmd.balloon_ratio);
                    }
                }
            },
            CmdDecision::HoldBench => {},
        }
        if !matches!(self.state, RunnerState::Idle) {
            self.warned_bench = false;
            self.warned_init = false;
        }
        let fatal = match d {
            CmdDecision::StartHashdBench { .. } => !io.balloon_ok,
            CmdDecision::ApplyWorkloads => !io.workloads_ok || !io.balloon_ok,
            _ => false,
        };
        CommitOut { repeat, fatal }
    }

    /// Handles the completion of an active benchmark, given the freshly
    /// refreshed unit state and the artifact knobs the caller read back. On
    /// `Exited`, the finished benchmark's sequence is raised to the
    /// requested one and the loaded knob section taken over; any other
    /// terminal state aborts the benchmark. Either way the runner returns
    /// to Idle.
    pub fn check_completions(
        &mut self,
        cmd: &Cmd,
        bench: &mut BenchKnobs,
        refreshed: UnitState,
        loaded_hashd: &HashdKnobs,
        loaded_iocost: &IoCostKnobs,
    ) -> (r: CompletionOut)
        requires
            old(self).wf(),
        ensures
            final(self).wf(),
            final(self).state == (if (old(self).state is BenchHashd || old(
                self,
            ).state is BenchIoCost) && !(refreshed is Running) {
                RunnerState::Idle
            } else {
                old(self).state
            }),
            *final(bench) == spec_completion_bench(
                old(self).state,
                *cmd,
                *old(bench),
                refreshed,
                *loaded_hashd,
                *loaded_iocost,
            ),
            r.save_bench == ((old(self).state is BenchHashd || old(self).state is BenchIoCost)
                && refreshed is Exited),
            r.apply_iocost == (old(self).state is BenchIoCost && refreshed is Exited),
            final(self).state is Idle && !(old(self).state is Idle) ==> final(self).bench_hashd
                is None && final(self).bench_iocost is None,
            old(self).state is Idle || old(self).state is Running ==> final(self).bench_hashd
                == old(self).bench_hashd && final(self).bench_iocost == old(self).bench_iocost
                && final(self).hashd_set == old(self).hashd_set,
    {
        match self.state {
            RunnerState::BenchHashd | RunnerState::BenchIoCost => {
                match refreshed {
                    UnitState::Running => CompletionOut { save_bench: false, apply_iocost: false },
                    UnitState::Exited => {
                        let was_hashd = matches!(self.state, RunnerState::BenchHashd);
                        if was_hashd {
                            bench.hashd_seq = cmd.bench_hashd_seq;
                            bench.hashd = *loaded_hashd;
                        } else {
                            bench.iocost_seq = cmd.bench_iocost_seq;
                            bench.iocost = *loaded_iocost;
                        }
                        self.become_idle();
                        CompletionOut { save_bench: true, apply_iocost: !was_hashd }
                    },
                    _ => {
                        self.become_idle();
                        CompletionOut { save_bench: false, apply_iocost: false }
                    },
                }
            },
            _ => CompletionOut { save_bench: false, apply_iocost: false },
        }
    }
}

/// What a completion check does to the bench knobs: only a clean exit
/// publishes results.
pub open spec fn spec_completion_bench(
    state: RunnerState,
    cmd: Cmd,
    bench: BenchKnobs,
    refreshed: UnitState,
    loaded_hashd: HashdKnobs,
    loaded_iocost: IoCostKnobs,
) -> BenchKnobs {
    if state is BenchHashd && refreshed is Exited {
        BenchKnobs { hashd_seq: cmd.bench_hashd_seq, hashd: loaded_hashd, ..bench }
    } else if state is BenchIoCost && refreshed is Exited {
        BenchKnobs { iocost_seq: cmd.bench_iocost_seq, iocost: loaded_iocost, ..bench }
    } else {
        bench
    }
}

// ---------------------------------------------------------------------------
// Laws of the reconciler.
/// The end state of a reconciliation step is a function of the start
/// state, the command file, the bench knobs, the configuration and the
/// outcomes of the step's own external work: two runners in the same
/// state shown the same files move identically. There are no spontaneous
/// transitions.
pub proof fn lemma_reconcile_deterministic(
    a: RunnerState,
    b: RunnerState,
    cmd: Cmd,
    bench: BenchKnobs,
    force_running: bool,
    io: StepIo,
)
    requires
        a == b,
    ensures
        spec_commit_state(a, spec_decide(a, cmd, bench, force_running), io) == spec_commit_state(
            b,
            spec_decide(b, cmd, bench, force_running),
            io,
        ),
{
}

/// A step that decides nothing but a warning, a hold, a steady re-apply
/// or a failed start leaves the state exactly where it was.
pub proof fn lemma_no_spontaneous_transition(
    state: RunnerState,
    cmd: Cmd,
    bench: BenchKnobs,
    force_running: bool,
    io: StepIo,
)
    ensures
        ({
            let d = spec_decide(state, cmd, bench, force_running);
            (d is WarnBenchOrder || d is WarnInit || d is HoldBench || d is ApplyWorkloads || (
            d is StartIoCostBench && !io.start_ok) || (d is StartHashdBench && !io.start_ok))
                ==> spec_commit_state(state, d, io) == state
        }),
{
}

/// What an acknowledgement pass records: exactly the command file's
/// sequence.
pub open spec fn spec_ack_after(cmd: Cmd) -> u64 {
    cmd.cmd_seq
}

/// Acknowledgements move forward only: fed commands whose sequence never
/// decreases, the recorded acknowledgement never decreases either, and it
/// never runs ahead of the command file.
pub proof fn lemma_ack_monotone(ack_before: u64, cmd: Cmd)
    requires
        ack_before <= cmd.cmd_seq,
    ensures
        spec_ack_after(cmd) >= ack_before,
        spec_ack_after(cmd) <= cmd.cmd_seq,
{
}

// ---------------------------------------------------------------------------
// Kernel knob planning.
#[derive(Clone, Copy, Debug, PartialEq, Eq, Structural)]
pub struct KnobWrite<T> {
    pub write: Option<T>,
    pub warn: bool,
}

pub open spec fn spec_swappiness_target(cmd_swappiness: Option<u32>, default: u32) -> u32 {
    let wanted = if cmd_swappiness is Some {
        cmd_swappiness->0
    } else {
        default
    };
    if wanted > SWAPPINESS_MAX {
        SWAPPINESS_MAX
    } else {
        wanted
    }
}

/// What to write to the swappiness knob, if anything, and whether to
/// warn: the target is the commanded value (or the configured default),
/// capped; targets under 60 warn but still apply; nothing is written when
/// memory control is not enforced or the value already matches.
pub fn swappiness_plan(cur: u32, cmd_swappiness: Option<u32>, cfg: &RunnerCfg) -> (r: KnobWrite<
    u32,
>)
    ensures
        ({
            let target = spec_swappiness_target(cmd_swappiness, cfg.sr_swappiness);
            &&& r.write == (if cfg.enforce_mem && cur != target {
                Some(target)
            } else {
                None::<u32>
            })
            &&& r.warn == (cfg.enforce_mem && cur != target && target < 60)
        }),
{
    if !cfg.enforce_mem {
        return KnobWrite { write: None, warn: false };
    }
    let mut target = match cmd_swappiness {
        Some(v) => v,
        None => cfg.sr_swappiness,
    };
    if target > SWAPPINESS_MAX {
        target = SWAPPINESS_MAX;
    }
    if cur != target {
        KnobWrite { write: Some(target), warn: target < 60 }
    } else {
        KnobWrite { write: None, warn: false }
    }
}

/// What to write to the zswap enable knob, if anything.
pub fn zswap_plan(cur: bool, cmd_zswap: Option<bool>, cfg: &RunnerCfg) -> (r: KnobWrite<bool>)
    ensures
        ({
            let target = if cmd_zswap is Some {
                cmd_zswap->0
            } else {
                cfg.sr_zswap_enabled
            };
            &&& r.write == (if cfg.enforce_mem && cur != target {
                Some(target)
            } else {
                None::<bool>
            })
            &&& !r.warn
        }),
{
    if !cfg.enforce_mem {
        return KnobWrite { write: None, warn: false };
    }
    let target = match cmd_zswap {
        Some(v) => v,
        None => cfg.sr_zswap_enabled,
    };
    if cur != target {
        KnobWrite { write: Some(target), warn: false }
    } else {
        KnobWrite { write: None, warn: false }
    }
}

/// Whether the periodic slice health check is due: at least the check
/// interval has passed since the last one, or a verification is pending.
pub fn should_health_check(now_ms: u64, last_ms: u64, verify_pending: bool, bypass: bool) -> (r:
    bool)
    ensures
        r == (!bypass && ((now_ms >= last_ms && now_ms - last_ms >= HEALTH_CHECK_INTV_MS)
            || verify_pending)),
{
    !bypass && ((now_ms >= last_ms && now_ms - last_ms >= HEALTH_CHECK_INTV_MS) || verify_pending)
}

// ---------------------------------------------------------------------------
// Reload planning.
/// Which config files were seen to change this pass, and what the runner
/// observed of the sideloader.
#[derive(Clone, Copy, Debug, PartialEq, Eq, Structural)]
pub struct ReloadObs {
    pub re_bench: bool,
    pub re_slice: bool,
    pub re_side: bool,
    pub re_oomd: bool,
    pub re_cmd: bool,
    pub sideloader_running: bool,
    pub controllers_disabled: bool,
    pub headroom_changed: bool,
}

/// What a reload pass must re-apply.
#[derive(Clone, Copy, Debug, PartialEq, Eq, Structural)]
pub struct ReloadPlan {
    pub apply_iocost: bool,
    pub apply_slices: bool,
    pub apply_oomd: bool,
    pub stop_sideloader: bool,
    pub apply_sideloader: bool,
    /// something meaningful changed: reconcile and verify again
    pub changed: bool,
}

/// While a benchmark runs, the bench, slice, side-definition and OOMD
/// files are not reloaded, so the benchmark's own knob writes stay
/// undisturbed; the command file always is.
pub open spec fn spec_reload_gated(state: RunnerState) -> bool {
    state is BenchHashd || state is BenchIoCost
}

pub fn reload_gated(state: RunnerState) -> (r: bool)
    ensures
        r == spec_reload_gated(state),
{
    matches!(state, RunnerState::BenchHashd | RunnerState::BenchIoCost)
}

impl RunnerData {
    /// Turns this pass's reload observations into the set of re-applies it
    /// owes. A pending force-apply is consumed only outside the gated
    /// benchmark states, so it still fires once the benchmark is done.
    pub fn plan_reload(&mut self, obs: &ReloadObs, cfg: &RunnerCfg) -> (r: ReloadPlan)
        ensures
            final(self).force_apply == (spec_reload_gated(old(self).state) && old(
                self,
            ).force_apply),
            final(self).state == old(self).state,
            final(self).warned_bench == old(self).warned_bench,
            final(self).warned_init == old(self).warned_init,
            final(self).bench_hashd == old(self).bench_hashd,
            final(self).bench_iocost == old(self).bench_iocost,
            final(self).hashd_set == old(self).hashd_set,
            final(self).side_runner.sysloads@ == old(self).side_runner.sysloads@,
            final(self).side_runner.sideloads@ == old(self).side_runner.sideloads@,
            final(self).balloon == old(self).balloon,
            final(self).oomd_running == old(self).oomd_running,
            final(self).cmd_ack_seq == old(self).cmd_ack_seq,
            ({
                let gated = spec_reload_gated(old(self).state);
                let force = !gated && old(self).force_apply;
                let re_bench = (obs.re_bench && !gated) || force;
                let re_slice = (obs.re_slice && !gated) || force;
                let re_oomd = (obs.re_oomd && !gated) || force;
                &&& r.apply_iocost == re_bench
                &&& r.apply_slices == (re_bench || re_slice)
                &&& r.apply_oomd == ((re_bench || re_oomd) && cfg.enforce_oomd)
                &&& r.stop_sideloader == (re_slice && obs.controllers_disabled
                    && obs.sideloader_running)
                &&& r.apply_sideloader == (((re_slice && !obs.controllers_disabled
                    && !obs.sideloader_running) || obs.headroom_changed) && cfg.enforce_all)
                &&& r.changed == (re_bench || obs.re_cmd || re_slice)
            }),
    {
        let gated = reload_gated(self.state);
        let force = !gated && self.force_apply;
        if !gated {
            self.force_apply = false;
        }
        let re_bench = (obs.re_bench && !gated) || force;
        let re_slice = (obs.re_slice && !gated) || force;
        let re_oomd = (obs.re_oomd && !gated) || force;
        let stop_sideloader = re_slice && obs.controllers_disabled && obs.sideloader_running;
        let apply_sideloader = ((re_slice && !obs.controllers_disabled && !obs.sideloader_running)
            || obs.headroom_changed) && cfg.enforce_all;
        ReloadPlan {
            apply_iocost: re_bench,
            apply_slices: re_bench || re_slice,
            apply_oomd: (re_bench || re_oomd) && cfg.enforce_oomd,
            stop_sideloader,
            apply_sideloader,
            changed: re_bench || obs.re_cmd || re_slice,
        }
    }

    /// Replaces the running side/sysload sets with the commanded ones and
    /// reports which named loads were removed, so the caller can clean
    /// them up without holding the runner locked.
    pub fn apply_sides(&mut self, cmd: &Cmd) -> (removed: (Vec<String>, Vec<String>))
        ensures
            final(self).state == old(self).state,
            final(self).warned_bench == old(self).warned_bench,
            final(self).warned_init == old(self).warned_init,
            final(self).force_apply == old(self).force_apply,
            final(self).bench_hashd == old(self).bench_hashd,
            final(self).bench_iocost == old(self).bench_iocost,
            final(self).hashd_set == old(self).hashd_set,
            final(self).balloon == old(self).balloon,
            final(self).oomd_running == old(self).oomd_running,
            final(self).cmd_ack_seq == old(self).cmd_ack_seq,
            final(self).side_runner.sysloads@.len() == cmd.sysloads@.len(),
            forall|i: int|
                0 <= i < cmd.sysloads@.len() ==> #[trigger] final(self).side_runner.sysloads@[i]@
                    == cmd.sysloads@[i].0@,
            final(self).side_runner.sideloads@.len() == cmd.sideloads@.len(),
            forall|i: int|
                0 <= i < cmd.sideloads@.len() ==> #[trigger] final(self).side_runner.sideloads@[i]@
                    == cmd.sideloads@[i].0@,
            forall|i: int|
                0 <= i < removed.0@.len() ==> #[trigger] seq_has_name(
                    old(self).side_runner.sysloads@,
                    removed.0@[i]@,
                ) && !seq_has_key(cmd.sysloads@, removed.0@[i]@),
            forall|i: int|
                0 <= i < old(self).side_runner.sysloads@.len() ==> (#[trigger] seq_has_key(
                    cmd.sysloads@,
                    old(self).side_runner.sysloads@[i]@,
                ) || seq_has_name(removed.0@, old(self).side_runner.sysloads@[i]@)),
            forall|i: int|
                0 <= i < removed.1@.len() ==> #[trigger] seq_has_name(
                    old(self).side_runner.sideloads@,
                    removed.1@[i]@,
                ) && !seq_has_key(cmd.sideloads@, removed.1@[i]@),
            forall|i: int|
                0 <= i < old(self).side_runner.sideloads@.len() ==> (#[trigger] seq_has_key(
                    cmd.sideloads@,
                    old(self).side_runner.sideloads@[i]@,
                ) || seq_has_name(removed.1@, old(self).side_runner.sideloads@[i]@)),
    {
        let (new_sys, removed_sys) = replace_loads(&self.side_runner.sysloads, &cmd.sysloads);
        let (new_side, removed_side) = replace_loads(&self.side_runner.sideloads, &cmd.sideloads);
        self.side_runner.sysloads = new_sys;
        self.side_runner.sideloads = new_side;
        (removed_sys, removed_side)
    }
}

/// Whether some pair in `s` has `name` as its key.
pub open spec fn seq_has_key(s: Seq<(String, String)>, name: Seq<char>) -> bool {
    exists|i: int| 0 <= i < s.len() && #[trigger] s[i].0@ == name
}

/// Whether some entry of `s` reads `name`.
pub open spec fn seq_has_name(s: Seq<String>, name: Seq<char>) -> bool {
    exists|i: int| 0 <= i < s.len() && #[trigger] s[i]@ == name
}

/// Computes the new load list (the keys of `target`, in order) and the
/// old names that no longer appear and must be cleaned up.
fn replace_loads(current: &Vec<String>, target: &Vec<(String, String)>) -> (r: (
    Vec<String>,
    Vec<String>,
))
    ensures
        r.0@.len() == target@.len(),
        forall|i: int| 0 <= i < target@.len() ==> #[trigger] r.0@[i]@ == target@[i].0@,
        forall|i: int|
            0 <= i < r.1@.len() ==> #[trigger] seq_has_name(current@, r.1@[i]@) && !seq_has_key(
                target@,
                r.1@[i]@,
            ),
        forall|i: int|
            0 <= i < current@.len() ==> (#[trigger] seq_has_key(target@, current@[i]@)
                || seq_has_name(r.1@, current@[i]@)),
{
    let mut fresh: Vec<String> = Vec::new();
    let mut i: usize = 0;
    while i < target.len()
        invariant
            i <= target@.len(),
            fresh@.len() == i,
            forall|j: int| 0 <= j < i ==> #[trigger] fresh@[j]@ == target@[j].0@,
        decreases target@.len() - i,
    {
        fresh.push(string_copy(&target[i].0));
        i = i + 1;
    }
    let mut removed: Vec<String> = Vec::new();
    let mut k: usize = 0;
    while k < current.len()
        invariant
            k <= current@.len(),
            forall|j: int|
                0 <= j < removed@.len() ==> #[trigger] seq_has_name(current@, removed@[j]@)
                    && !seq_has_key(target@, removed@[j]@),
            forall|j: int|
                0 <= j < k ==> (#[trigger] seq_has_key(target@, current@[j]@) || seq_has_name(
                    removed@,
                    current@[j]@,
                )),
        decreases current@.len() - k,
    {
        let ghost removed0 = removed@;
        let absent = !has_key(target, &current[k]);
        if absent {
            removed.push(string_copy(&current[k]));
            proof {
                assert(current@[k as int]@ == current@[k as int]@);
                assert(seq_has_name(current@, current@[k as int]@));
                assert(removed@[removed@.len() - 1]@ == current@[k as int]@);
                assert(seq_has_name(removed@, current@[k as int]@));
            }
        }
        k = k + 1;
        proof {
            assert forall|j: int| 0 <= j < k implies (#[trigger] seq_has_key(
                target@,
                current@[j]@,
            ) || seq_has_name(removed@, current@[j]@)) by {
                if j < k - 1 {
                    if seq_has_name(removed0, current@[j]@) {
                        let w = choose|i: int|
                            0 <= i < removed0.len() && #[trigger] removed0[i]@ == current@[j]@;
                        assert(removed@[w]@ == current@[j]@);
                        assert(seq_has_name(removed@, current@[j]@));
                    }
                } else {
                    if absent {
                        assert(seq_has_name(removed@, current@[j]@));
                    }
                }
            }
        }
    }
    (fresh, removed)
}

/// A copy of `s` with the same characters.
fn string_copy(s: &String) -> (r: String)
    ensures
        r@ == s@,
{
    String::from_str(s.as_str())
}

/// Whether `target` holds a pair whose key reads like `name`.
fn has_key(target: &Vec<(String, String)>, name: &String) -> (r: bool)
    ensures
        r == seq_has_key(target@, name@),
{
    let mut i: usize = 0;
    while i < target.len()
        invariant
            i <= target@.len(),
            forall|j: int| 0 <= j < i ==> #[trigger] target@[j].0@ != name@,
        decreases target@.len() - i,
    {
        if target[i].0.eq(name) {
            proof {
                assert(seq_has_key(target@, name@));
            }
            return true;
        }
        i = i + 1;
    }
    false
}

// ---------------------------------------------------------------------------
// Service names and cgroup paths.
pub open spec fn work_slice_spec() -> Seq<char> {
    "workload.slice"@
}

/// The cgroup path of a unit inside the workload slice.
pub open spec fn spec_work_cgrp_of(name: Seq<char>) -> Seq<char> {
    work_slice_spec() + "/"@ + name
}

pub fn hashd_bench_svc_name() -> (s: String)
    ensures
        s@ == "rd-hashd-bench.service"@,
{
    String::from_str("rd-hashd-bench.service")
}

pub fn iocost_bench_svc_name() -> (s: String)
    ensures
        s@ == "rd-iocost-bench.service"@,
{
    String::from_str("rd-iocost-bench.service")
}

pub fn hashd_a_svc_name() -> (s: String)
    ensures
        s@ == "rd-hashd-A.service"@,
{
    String::from_str("rd-hashd-A.service")
}

pub fn hashd_b_svc_name() -> (s: String)
    ensures
        s@ == "rd-hashd-B.service"@,
{
    String::from_str("rd-hashd-B.service")
}

fn work_cgrp_of(name: &String) -> (s: String)
    ensures
        s@ == spec_work_cgrp_of(name@),
{
    let mut s = String::from_str("workload.slice");
    s.append("/");
    s.append(name.as_str());
    s
}

/// Whether some entry of the service list bears this unit name.
pub open spec fn svc_listed(r: Seq<(String, String)>, name: Seq<char>) -> bool {
    exists|i: int| 0 <= i < r.len() && (#[trigger] r[i].0@) == name
}

/// The unit names the runner currently owns: the held benchmark handles,
/// the active reference-workload instances and every named side/sysload.
pub open spec fn spec_owned_svc(data: &RunnerData, name: Seq<char>) -> bool {
    ||| (data.bench_hashd is Some && name == "rd-hashd-bench.service"@)
    ||| (data.bench_iocost is Some && name == "rd-iocost-bench.service"@)
    ||| (data.hashd_set.active@[0] && name == "rd-hashd-A.service"@)
    ||| (data.hashd_set.active@[1] && name == "rd-hashd-B.service"@)
    ||| seq_has_name(data.side_runner.sysloads@, name)
    ||| seq_has_name(data.side_runner.sideloads@, name)
}

/// Whether the list already carries a unit of this name.
fn contains_name(r: &Vec<(String, String)>, name: &String) -> (b: bool)
    ensures
        b == svc_listed(r@, name@),
{
    let mut i: usize = 0;
    while i < r.len()
        invariant
            i <= r@.len(),
            forall|j: int| 0 <= j < i ==> (#[trigger] r@[j].0@) != name@,
        decreases r@.len() - i,
    {
        if r[i].0.eq(name) {
            proof {
                assert(svc_listed(r@, name@));
            }
            return true;
        }
        i = i + 1;
    }
    false
}

/// Adds one unit (with its workload cgroup) unless it is already listed,
/// so the list stays a set.
fn push_svc_if_absent(r: &mut Vec<(String, String)>, name: String)
    requires
        forall|i: int, j: int|
            0 <= i < j < old(r)@.len() ==> (#[trigger] old(r)@[i].0@)
                != (#[trigger] old(r)@[j].0@),
        forall|i: int|
            0 <= i < old(r)@.len() ==> (#[trigger] old(r)@[i].1@) == spec_work_cgrp_of(
                old(r)@[i].0@,
            ),
    ensures
        forall|i: int, j: int|
            0 <= i < j < final(r)@.len() ==> (#[trigger] final(r)@[i].0@)
                != (#[trigger] final(r)@[j].0@),
        forall|i: int|
            0 <= i < final(r)@.len() ==> (#[trigger] final(r)@[i].1@) == spec_work_cgrp_of(
                final(r)@[i].0@,
            ),
        forall|nm: Seq<char>|
            #[trigger] svc_listed(final(r)@, nm) == (svc_listed(old(r)@, nm) || nm == name@),
{
    let ghost before = r@;
    if !contains_name(r, &name) {
        let cgrp = work_cgrp_of(&name);
        let ghost nv = name@;
        r.push((name, cgrp));
        proof {
            assert(forall|i: int| 0 <= i < before.len() ==> #[trigger] r@[i] == before[i]);
            assert(r@[before.len() as int].0@ == nv);
            assert forall|nm: Seq<char>| #[trigger] svc_listed(r@, nm) == (svc_listed(before, nm)
                || nm == nv) by {
                if svc_listed(before, nm) {
                    let w = choose|i: int| 0 <= i < before.len() && (#[trigger] before[i].0@) == nm;
                    assert(r@[w].0@ == nm);
                } else if nm == nv {
                    assert(r@[before.len() as int].0@ == nm);
                } else {
                    if svc_listed(r@, nm) {
                        let w = choose|i: int| 0 <= i < r@.len() && (#[trigger] r@[i].0@) == nm;
                        assert(w < before.len() ==> before[w].0@ == nm);
                    }
                }
            }
        }
    } else {
        proof {
            assert forall|nm: Seq<char>| #[trigger] svc_listed(r@, nm) == (svc_listed(before, nm)
                || nm == name@) by {}
        }
    }
}

impl RunnerData {
    /// Every service the runner currently owns, as `(unit name, cgroup)`
    /// pairs for the usage sampler: the benchmark handles, the active
    /// reference-workload instances and the side/sysloads, all under the
    /// workload slice. No unit is listed twice: exactly the owned names
    /// appear, each with its own cgroup path.
    pub fn all_svcs(&self) -> (r: Vec<(String, String)>)
        ensures
            forall|i: int, j: int|
                0 <= i < j < r@.len() ==> (#[trigger] r@[i].0@) != (#[trigger] r@[j].0@),
            forall|i: int| 0 <= i < r@.len() ==> #[trigger] r@[i].1@ == spec_work_cgrp_of(r@[i].0@),
            forall|nm: Seq<char>| #[trigger] svc_listed(r@, nm) == spec_owned_svc(self, nm),
    {
        let mut r: Vec<(String, String)> = Vec::new();
        if self.bench_hashd.is_some() {
            push_svc_if_absent(&mut r, hashd_bench_svc_name());
        }
        if self.bench_iocost.is_some() {
            push_svc_if_absent(&mut r, iocost_bench_svc_name());
        }
        if self.hashd_set.active[0] {
            push_svc_if_absent(&mut r, hashd_a_svc_name());
        }
        if self.hashd_set.active[1] {
            push_svc_if_absent(&mut r, hashd_b_svc_name());
        }
        let ghost fixed = r@;
        proof {
            assert forall|nm: Seq<char>| #[trigger] svc_listed(fixed, nm) == ((self.bench_hashd
                is Some && nm == "rd-hashd-bench.service"@) || (self.bench_iocost is Some && nm
                == "rd-iocost-bench.service"@) || (self.hashd_set.active@[0] && nm
                == "rd-hashd-A.service"@) || (self.hashd_set.active@[1] && nm
                == "rd-hashd-B.service"@)) by {}
        }
        let mut i: usize = 0;
        while i < self.side_runner.sysloads.len()
            invariant
                i <= self.side_runner.sysloads@.len(),
                forall|x: int, y: int|
                    0 <= x < y < r@.len() ==> (#[trigger] r@[x].0@) != (#[trigger] r@[y].0@),
                forall|x: int|
                    0 <= x < r@.len() ==> (#[trigger] r@[x].1@) == spec_work_cgrp_of(r@[x].0@),
                forall|nm: Seq<char>|
                    #[trigger] svc_listed(r@, nm) == (svc_listed(fixed, nm) || seq_has_name(
                        self.side_runner.sysloads@.take(i as int),
                        nm,
                    )),
            decreases self.side_runner.sysloads@.len() - i,
        {
            let name = string_copy(&self.side_runner.sysloads[i]);
            push_svc_if_absent(&mut r, name);
            i = i + 1;
            proof {
                assert forall|nm: Seq<char>| #[trigger] seq_has_name(
                    self.side_runner.sysloads@.take(i as int),
                    nm,
                ) == (seq_has_name(self.side_runner.sysloads@.take(i - 1), nm) || nm == self
                    .side_runner
                    .sysloads@[i - 1]@) by {
                    let t = self.side_runner.sysloads@.take(i as int);
                    if seq_has_name(t, nm) {
                        let w = choose|x: int| 0 <= x < t.len() && (#[trigger] t[x]@) == nm;
                        if w < i - 1 {
                            assert(self.side_runner.sysloads@.take(i - 1)[w]@ == nm);
                        }
                    }
                    if seq_has_name(self.side_runner.sysloads@.take(i - 1), nm) {
                        let w = choose|x: int|
                            0 <= x < i - 1 && (#[trigger] self.side_runner.sysloads@.take(
                                i - 1,
                            )[x]@) == nm;
                        assert(t[w]@ == nm);
                    }
                    if nm == self.side_runner.sysloads@[i - 1]@ {
                        assert(t[i - 1]@ == nm);
                    }
                }
            }
        }
        proof {
            assert(self.side_runner.sysloads@.take(self.side_runner.sysloads@.len() as int)
                =~= self.side_runner.sysloads@);
        }
        let ghost with_sys = r@;
        let mut j: usize = 0;
        while j < self.side_runner.sideloads.len()
            invariant
                j <= self.side_runner.sideloads@.len(),
                forall|x: int, y: int|
                    0 <= x < y < r@.len() ==> (#[trigger] r@[x].0@) != (#[trigger] r@[y].0@),
                forall|x: int|
                    0 <= x < r@.len() ==> (#[trigger] r@[x].1@) == spec_work_cgrp_of(r@[x].0@),
                forall|nm: Seq<char>|
                    #[trigger] svc_listed(r@, nm) == (svc_listed(with_sys, nm) || seq_has_name(
                        self.side_runner.sideloads@.take(j as int),
                        nm,
                    )),
            decreases self.side_runner.sideloads@.len() - j,
        {
            let name = string_copy(&self.side_runner.sideloads[j]);
            push_svc_if_absent(&mut r, name);
            j = j + 1;
            proof {
                assert forall|nm: Seq<char>| #[trigger] seq_has_name(
                    self.side_runner.sideloads@.take(j as int),
                    nm,
                ) == (seq_has_name(self.side_runner.sideloads@.take(j - 1), nm) || nm == self
                    .side_runner
                    .sideloads@[j - 1]@) by {
                    let t = self.side_runner.sideloads@.take(j as int);
                    if seq_has_name(t, nm) {
                        let w = choose|x: int| 0 <= x < t.len() && (#[trigger] t[x]@) == nm;
                        if w < j - 1 {
                            assert(self.side_runner.sideloads@.take(j - 1)[w]@ == nm);
                        }
                    }
                    if seq_has_name(self.side_runner.sideloads@.take(j - 1), nm) {
                        let w = choose|x: int|
                            0 <= x < j - 1 && (#[trigger] self.side_runner.sideloads@.take(
                                j - 1,
                            )[x]@) == nm;
                        assert(t[w]@ == nm);
                    }
                    if nm == self.side_runner.sideloads@[j - 1]@ {
                        assert(t[j - 1]@ == nm);
                    }
                }
            }
        }
        proof {
            assert(self.side_runner.sideloads@.take(self.side_runner.sideloads@.len() as int)
                =~= self.side_runner.sideloads@);
        }
        r
    }
}

} // verus!
