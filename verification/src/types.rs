//! The data model shared by the reconciler, the report pipeline and the
//! QoS sweep: runner and unit states, the externally written command, the
//! bench knob file, and slice knobs.
//!
//! Fractional quantities (loads, ratios, vrates, percentages) are carried
//! in thousandths; latencies in microseconds; sizes in bytes.
use vstd::prelude::*;

verus! {

/// The reconciler's state: Idle until the reference workload has been
/// benchmarked, Running while workloads are applied, or inside one of the
/// two benchmarks.
#[derive(Clone, Copy, Debug, PartialEq, Eq, Structural)]
pub enum RunnerState {
    Idle,
    Running,
    BenchHashd,
    BenchIoCost,
}

/// What the external supervisor reports of a unit.
#[derive(Clone, Copy, Debug, PartialEq, Eq, Structural)]
pub enum UnitState {
    Running,
    Exited,
    Failed,
    Stopped,
    Other,
}

/// Per-instance reference-workload parameters carried in the command file.
#[derive(Clone, Copy, Debug, PartialEq, Eq, Structural)]
pub struct HashdCmd {
    /// whether this instance should run
    pub active: bool,
    /// target load in thousandths of full load
    pub load: u64,
    /// log write bandwidth in bytes per second
    pub log_bps: u64,
}

/// The sideloader section of the command file.
#[derive(Clone, Copy, Debug, PartialEq, Eq, Structural)]
pub struct SideloaderCmd {
    /// CPU headroom in thousandths
    pub cpu_headroom: u64,
}

/// The externally mutated command file: sequence numbers request work, the
/// rest parameterises it.
#[derive(Clone, Debug)]
pub struct Cmd {
    pub cmd_seq: u64,
    pub bench_hashd_seq: u64,
    pub bench_iocost_seq: u64,
    pub bench_hashd_balloon_size: u64,
    pub bench_hashd_args: Vec<String>,
    pub hashd: [HashdCmd; 2],
    /// name -> definition id
    pub sysloads: Vec<(String, String)>,
    /// name -> definition id
    pub sideloads: Vec<(String, String)>,
    pub sideloader: SideloaderCmd,
    /// balloon size as a fraction of total memory, in thousandths
    pub balloon_ratio: u64,
    pub swappiness: Option<u32>,
    pub zswap_enabled: Option<bool>,
}

/// IO cost model knobs as the kernel takes them.
#[derive(Clone, Copy, Debug, PartialEq, Eq, Structural)]
pub struct IoCostModelParams {
    pub rbps: u64,
    pub rseqiops: u64,
    pub rrandiops: u64,
    pub wbps: u64,
    pub wseqiops: u64,
    pub wrandiops: u64,
}

/// IO cost QoS knobs: percentiles in thousandths of a percent point,
/// latencies in microseconds, vrate bounds in thousandths.
#[derive(Clone, Copy, Debug, PartialEq, Eq, Structural)]
pub struct IoCostQoSParams {
    pub rpct: u64,
    pub rlat: u64,
    pub wpct: u64,
    pub wlat: u64,
    pub min: u64,
    pub max: u64,
}

#[derive(Clone, Copy, Debug, PartialEq, Eq, Structural)]
pub struct IoCostKnobs {
    pub model: IoCostModelParams,
    pub qos: IoCostQoSParams,
}

/// Reference-workload knobs produced by its benchmark.
#[derive(Clone, Copy, Debug, PartialEq, Eq, Structural)]
pub struct HashdKnobs {
    pub mem_size: u64,
    pub mem_profile: u32,
}

/// The bench knob file: what the benchmarks have produced so far. A
/// request sequence in `Cmd` above the matching sequence here means "start
/// this benchmark"; equality means "stable".
#[derive(Clone, Copy, Debug, PartialEq, Eq, Structural)]
pub struct BenchKnobs {
    pub hashd_seq: u64,
    pub iocost_seq: u64,
    pub hashd: HashdKnobs,
    pub iocost: IoCostKnobs,
}

/// Per-controller disable sequence numbers from the slice knob file: a
/// controller is disabled while its sequence is at or above the instance
/// sequence.
#[derive(Clone, Copy, Debug, PartialEq, Eq, Structural)]
pub struct DisableSeqKnobs {
    pub cpu: u64,
    pub mem: u64,
    pub io: u64,
}

/// Slice knobs that the reconciler reads.
#[derive(Clone, Copy, Debug, PartialEq, Eq, Structural)]
pub struct SliceKnobs {
    pub disable_seqs: DisableSeqKnobs,
    /// memory.low of the workload slice, bytes
    pub work_mem_low: u64,
}

impl SliceKnobs {
    /// Whether any controller is forced off for the given instance.
    pub fn controlls_disabled(&self, instance_seq: u64) -> (r: bool)
        ensures
            r == (self.disable_seqs.cpu >= instance_seq || self.disable_seqs.mem >= instance_seq
                || self.disable_seqs.io >= instance_seq),
    {
        self.disable_seqs.cpu >= instance_seq || self.disable_seqs.mem >= instance_seq
            || self.disable_seqs.io >= instance_seq
    }
}

/// Which resource controllers are in effect, as reported per second.
#[derive(Clone, Copy, Debug, PartialEq, Eq, Structural)]
pub struct ResCtlReport {
    pub cpu: bool,
    pub mem: bool,
    pub io: bool,
}

/// The resctl report bits: a controller counts as enabled exactly while its
/// disable sequence is below the instance sequence.
pub fn resctl_report(dseqs: &DisableSeqKnobs, instance_seq: u64) -> (r: ResCtlReport)
    ensures
        r.cpu == (dseqs.cpu < instance_seq),
        r.mem == (dseqs.mem < instance_seq),
        r.io == (dseqs.io < instance_seq),
{
    ResCtlReport { cpu: dseqs.cpu < instance_seq, mem: dseqs.mem < instance_seq, io: dseqs.io < instance_seq }
}

} // verus!
