use resctl::runner::{
    reload_gated, should_health_check, swappiness_plan, zswap_plan, CmdDecision, ReloadObs,
    RunnerCfg, RunnerData, StepIo,
};
use resctl::types::{
    BenchKnobs, Cmd, HashdCmd, HashdKnobs, IoCostKnobs, IoCostModelParams, IoCostQoSParams,
    RunnerState, SideloaderCmd, SliceKnobs, DisableSeqKnobs, UnitState,
};

const GIB: u64 = 1 << 30;

fn cfg() -> RunnerCfg {
    RunnerCfg {
        force_running: false,
        enforce_mem: true,
        enforce_oomd: true,
        enforce_io: true,
        enforce_all: true,
        bypass: false,
        sr_swappiness: 60,
        sr_zswap_enabled: true,
        total_memory: 16 * GIB,
    }
}

fn hashd_cmd() -> HashdCmd {
    HashdCmd { active: false, load: 1000, log_bps: 0 }
}

fn cmd() -> Cmd {
    Cmd {
        cmd_seq: 1,
        bench_hashd_seq: 0,
        bench_iocost_seq: 0,
        bench_hashd_balloon_size: 0,
        bench_hashd_args: Vec::new(),
        hashd: [hashd_cmd(), hashd_cmd()],
        sysloads: Vec::new(),
        sideloads: Vec::new(),
        sideloader: SideloaderCmd { cpu_headroom: 200 },
        balloon_ratio: 0,
        swappiness: None,
        zswap_enabled: None,
    }
}

fn bench() -> BenchKnobs {
    BenchKnobs {
        hashd_seq: 0,
        iocost_seq: 0,
        hashd: HashdKnobs { mem_size: 0, mem_profile: 16 },
        iocost: IoCostKnobs {
            model: IoCostModelParams {
                rbps: 0,
                rseqiops: 0,
                rrandiops: 0,
                wbps: 0,
                wseqiops: 0,
                wrandiops: 0,
            },
            qos: IoCostQoSParams { rpct: 0, rlat: 0, wpct: 0, wlat: 0, min: 0, max: 0 },
        },
    }
}

fn ok_io() -> StepIo {
    StepIo { start_ok: true, balloon_ok: true, workloads_ok: true }
}

#[test]
fn iocost_bench_runs_and_completes() {
    // bench at zero, the command requests the IO-cost benchmark
    let mut data = RunnerData::new();
    let mut c = cmd();
    c.bench_iocost_seq = 1;
    let b = bench();

    let d = data.decide_cmd(&c, &b, &cfg());
    assert!(matches!(d, CmdDecision::StartIoCostBench));
    let out = data.commit_cmd(&c, &cfg(), &d, &ok_io());
    assert!(matches!(data.state, RunnerState::BenchIoCost));
    assert!(data.bench_iocost.is_some());
    assert!(!out.fatal && !out.repeat);

    // the unit exits: the sequence is persisted and the runner goes Idle
    let mut b2 = b;
    let comp = data.check_completions(&c, &mut b2, UnitState::Exited, &b.hashd, &b.iocost);
    assert_eq!(b2.iocost_seq, 1);
    assert!(comp.save_bench);
    assert!(comp.apply_iocost);
    assert!(matches!(data.state, RunnerState::Idle));
    assert!(data.bench_iocost.is_none());
    assert!(data.bench_hashd.is_none());
}

#[test]
fn hashd_bench_sizes_balloon_and_stops_oomd() {
    let mut data = RunnerData::new();
    let mut c = cmd();
    c.bench_hashd_seq = 1;
    c.bench_hashd_balloon_size = 4 * GIB;
    let mut b = bench();
    b.iocost_seq = 1;

    let d = data.decide_cmd(&c, &b, &cfg());
    assert!(matches!(d, CmdDecision::StartHashdBench { .. }));
    let out = data.commit_cmd(&c, &cfg(), &d, &ok_io());
    assert_eq!(data.balloon.size, 4 * GIB);
    assert!(!data.oomd_running);
    assert!(matches!(data.state, RunnerState::BenchHashd));
    assert!(data.bench_hashd.is_some());
    assert!(!out.fatal);
}

#[test]
fn hashd_bench_requires_iocost_first() {
    let mut data = RunnerData::new();
    let mut c = cmd();
    c.bench_hashd_seq = 1;
    let b = bench();
    let d = data.decide_cmd(&c, &b, &cfg());
    assert!(matches!(d, CmdDecision::WarnBenchOrder));
    data.commit_cmd(&c, &cfg(), &d, &ok_io());
    assert!(matches!(data.state, RunnerState::Idle));
    assert!(data.warned_bench);
}

#[test]
fn idle_to_running_applies_workloads_and_balloon() {
    let mut data = RunnerData::new();
    let mut c = cmd();
    c.bench_hashd_seq = 1;
    c.hashd[0].active = true;
    c.hashd[0].load = 600;
    c.balloon_ratio = 250;
    let mut b = bench();
    b.hashd_seq = 1;
    b.iocost_seq = 1;

    // first pass: transition to Running, another pass requested
    let d = data.decide_cmd(&c, &b, &cfg());
    assert!(matches!(d, CmdDecision::GoRunning));
    let out = data.commit_cmd(&c, &cfg(), &d, &ok_io());
    assert!(out.repeat);
    assert!(matches!(data.state, RunnerState::Running));

    // second pass: workloads applied, balloon at a quarter of memory
    let d2 = data.decide_cmd(&c, &b, &cfg());
    assert!(matches!(d2, CmdDecision::ApplyWorkloads));
    let out2 = data.commit_cmd(&c, &cfg(), &d2, &ok_io());
    assert!(!out2.fatal);
    assert!(data.hashd_set.active[0]);
    assert!(!data.hashd_set.active[1]);
    assert_eq!(data.balloon.size, 4 * GIB);
}

#[test]
fn bench_cancellation_tears_down() {
    let mut data = RunnerData::new();
    let mut c = cmd();
    c.bench_iocost_seq = 1;
    let b = bench();
    let d = data.decide_cmd(&c, &b, &cfg());
    data.commit_cmd(&c, &cfg(), &d, &ok_io());
    assert!(matches!(data.state, RunnerState::BenchIoCost));

    // the user withdraws the request
    let mut b2 = b;
    b2.iocost_seq = 1;
    let d2 = data.decide_cmd(&c, &b2, &cfg());
    assert!(matches!(d2, CmdDecision::TearDown));
    data.commit_cmd(&c, &cfg(), &d2, &ok_io());
    assert!(matches!(data.state, RunnerState::Idle));
    assert!(data.bench_iocost.is_none());
}

#[test]
fn failed_start_keeps_state() {
    let mut data = RunnerData::new();
    let mut c = cmd();
    c.bench_iocost_seq = 1;
    let b = bench();
    let d = data.decide_cmd(&c, &b, &cfg());
    let io = StepIo { start_ok: false, balloon_ok: true, workloads_ok: true };
    data.commit_cmd(&c, &cfg(), &d, &io);
    assert!(matches!(data.state, RunnerState::Idle));
    assert!(data.bench_iocost.is_none());
}

#[test]
fn ack_follows_command_sequence() {
    let mut data = RunnerData::new();
    let mut c = cmd();
    c.cmd_seq = 7;
    data.write_ack(&c);
    assert_eq!(data.cmd_ack_seq, 7);
    // a later command never lowers the acknowledgement
    c.cmd_seq = 9;
    data.write_ack(&c);
    assert_eq!(data.cmd_ack_seq, 9);
    assert!(data.cmd_ack_seq <= c.cmd_seq);
}

#[test]
fn become_idle_releases_everything() {
    let mut data = RunnerData::new();
    let mut c = cmd();
    c.bench_iocost_seq = 1;
    let b = bench();
    let d = data.decide_cmd(&c, &b, &cfg());
    data.commit_cmd(&c, &cfg(), &d, &ok_io());
    data.become_idle();
    assert!(data.bench_hashd.is_none());
    assert!(data.bench_iocost.is_none());
    assert!(!data.hashd_set.active[0] && !data.hashd_set.active[1]);
    assert_eq!(data.side_runner.sysloads.len(), 0);
    assert_eq!(data.side_runner.sideloads.len(), 0);
    assert!(matches!(data.state, RunnerState::Idle));
}

#[test]
fn swappiness_plan_caps_and_warns() {
    let c = cfg();
    let r = swappiness_plan(60, Some(300), &c);
    assert_eq!(r.write, Some(200));
    assert!(!r.warn);

    let r2 = swappiness_plan(60, Some(40), &c);
    assert_eq!(r2.write, Some(40));
    assert!(r2.warn);

    let r3 = swappiness_plan(60, None, &c);
    assert_eq!(r3.write, None);

    let mut c2 = c;
    c2.enforce_mem = false;
    let r4 = swappiness_plan(60, Some(40), &c2);
    assert_eq!(r4.write, None);
}

#[test]
fn zswap_plan_writes_on_difference() {
    let c = cfg();
    let r = zswap_plan(false, None, &c);
    assert_eq!(r.write, Some(true));
    let r2 = zswap_plan(true, Some(true), &c);
    assert_eq!(r2.write, None);
}

#[test]
fn reload_suppressed_during_benchmarks() {
    assert!(!reload_gated(RunnerState::Idle));
    assert!(!reload_gated(RunnerState::Running));
    assert!(reload_gated(RunnerState::BenchHashd));
    assert!(reload_gated(RunnerState::BenchIoCost));
}

#[test]
fn reload_plan_derives_applies() {
    let mut data = RunnerData::new();
    let obs = ReloadObs {
        re_bench: true,
        re_slice: false,
        re_side: false,
        re_oomd: false,
        re_cmd: false,
        sideloader_running: true,
        controllers_disabled: false,
        headroom_changed: false,
    };
    let plan = data.plan_reload(&obs, &cfg());
    assert!(plan.apply_iocost);
    assert!(plan.apply_slices);
    assert!(plan.apply_oomd);
    assert!(!plan.stop_sideloader);
    assert!(!plan.apply_sideloader);
    assert!(plan.changed);
    assert!(!data.force_apply);
}

#[test]
fn reload_plan_headroom_change_reapplies_sideloader() {
    let mut data = RunnerData::new();
    let obs = ReloadObs {
        re_bench: false,
        re_slice: false,
        re_side: false,
        re_oomd: false,
        re_cmd: true,
        sideloader_running: true,
        controllers_disabled: false,
        headroom_changed: true,
    };
    let plan = data.plan_reload(&obs, &cfg());
    assert!(plan.apply_sideloader);
    assert!(!plan.apply_iocost);
    assert!(plan.changed);
}

#[test]
fn health_check_timing() {
    assert!(should_health_check(10_000, 0, false, false));
    assert!(!should_health_check(9_999, 0, false, false));
    assert!(should_health_check(0, 0, true, false));
    assert!(!should_health_check(10_000, 0, true, true));
}

#[test]
fn all_svcs_lists_owned_services() {
    let mut data = RunnerData::new();
    assert_eq!(data.all_svcs().len(), 0);

    let mut c = cmd();
    c.bench_iocost_seq = 1;
    let b = bench();
    let d = data.decide_cmd(&c, &b, &cfg());
    data.commit_cmd(&c, &cfg(), &d, &ok_io());
    let svcs = data.all_svcs();
    assert_eq!(svcs.len(), 1);
    assert_eq!(svcs[0].0, "rd-iocost-bench.service");
    assert_eq!(svcs[0].1, "workload.slice/rd-iocost-bench.service");
}

#[test]
fn apply_sides_reports_removed_loads() {
    let mut data = RunnerData::new();
    let mut c1 = cmd();
    c1.sysloads = vec![
        (String::from("build"), String::from("build-linux-1x")),
        (String::from("hog"), String::from("mem-hog-1x")),
    ];
    data.apply_sides(&c1);
    assert_eq!(data.side_runner.sysloads.len(), 2);

    let mut c2 = cmd();
    c2.sysloads = vec![(String::from("hog"), String::from("mem-hog-1x"))];
    let (removed_sys, removed_side) = data.apply_sides(&c2);
    assert_eq!(removed_sys, vec![String::from("build")]);
    assert_eq!(removed_side.len(), 0);
    assert_eq!(data.side_runner.sysloads, vec![String::from("hog")]);
}

#[test]
fn controllers_disabled_by_sequence() {
    let k = SliceKnobs {
        disable_seqs: DisableSeqKnobs { cpu: 5, mem: 0, io: 0 },
        work_mem_low: 0,
    };
    assert!(k.controlls_disabled(5));
    assert!(!k.controlls_disabled(6));
}

#[test]
fn owned_services_are_listed_once() {
    let mut data = RunnerData::new();
    let mut c = cmd();
    c.bench_iocost_seq = 1;
    let b = bench();
    let d = data.decide_cmd(&c, &b, &cfg());
    data.commit_cmd(&c, &cfg(), &d, &ok_io());
    // a sysload that shadows the benchmark unit's name is not listed twice
    let mut c2 = cmd();
    c2.sysloads = vec![
        (String::from("rd-iocost-bench.service"), String::from("x")),
        (String::from("hog"), String::from("mem-hog-1x")),
    ];
    data.apply_sides(&c2);
    let svcs = data.all_svcs();
    assert_eq!(svcs.len(), 2);
    let names: Vec<&str> = svcs.iter().map(|p| p.0.as_str()).collect();
    assert!(names.contains(&"rd-iocost-bench.service"));
    assert!(names.contains(&"hog"));
}

#[test]
fn force_apply_survives_gated_reloads() {
    let mut data = RunnerData::new();
    data.force_apply = true;
    data.state = RunnerState::BenchIoCost;
    data.bench_iocost = Some(resctl::runner::SvcHandle { kind: resctl::runner::BenchKind::IoCost });
    let obs = ReloadObs {
        re_bench: true,
        re_slice: true,
        re_side: false,
        re_oomd: false,
        re_cmd: false,
        sideloader_running: false,
        controllers_disabled: false,
        headroom_changed: false,
    };
    // while the benchmark runs nothing is re-applied and the pending
    // force-apply is kept for later
    let plan = data.plan_reload(&obs, &cfg());
    assert!(!plan.apply_iocost && !plan.apply_slices && !plan.changed);
    assert!(data.force_apply);
    // once idle again, the pending force-apply fires and is consumed
    data.state = RunnerState::Idle;
    let obs2 = ReloadObs { re_bench: false, re_slice: false, ..obs };
    let plan2 = data.plan_reload(&obs2, &cfg());
    assert!(plan2.apply_iocost && plan2.apply_slices);
    assert!(!data.force_apply);
}
