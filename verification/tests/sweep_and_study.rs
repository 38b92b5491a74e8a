use resctl::qos::IoCostQoSOvr;
use resctl::side_defs::SideloadDefs;
use resctl::study::{adjusted_mof, format_qos_result_lines, pct_value, sat_mean, sort_u64, study_one, IoCostQoSResult, IoCostQoSResultRun};
use resctl::sweep::{
    after_point_failure, build_record_run, check_result_qos, find_matching_rec_run,
    plan_dispositions, prot_size_range, storage_retry_step, sweep_gate, FailDisposition,
    IoCostQoSRecord, IoCostQoSRecordRun, MemHogTuneRec, ProtectionRecord, RetryStep,
    RunDisposition, StorageMemInfo, StorageRecord, StorageResult,
};
use resctl::types::{BenchKnobs, HashdKnobs, IoCostKnobs, IoCostModelParams, IoCostQoSParams};

fn qos(min: u64) -> IoCostQoSParams {
    IoCostQoSParams { rpct: 0, rlat: 0, wpct: 0, wlat: 0, min, max: min }
}

fn point(v: u64) -> IoCostQoSOvr {
    let mut o = IoCostQoSOvr::default();
    o.min = Some(v);
    o.max = Some(v);
    o
}

fn rec_run(v: u64) -> IoCostQoSRecordRun {
    build_record_run(
        100,
        200,
        &point(v),
        &qos(v),
        &StorageRecord { mem: StorageMemInfo { profile: 16, share: 1_000 } },
        &ProtectionRecord { tune: None },
    )
}

fn record(runs: Vec<Option<IoCostQoSRecordRun>>, inc: Vec<IoCostQoSRecordRun>) -> IoCostQoSRecord {
    IoCostQoSRecord {
        base_model: IoCostModelParams {
            rbps: 1,
            rseqiops: 2,
            rrandiops: 3,
            wbps: 4,
            wseqiops: 5,
            wrandiops: 6,
        },
        base_qos: qos(0),
        mem_profile: 16,
        runs,
        dither_dist: None,
        inc_runs: inc,
    }
}

fn bench_matching() -> BenchKnobs {
    BenchKnobs {
        hashd_seq: 1,
        iocost_seq: 1,
        hashd: HashdKnobs { mem_size: 0, mem_profile: 16 },
        iocost: IoCostKnobs {
            model: IoCostModelParams {
                rbps: 1,
                rseqiops: 2,
                rrandiops: 3,
                wbps: 4,
                wseqiops: 5,
                wrandiops: 6,
            },
            qos: qos(0),
        },
    }
}

#[test]
fn prior_record_matches_same_configuration() {
    let rec = record(vec![Some(rec_run(10_000))], Vec::new());
    assert!(rec.prev_matches(16, &bench_matching()));
    // a different memory profile does not match
    assert!(!rec.prev_matches(8, &bench_matching()));
    // a different base model does not match
    let mut other = bench_matching();
    other.iocost.model.rbps = 99;
    assert!(!rec.prev_matches(16, &other));
    // an empty record matches nothing
    let empty = record(Vec::new(), Vec::new());
    assert!(!empty.prev_matches(16, &bench_matching()));
}

#[test]
fn incremental_runs_seed_matching() {
    let rec = record(Vec::new(), vec![rec_run(10_000)]);
    assert!(rec.prev_matches(16, &bench_matching()));
}

#[test]
fn matching_run_is_found_across_both_lists() {
    let rec = record(vec![Some(rec_run(10_000)), None], vec![rec_run(20_000)]);
    let hit = find_matching_rec_run(&point(20_000), &rec).expect("incremental hit");
    assert_eq!(hit.ovr, point(20_000));
    let hit2 = find_matching_rec_run(&point(10_000), &rec).expect("finished hit");
    assert_eq!(hit2.ovr, point(10_000));
    assert!(find_matching_rec_run(&point(30_000), &rec).is_none());
}

#[test]
fn dispositions_reuse_skip_or_run() {
    let rec = record(vec![Some(rec_run(10_000))], Vec::new());
    let mut skipped = point(30_000);
    skipped.skip = true;
    let runs = vec![point(10_000), skipped, point(20_000)];
    let (ds, nr) = plan_dispositions(&runs, &rec);
    assert_eq!(
        ds,
        vec![RunDisposition::Reuse, RunDisposition::Skip, RunDisposition::Run]
    );
    assert_eq!(nr, 1);
}

#[test]
fn sweep_gate_refuses_mismatched_partial_reuse() {
    assert!(sweep_gate(0, false, 6).is_ok());
    assert!(sweep_gate(3, true, 6).is_ok());
    assert!(sweep_gate(6, false, 6).is_ok());
    assert!(sweep_gate(3, false, 6).is_err());
}

#[test]
fn qos_divergence_is_a_hard_error() {
    assert!(check_result_qos(&None, &Some(qos(10))).is_ok());
    assert!(check_result_qos(&Some(qos(10)), &Some(qos(10))).is_ok());
    assert!(check_result_qos(&Some(qos(10)), &Some(qos(20))).is_err());
    assert!(check_result_qos(&Some(qos(10)), &None).is_err());
}

#[test]
fn storage_retry_respects_budget_and_exit() {
    assert_eq!(storage_retry_step(1, 2, false), RetryStep::Retry);
    assert_eq!(storage_retry_step(2, 2, false), RetryStep::Retry);
    assert_eq!(storage_retry_step(3, 2, false), RetryStep::GiveUp);
    assert_eq!(storage_retry_step(1, 2, true), RetryStep::GiveUp);
}

#[test]
fn protection_probes_below_share_up_to_probed_size() {
    let rec = StorageRecord { mem: StorageMemInfo { profile: 16, share: 1_000 } };
    let res = StorageResult { mem_size: 4_096, mem_usage: 0, mem_offload_factor: 0 };
    assert_eq!(prot_size_range(&rec, &res), (800, 4_096));
}

#[test]
fn record_run_keeps_qos_only_when_on() {
    let on = rec_run(10_000);
    assert_eq!(on.qos, Some(qos(10_000)));
    let mut off_ovr = IoCostQoSOvr::default();
    off_ovr.off = true;
    let off = build_record_run(
        1,
        2,
        &off_ovr,
        &qos(5),
        &StorageRecord { mem: StorageMemInfo { profile: 16, share: 0 } },
        &ProtectionRecord { tune: None },
    );
    assert_eq!(off.qos, None);
}

#[test]
fn sorting_and_percentiles() {
    assert_eq!(sort_u64(&vec![3, 1, 2]), vec![1, 2, 3]);
    assert_eq!(sort_u64(&Vec::new()), Vec::<u64>::new());
    let sorted = vec![10u64, 20, 30, 40];
    // rank (3 * 50 + 50) / 100 = 2
    assert_eq!(pct_value(&sorted, 50), 30);
    assert_eq!(pct_value(&sorted, 0), 10);
    assert_eq!(pct_value(&sorted, 100), 40);
    assert_eq!(sat_mean(&vec![1, 2, 3]), 2);
    assert_eq!(sat_mean(&Vec::new()), 0);
}

#[test]
fn adjusted_offload_factor_from_final_size() {
    let prot = ProtectionRecord {
        tune: Some(MemHogTuneRec { size_min: 1, size_max: 10, final_size: Some(500) }),
    };
    let res = StorageResult { mem_size: 0, mem_usage: 1_000, mem_offload_factor: 2_000 };
    let (size, amof, delta) = adjusted_mof(&prot, &res);
    assert_eq!(size, Some(500));
    assert_eq!(amof, Some(500));
    assert_eq!(delta, Some(1_500));

    let none = ProtectionRecord { tune: None };
    assert_eq!(adjusted_mof(&none, &res), (None, None, None));
}

#[test]
fn study_one_assembles_vrate_statistics() {
    let recr = rec_run(10_000);
    let res = StorageResult { mem_size: 0, mem_usage: 1_000, mem_offload_factor: 2_000 };
    let samples = vec![40_000u64, 60_000, 50_000];
    let pcts = vec![0u64, 50, 100];
    let out = study_one(&recr, &res, &samples, &pcts, (3, 3));
    assert_eq!(out.vrate_mean, 50_000);
    assert_eq!(out.vrate, vec![(0, 40_000), (50, 50_000), (100, 60_000)]);
    assert_eq!(out.nr_reports, (3, 3));
    assert_eq!(out.stor, res);
}

#[test]
fn side_definitions_table() {
    let defs = SideloadDefs::default();
    assert_eq!(defs.defs.len(), 21);
    assert_eq!(defs.defs[0].0, "build-linux-half");
    assert_eq!(defs.defs[0].1.args, vec!["build-linux.sh", "allmodconfig", "1", "2"]);
    assert_eq!(defs.defs[20].0, "inodesteal-test");
    for (_, spec) in defs.defs.iter() {
        assert_eq!(spec.frozen_exp, 30);
        assert!(!spec.args.is_empty());
    }
    assert!(defs.get(&String::from("mem-hog-1x")).is_some());
    assert!(defs.get(&String::from("no-such-load")).is_none());
    assert!(SideloadDefs::preamble().contains("frozen_exp"));
}

#[test]
fn record_finalizes_with_padding() {
    let mut rec = record(vec![Some(rec_run(10_000))], Vec::new());
    rec.append_inc_run(rec_run(20_000));
    assert_eq!(rec.inc_runs.len(), 1);
    rec.finalize(3);
    assert_eq!(rec.runs.len(), 3);
    assert!(rec.runs[0].is_some());
    assert!(rec.runs[1].is_none());
    assert!(rec.runs[2].is_none());
    assert_eq!(rec.inc_runs.len(), 0);
}

#[test]
fn point_failure_disposition() {
    assert_eq!(after_point_failure(true, false), FailDisposition::RecordSkip);
    assert_eq!(after_point_failure(true, true), FailDisposition::Abort);
    assert_eq!(after_point_failure(false, false), FailDisposition::Abort);
}

#[test]
fn result_lines_render_fixed_point() {
    let run = IoCostQoSResultRun {
        stor: StorageResult { mem_size: 0, mem_usage: 1, mem_offload_factor: 1_250 },
        prot: ProtectionRecord { tune: None },
        adjusted_mem_size: None,
        adjusted_mem_offload_factor: Some(1_005),
        adjusted_mem_offload_delta: Some(245),
        vrate: Vec::new(),
        vrate_mean: 50_000,
        nr_reports: (0, 0),
    };
    let res = IoCostQoSResult { runs: vec![Some(run), None] };
    let lines = format_qos_result_lines(&res);
    assert_eq!(lines, vec![String::from("1.250  1.005  50.000"), String::from("SKIP")]);

    let failed = IoCostQoSResultRun {
        stor: StorageResult { mem_size: 0, mem_usage: 1, mem_offload_factor: 2_000 },
        prot: ProtectionRecord { tune: None },
        adjusted_mem_size: None,
        adjusted_mem_offload_factor: None,
        adjusted_mem_offload_delta: None,
        vrate: Vec::new(),
        vrate_mean: 7,
        nr_reports: (0, 0),
    };
    let res2 = IoCostQoSResult { runs: vec![Some(failed)] };
    assert_eq!(format_qos_result_lines(&res2), vec![String::from("2.000  FAIL  0.007")]);
}
