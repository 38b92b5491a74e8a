use resctl::job::{IoCostQoSJob, QoSParseError};
use resctl::qos::{apply_ovr, plan_vrate_points, qos_compose, skip_or_adj, IoCostQoSOvr};
use resctl::types::{BenchKnobs, HashdKnobs, IoCostKnobs, IoCostModelParams, IoCostQoSParams};

fn base_qos() -> IoCostQoSParams {
    IoCostQoSParams { rpct: 95_000, rlat: 5000, wpct: 95_000, wlat: 5000, min: 50_000, max: 150_000 }
}

fn knobs() -> BenchKnobs {
    BenchKnobs {
        hashd_seq: 1,
        iocost_seq: 1,
        hashd: HashdKnobs { mem_size: 1 << 30, mem_profile: 16 },
        iocost: IoCostKnobs {
            model: IoCostModelParams {
                rbps: 1,
                rseqiops: 2,
                rrandiops: 3,
                wbps: 4,
                wseqiops: 5,
                wrandiops: 6,
            },
            qos: base_qos(),
        },
    }
}

#[test]
fn sweep_zero_min_five_intervals() {
    // vrate-min=0 vrate-max=100 vrate-intvs=5: points 100, 80, 60, 40, 20
    let plan = plan_vrate_points(0, 100_000, 5, false, None, None);
    assert_eq!(plan.dither_dist, None);
    assert_eq!(plan.points.len(), 5);
    let expected = [100_000u64, 80_000, 60_000, 40_000, 20_000];
    for (i, p) in plan.points.iter().enumerate() {
        assert_eq!(p.min, Some(expected[i]));
        assert_eq!(p.max, Some(expected[i]));
        assert!(!p.off && !p.skip && !p.min_adj);
        assert_eq!(p.rpct, None);
        assert_eq!(p.rlat, None);
        assert_eq!(p.wpct, None);
        assert_eq!(p.wlat, None);
    }
}

#[test]
fn sweep_positive_min_inclusive() {
    // min 5, max 10, intvs 5: 10, 9, 8, 7, 6, wait: click (10-5)/4 -> 1.25
    // use an evenly dividing range: min 6, max 10, intvs 5 -> click 1
    let plan = plan_vrate_points(6_000, 10_000, 5, false, None, None);
    assert_eq!(plan.points.len(), 5);
    let expected = [10_000u64, 9_000, 8_000, 7_000, 6_000];
    for (i, p) in plan.points.iter().enumerate() {
        assert_eq!(p.min, Some(expected[i]));
    }
}

#[test]
fn sweep_reuses_prior_dither_distance() {
    let plan = plan_vrate_points(0, 100_000, 5, true, None, Some(-3_000));
    assert_eq!(plan.dither_dist, Some(-3_000));
    // the shifted walk keeps five points
    assert_eq!(plan.points.len(), 5);
    assert_eq!(plan.points[0].min, Some(97_000));
}

#[test]
fn sweep_explicit_dither_distance_wins() {
    let plan = plan_vrate_points(0, 100_000, 5, true, Some(2_000), Some(-3_000));
    assert_eq!(plan.dither_dist, Some(2_000));
    assert_eq!(plan.points[0].min, Some(102_000));
}

#[test]
fn sweep_fresh_dither_distance_in_range() {
    // click 20, shift -10: a fresh draw lies in [-20, 0)
    let plan = plan_vrate_points(0, 100_000, 5, true, None, None);
    let d = plan.dither_dist.expect("dither requested");
    assert!(-20_000 <= d && d < 0);
}

#[test]
fn qos_compose_overrides_set_fields_only() {
    let mut ovr = IoCostQoSOvr::default();
    ovr.min = Some(42_000);
    ovr.max = Some(42_000);
    let q = qos_compose(&base_qos(), &ovr).expect("on");
    assert_eq!(q.min, 42_000);
    assert_eq!(q.max, 42_000);
    assert_eq!(q.rpct, 95_000);
    assert_eq!(q.rlat, 5000);

    let mut off = IoCostQoSOvr::default();
    off.off = true;
    assert!(qos_compose(&base_qos(), &off).is_none());
}

#[test]
fn applying_same_override_twice_is_identical() {
    let mut ovr = IoCostQoSOvr::default();
    ovr.min = Some(42_000);
    ovr.max = Some(43_000);
    ovr.rlat = Some(7000);
    let base = base_qos();
    let once = apply_ovr(&knobs(), &base, &ovr);
    let twice = apply_ovr(&once, &base, &ovr);
    assert_eq!(once, twice);
}

#[test]
fn skip_or_adj_marks_low_points() {
    let mut ovr = IoCostQoSOvr::default();
    ovr.min = Some(500);
    ovr.max = Some(800);
    skip_or_adj(&mut ovr, 1_000);
    assert!(ovr.skip);
    assert!(!ovr.min_adj);

    let mut ovr2 = IoCostQoSOvr::default();
    ovr2.min = Some(500);
    ovr2.max = Some(2_000);
    skip_or_adj(&mut ovr2, 1_000);
    assert!(!ovr2.skip);
    assert!(ovr2.min_adj);
    assert_eq!(ovr2.min, Some(1_000));
}

fn prop(k: &str, v: &str) -> (String, String) {
    (String::from(k), String::from(v))
}

#[test]
fn job_parse_plans_six_runs() {
    let props = vec![prop("vrate-min", "0"), prop("vrate-max", "100"), prop("vrate-intvs", "5")];
    let job = IoCostQoSJob::parse(&props, &Vec::new(), None).expect("parses");
    assert_eq!(job.runs.len(), 6);
    assert!(job.runs[0].off);
    let expected = [100_000u64, 80_000, 60_000, 40_000, 20_000];
    for i in 0..5 {
        assert_eq!(job.runs[1 + i].min, Some(expected[i]));
        assert_eq!(job.runs[1 + i].max, Some(expected[i]));
    }
}

#[test]
fn job_parse_defaults_to_five_intervals() {
    let props = vec![prop("vrate-max", "100")];
    let job = IoCostQoSJob::parse(&props, &Vec::new(), None).expect("parses");
    // the off run plus five planned points
    assert_eq!(job.runs.len(), 6);
}

#[test]
fn job_parse_rejects_unknown_key() {
    let props = vec![prop("no-such-knob", "1")];
    assert!(IoCostQoSJob::parse(&props, &Vec::new(), None).is_err());
}

#[test]
fn job_parse_rejects_inverted_range() {
    let props = vec![prop("vrate-min", "50"), prop("vrate-max", "10")];
    assert!(IoCostQoSJob::parse(&props, &Vec::new(), None).is_err());
}

#[test]
fn job_parse_explicit_override_sets() {
    let props = vec![prop("vrate-intvs", "0")];
    let ovrs = vec![vec![prop("min", "10"), prop("max", "20")], vec![prop("off", "")]];
    let job = IoCostQoSJob::parse(&props, &ovrs, None).expect("parses");
    assert_eq!(job.runs.len(), 3);
    assert!(job.runs[0].off);
    assert_eq!(job.runs[1].min, Some(10_000));
    assert_eq!(job.runs[1].max, Some(20_000));
    assert!(job.runs[2].off);
}

#[test]
fn job_parse_knob_values() {
    let props = vec![
        prop("vrate-max", "100"),
        prop("storage-base-loops", "4"),
        prop("storage-loops", "2"),
        prop("isol-pct", "10"),
        prop("isol-thr", "0.8"),
        prop("retries", "3"),
        prop("allow-fail", "true"),
        prop("ignore-min-perf", ""),
        prop("storage-mem-profile", "8"),
    ];
    let job = IoCostQoSJob::parse(&props, &Vec::new(), None).expect("parses");
    assert_eq!(job.stor_base_loops, 4);
    assert_eq!(job.stor_loops, 2);
    assert_eq!(job.isol_pct, 10);
    assert_eq!(job.isol_thr, 800);
    assert_eq!(job.retries, 3);
    assert!(job.allow_fail);
    assert!(job.ign_min_perf);
}

#[test]
fn job_parse_error_taxonomy() {
    // an unknown sweep key
    let bad = IoCostQoSJob::parse(&vec![prop("no-such-knob", "1")], &Vec::new(), None);
    assert_eq!(bad.err(), Some(QoSParseError::BadProp));
    // a malformed value
    let bad2 = IoCostQoSJob::parse(&vec![prop("vrate-max", "abc")], &Vec::new(), None);
    assert_eq!(bad2.err(), Some(QoSParseError::BadProp));
    // an inverted range
    let bad3 = IoCostQoSJob::parse(
        &vec![prop("vrate-min", "50"), prop("vrate-max", "10")],
        &Vec::new(),
        None,
    );
    assert_eq!(bad3.err(), Some(QoSParseError::BadVrateRange));
    // a bad override key
    let bad4 = IoCostQoSJob::parse(
        &vec![prop("vrate-max", "100")],
        &vec![vec![prop("nope", "1")]],
        None,
    );
    assert_eq!(bad4.err(), Some(QoSParseError::BadOvrProp));
    // success is owed on well-formed input
    assert!(IoCostQoSJob::parse(&vec![prop("vrate-max", "100")], &Vec::new(), None).is_ok());
}
