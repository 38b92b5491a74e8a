use resctl::report_file::IoLatSet;
use resctl::reporter::{iolat_retry, BaseInputs, ReporterCore, RetryAction};
use resctl::statmap::stat_find;
use resctl::types::{DisableSeqKnobs, RunnerState};
use resctl::usage::{
    clamped_ratio, parse_flat_keyed, parse_flat_line, parse_psi_line, rate_of, read_stalls,
    swap_free_min, Usage, UsageTracker,
};

#[test]
fn psi_lines_parse_totals() {
    assert_eq!(
        parse_psi_line("some avg10=0.00 avg60=0.00 avg300=0.00 total=12345"),
        Some((false, 12345))
    );
    assert_eq!(
        parse_psi_line("full avg10=1.23 avg60=0.50 avg300=0.10 total=999"),
        Some((true, 999))
    );
    assert_eq!(parse_psi_line("bogus line"), None);
    assert_eq!(parse_psi_line("some avg10=0.00"), None);
}

#[test]
fn pressure_file_yields_both_totals() {
    let lines = vec![
        String::from("some avg10=0.00 avg60=0.00 avg300=0.00 total=100"),
        String::from("full avg10=0.00 avg60=0.00 avg300=0.00 total=40"),
    ];
    assert_eq!(read_stalls(&lines), (100, 40));
    assert_eq!(read_stalls(&Vec::new()), (0, 0));
}

#[test]
fn flat_keyed_lines_parse() {
    let r = parse_flat_line("usage_usec 123456").expect("parses");
    assert_eq!(r.0, "usage_usec");
    assert_eq!(r.1, 123456);
    assert!(parse_flat_line("noval").is_none());
    assert!(parse_flat_line(" 5").is_none());
}

#[test]
fn swap_free_takes_chain_minimum() {
    // system free 1000; one ancestor caps at 500 with 100 used
    let chain = vec![(Some(500u64), 100u64), (None, 50u64)];
    assert_eq!(swap_free_min(1000, &chain), 400);
    // an unlimited chain binds nothing
    assert_eq!(swap_free_min(1000, &vec![(None, 0)]), 1000);
    // a limit below current use floors at zero
    assert_eq!(swap_free_min(1000, &vec![(Some(10), 50)]), 0);
}

#[test]
fn ratios_clamp_to_unity() {
    assert_eq!(clamped_ratio(150, 100, 100), 500);
    assert_eq!(clamped_ratio(300, 100, 100), 1000);
    assert_eq!(clamped_ratio(100, 150, 100), 0);
    assert_eq!(clamped_ratio(150, 100, 0), 0);
    assert_eq!(rate_of(2_000_000, 1_000_000, 1_000_000, 1_000_000), 1_000_000);
    assert_eq!(rate_of(0, 5, 1_000_000, 1_000_000), 0);
}

fn usage_with(busy: u64, rbytes: u64) -> Usage {
    let mut u = Usage::zero();
    u.cpu_busy_us = busy;
    u.io_rbytes = rbytes;
    u
}

#[test]
fn tracker_reports_deltas_per_unit() {
    let mut tr = UsageTracker::new(0);
    let first = vec![(String::from("workload"), usage_with(1_000_000, 0))];
    tr.update(first, 10_000_000, 1_000_000);

    // one second later: half of the extra CPU went to the unit
    let second = vec![(String::from("workload"), usage_with(1_500_000, 2_000_000))];
    let reps = tr.update(second, 11_000_000, 2_000_000);
    assert_eq!(reps.len(), 1);
    assert_eq!(reps[0].0, "workload");
    assert_eq!(reps[0].1.cpu_util_milli, 500);
    assert_eq!(reps[0].1.io_rbps, 2_000_000);
    assert_eq!(reps[0].1.cpu_usage_base_us, 11_000_000);
}

fn hist(val: u64) -> IoLatSet {
    IoLatSet {
        read: vec![(String::from("50"), val)],
        write: Vec::new(),
        discard: Vec::new(),
        flush: Vec::new(),
    }
}

#[test]
fn cumulative_line_lands_in_next_base_report() {
    // the reporter kicked at 5000 ms; the cumulative line arrives 50 ms
    // later and must show up in the next base report, with no second kick
    // before the 100 ms gap has passed
    let mut core = ReporterCore::new(100);
    let kicked = core.on_sec_line(None, 5_000);
    assert!(kicked);

    core.on_cum_line(Some(hist(777)));

    let inp = BaseInputs {
        now: 101,
        seq: 4,
        state: RunnerState::Running,
        dseqs: DisableSeqKnobs { cpu: 0, mem: 0, io: 9 },
        oomd_on: true,
        sideloader_on: true,
        bench_hashd_phase: 0,
        sample: resctl::report_file::ReportSample {
            hashd: [empty_hashd(), empty_hashd()],
            mem_stat: Vec::new(),
            io_stat: Vec::new(),
            vmstat: Vec::new(),
            iolat: IoLatSet {
                read: Vec::new(),
                write: Vec::new(),
                discard: Vec::new(),
                flush: Vec::new(),
            },
            vrate: 0,
        },
        swappiness: 60,
        zswap_enabled: true,
    };
    let rep = core.make_base_report(inp);
    let at = stat_find(&rep.iolat_cum.read, &String::from("50")).expect("pct present");
    assert_eq!(rep.iolat_cum.read[at].1, 777);
    assert!(rep.resctl.cpu && rep.resctl.mem && !rep.resctl.io);
    assert_eq!(rep.timestamp, 101);

    // 80 ms after the kick: the gap is not reached, no kick
    let kicked_again = core.on_sec_line(Some(hist(1)), 5_080);
    assert!(!kicked_again);
    // but past the gap a kick goes out again
    let kicked_later = core.on_sec_line(None, 5_200);
    assert!(kicked_later);
}

fn empty_hashd() -> resctl::report_file::HashdReport {
    resctl::report_file::HashdReport {
        svc_name: String::new(),
        phase: 0,
        rps: 0,
        load: 0,
        lat_p50: 0,
        lat_p90: 0,
        lat_p99: 0,
    }
}

#[test]
fn reporter_sleeps_to_the_offset() {
    let core = ReporterCore::new(100);
    // next report at second 101, offset 500 ms
    assert_eq!(core.sleep_for(101_000), Some(500));
    assert_eq!(core.sleep_for(101_600), None);
}

#[test]
fn latency_reader_retries_until_budget_spent() {
    let mut budget: u32 = 2;
    assert_eq!(iolat_retry(&mut budget, false), RetryAction::Restart);
    assert_eq!(budget, 1);
    assert_eq!(iolat_retry(&mut budget, false), RetryAction::Restart);
    assert_eq!(iolat_retry(&mut budget, false), RetryAction::GiveUp);
    let mut fresh: u32 = 2;
    assert_eq!(iolat_retry(&mut fresh, true), RetryAction::GiveUp);
}

#[test]
fn flat_keyed_first_occurrence_wins() {
    let lines = vec![
        String::from("pgscan 10"),
        String::from("pgscan 99"),
        String::from("pgsteal 3"),
        String::from("not-a-line"),
    ];
    let m = parse_flat_keyed(&lines);
    assert_eq!(m.len(), 2);
    let a = stat_find(&m, &String::from("pgscan")).unwrap();
    assert_eq!(m[a].1, 10);
    let b = stat_find(&m, &String::from("pgsteal")).unwrap();
    assert_eq!(m[b].1, 3);
}
