use resctl::num::{parse_fixed3, parse_u64, u64_to_string};
use resctl::report_file::{
    clear_old_report_files, parse_report_name, HashdReport, IoLatSet, ReportFile, ReportSample,
};
use resctl::statmap::{acc_stat_map, div_stat_map, stat_find};

fn hashd_rep(rps: u64) -> HashdReport {
    HashdReport {
        svc_name: String::from("rd-hashd-A.service"),
        phase: 3,
        rps,
        load: 600,
        lat_p50: 250,
        lat_p90: 900,
        lat_p99: 2500,
    }
}

fn sample(rps: u64, vrate: u64) -> ReportSample {
    ReportSample {
        hashd: [hashd_rep(rps), hashd_rep(0)],
        mem_stat: Vec::new(),
        io_stat: Vec::new(),
        vmstat: vec![(String::from("pgscan"), 30)],
        iolat: IoLatSet {
            read: vec![(String::from("50"), 10)],
            write: Vec::new(),
            discard: Vec::new(),
            flush: Vec::new(),
        },
        vrate,
    }
}

#[test]
fn minute_aggregator_reports_arithmetic_mean() {
    // sixty one-second samples with rps 100..159: the bucket reports 129.5
    let mut rf = ReportFile::new(60, None, 0);
    let mut out = None;
    for t in 1..=60u64 {
        let s = sample(100_000 + (t - 1) * 1000, 50_000);
        let e = rf.tick(&s, t);
        if t < 60 {
            assert!(e.is_none());
        } else {
            out = e;
        }
    }
    let e = out.expect("bucket emitted at the boundary");
    assert_eq!(e.bucket, 60);
    assert_eq!(e.file_name, "60.json");
    assert_eq!(e.nr_samples, 60);
    assert_eq!(e.hashd[0].rps, 129_500);
    assert_eq!(e.hashd[0].load, 600);
    assert_eq!(e.hashd[0].phase, 3);
    assert_eq!(e.hashd[0].svc_name, "rd-hashd-A.service");
    assert_eq!(e.vrate_mean, 50_000);
    // an accumulated-then-averaged map value
    let at = stat_find(&e.vmstat, &String::from("pgscan")).expect("key kept");
    assert_eq!(e.vmstat[at].1, 30);
    // iolat merges additively and is not divided
    let rat = stat_find(&e.iolat.read, &String::from("50")).expect("pct kept");
    assert_eq!(e.iolat.read[rat].1, 600);
}

#[test]
fn tick_emits_aligned_buckets_between_boundaries() {
    let mut rf = ReportFile::new(1, Some(3), 9);
    assert_eq!(rf.next_at, 10);
    let e = rf.tick(&sample(1000, 0), 10).expect("boundary reached");
    assert_eq!(e.bucket, 10);
    assert_eq!(e.bucket % 1, 0);
    assert_eq!(e.file_name, "10.json");
    // the report's second lies between the boundary before and after
    assert!(10 >= 10 && 10 < rf.next_at);
    assert_eq!(rf.next_at, 11);
    // retention: stamps in [was_at - 3, now - 3)
    assert_eq!(e.delete_lo, 6);
    assert_eq!(e.delete_hi, 7);
}

#[test]
fn minute_file_name_is_minute_aligned() {
    let mut rf = ReportFile::new(60, None, 130);
    assert_eq!(rf.next_at, 180);
    let e = rf.tick(&sample(1000, 0), 185).expect("boundary passed");
    assert_eq!(e.bucket, 180);
    assert_eq!(e.bucket % 60, 0);
    assert_eq!(e.file_name, "180.json");
    assert_eq!(rf.next_at, 240);
}

#[test]
fn stale_report_files_are_selected_by_stamp() {
    let names = vec![
        String::from("5.json"),
        String::from("8.json"),
        String::from("index.html"),
        String::from("12.json"),
        String::from(".json"),
    ];
    // horizon: now 10, retention 3 -> delete stamps below 7
    let idx = clear_old_report_files(&names, Some(3), 10);
    assert_eq!(idx, vec![0]);
    // no retention: nothing is deleted
    assert_eq!(clear_old_report_files(&names, None, 10).len(), 0);
}

#[test]
fn report_names_round_trip() {
    assert_eq!(parse_report_name("1699999999.json"), Some(1_699_999_999));
    assert_eq!(parse_report_name(&u64_to_string(60)), None);
    let mut name = u64_to_string(12345);
    name.push_str(".json");
    assert_eq!(parse_report_name(&name), Some(12345));
    assert_eq!(parse_report_name("report.txt"), None);
    assert_eq!(parse_report_name(".json"), None);
}

#[test]
fn decimal_codec() {
    assert_eq!(u64_to_string(0), "0");
    assert_eq!(u64_to_string(1234), "1234");
    assert_eq!(u64_to_string(u64::MAX), "18446744073709551615");
    assert_eq!(parse_u64("0"), Some(0));
    assert_eq!(parse_u64("00123"), Some(123));
    assert_eq!(parse_u64("18446744073709551615"), Some(u64::MAX));
    assert_eq!(parse_u64("18446744073709551616"), None);
    assert_eq!(parse_u64(""), None);
    assert_eq!(parse_u64("12a"), None);
}

#[test]
fn fixed_point_parsing() {
    assert_eq!(parse_fixed3("2.5"), Some(2_500));
    assert_eq!(parse_fixed3("100"), Some(100_000));
    assert_eq!(parse_fixed3("0.25"), Some(250));
    assert_eq!(parse_fixed3("1.2345"), Some(1_234));
    assert_eq!(parse_fixed3("0.001"), Some(1));
    assert_eq!(parse_fixed3(""), None);
    assert_eq!(parse_fixed3("."), None);
    assert_eq!(parse_fixed3("1."), None);
    assert_eq!(parse_fixed3(".5"), None);
    assert_eq!(parse_fixed3("a.b"), None);
}

#[test]
fn stat_maps_merge_and_divide() {
    let mut lhs = vec![(String::from("a"), 10u64), (String::from("b"), 20u64)];
    let rhs = vec![(String::from("b"), 5u64), (String::from("c"), 7u64)];
    acc_stat_map(&mut lhs, &rhs);
    let a = stat_find(&lhs, &String::from("a")).unwrap();
    let b = stat_find(&lhs, &String::from("b")).unwrap();
    let c = stat_find(&lhs, &String::from("c")).unwrap();
    assert_eq!(lhs[a].1, 10);
    assert_eq!(lhs[b].1, 25);
    assert_eq!(lhs[c].1, 7);

    div_stat_map(&mut lhs, 5);
    let b2 = stat_find(&lhs, &String::from("b")).unwrap();
    assert_eq!(lhs[b2].1, 5);
}

#[test]
fn saturating_accumulation_caps() {
    let mut lhs = vec![(String::from("a"), u64::MAX - 1)];
    let rhs = vec![(String::from("a"), 5u64)];
    acc_stat_map(&mut lhs, &rhs);
    assert_eq!(lhs[0].1, u64::MAX);
}

#[test]
fn per_slice_maps_are_accumulated_and_averaged() {
    let mut rf = ReportFile::new(1, None, 8);
    let mut s1 = sample(1000, 0);
    s1.mem_stat = vec![(
        String::from("workload"),
        vec![(String::from("pgscan"), 30u64)],
    )];
    // the boundary sample contributes too: two samples, values 30 and 10
    let mut rf2 = ReportFile::new(2, None, 8);
    let mut s2 = sample(1000, 0);
    s2.mem_stat = vec![(
        String::from("workload"),
        vec![(String::from("pgscan"), 10u64)],
    )];
    assert!(rf2.tick(&s1, 9).is_none());
    let e = rf2.tick(&s2, 10).expect("boundary");
    assert_eq!(e.mem_stat.len(), 1);
    assert_eq!(e.mem_stat[0].0, "workload");
    let at = stat_find(&e.mem_stat[0].1, &String::from("pgscan")).unwrap();
    // (30 + 10) / 2
    assert_eq!(e.mem_stat[0].1[at].1, 20);
    // the accumulators are empty again
    assert_eq!(rf2.nr_samples, 0);
    assert_eq!(rf2.mem_stat_acc.len(), 0);
    assert_eq!(rf2.vmstat_acc.len(), 0);
    // keep the single-sample aggregator honest as well
    let e1 = rf.tick(&s1, 9).expect("boundary");
    assert_eq!(e1.mem_stat[0].1[0].1, 30);
}
