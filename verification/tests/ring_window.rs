use resctl::ring::{MeanOps, ReportData, ReportDataSet, ReportRing, ReportRingSet};
use resctl::usage::{system_cpu_times, system_usage_from_raw, cgroup_usage_assemble, SystemCpuTicks};

#[test]
fn ring_prunes_and_names_load_range() {
    let mut ring: ReportRing<u64> = ReportRing::new(1, 60, 120);
    // entries at 0, 60 and 200; at time 250 with retention 120 the window
    // starts at the minute boundary of 130, which is 120
    ring.push_loaded(0, 10);
    ring.push_loaded(60, 11);
    ring.push_loaded(200, 12);
    let (load_from, now_al) = ring.prune_and_range(250);
    assert_eq!(now_al, 250);
    assert_eq!(ring.ring.len(), 1);
    assert_eq!(ring.ring[0].0, 200);
    assert_eq!(load_from, 201);

    // an empty ring loads from the window start
    let mut empty: ReportRing<u64> = ReportRing::new(1, 60, 120);
    let (from2, _) = empty.prune_and_range(250);
    assert_eq!(from2, 120);
}

#[test]
fn data_ring_aggregates_slots() {
    // six reports at one-second cadence, slots of three seconds: the
    // closed slots hold the per-slot averages
    let mut src: ReportRing<u64> = ReportRing::new(1, 60, 1000);
    for (i, v) in [3u64, 6, 9, 30, 60, 90].iter().enumerate() {
        src.push_loaded(i as u64, *v);
    }
    let mut data: ReportData<u64, MeanOps> = ReportData::new(MeanOps {});
    data.fill(3, 10, &src);
    assert_eq!(data.next_src_at, 6);
    // the slot of stamps 0..2 closed with mean 6; 3..5 with mean 60
    assert_eq!(data.data_ring.len(), 2);
    let slots = data.iter();
    assert_eq!(slots.len(), 2);
    assert_eq!(slots[0].0, 0);
    assert_eq!(slots[0].1.copied(), Some(6));
    assert_eq!(slots[1].0, 3);
    assert_eq!(slots[1].1.copied(), Some(60));
}

#[test]
fn data_ring_keeps_only_budgeted_slots() {
    let mut src: ReportRing<u64> = ReportRing::new(1, 60, 1000);
    for i in 0..10u64 {
        src.push_loaded(i, i);
    }
    let mut data: ReportData<u64, MeanOps> = ReportData::new(MeanOps {});
    data.fill(2, 3, &src);
    assert!(data.data_ring.len() <= 3);
}

#[test]
fn data_set_splits_span_between_rings() {
    let mut set: ReportRingSet<u64> = ReportRingSet::new(600, 3600);
    for i in 0..10u64 {
        set.sec_ring.push_loaded(i, i);
    }
    set.min_ring.push_loaded(0, 100);
    set.min_ring.push_loaded(60, 200);
    let mut ds: ReportDataSet<u64, MeanOps> = ReportDataSet::new(MeanOps {}, MeanOps {});
    ds.fill(2, 40, &set);
    assert_eq!(ds.sec_data.nr_slots, 20);
    assert_eq!(ds.sec_data.stride, 2);
    // both halves contribute to the combined listing
    let all = ds.iter();
    assert_eq!(all.len(), ds.min_data.data_ring.len() + ds.sec_data.data_ring.len());
}

#[test]
fn system_cpu_times_from_ticks() {
    let t = SystemCpuTicks {
        user: 50,
        nice: 0,
        system: 25,
        idle: 100,
        iowait: 25,
        irq: 0,
        softirq: 0,
        steal: 0,
        guest: 0,
        guest_nice: 0,
        tps: 100,
    };
    let (total_us, busy_us, sys_us) = system_cpu_times(&t);
    assert_eq!(total_us, 2_000_000);
    assert_eq!(busy_us, 750_000);
    assert_eq!(sys_us, 250_000);
}

#[test]
fn system_usage_assembles_raw_values() {
    let t = SystemCpuTicks {
        user: 10,
        nice: 0,
        system: 0,
        idle: 0,
        iowait: 0,
        irq: 0,
        softirq: 0,
        steal: 0,
        guest: 0,
        guest_nice: 0,
        tps: 100,
    };
    let (u, total) = system_usage_from_raw(
        &t,
        1000,
        400,
        500,
        300,
        8,
        4,
        77,
        (1, 2),
        (3, 4),
        (5, 6),
        Vec::new(),
        Vec::new(),
    );
    assert_eq!(total, 100_000);
    assert_eq!(u.mem_bytes, 600);
    assert_eq!(u.swap_bytes, 200);
    assert_eq!(u.swap_free, 300);
    assert_eq!(u.io_rbytes, 8 * 512);
    assert_eq!(u.io_wbytes, 4 * 512);
    assert_eq!(u.io_usage_us, 77);
    assert_eq!(u.cpu_stall_some_us, 1);
    assert_eq!(u.io_stall_full_us, 6);
}

#[test]
fn cgroup_usage_reads_cpu_stat_keys() {
    let cpu_stat = vec![
        (String::from("usage_usec"), 123u64),
        (String::from("system_usec"), 45u64),
    ];
    let u = cgroup_usage_assemble(
        &cpu_stat,
        10,
        20,
        30,
        40,
        50,
        60,
        (1, 2),
        (3, 4),
        (5, 6),
        Vec::new(),
        Vec::new(),
    );
    assert_eq!(u.cpu_busy_us, 123);
    assert_eq!(u.cpu_sys_us, 45);
    assert_eq!(u.mem_bytes, 10);
    assert_eq!(u.swap_free, 30);
}
