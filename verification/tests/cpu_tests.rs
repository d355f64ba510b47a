use sysmetrics::processor::{
    cpu_name, CpuPct, CpuTime, ProcessorSet, ProcessorSnapshot, PCT_FULL, PCT_SCALE,
};

fn sample(user: u64, nice: u64, system: u64, interrupt: u64, idle: u64) -> CpuTime {
    CpuTime {
        user_time: user,
        nice_time: nice,
        system_time: system,
        interrupt_time: interrupt,
        idle_time: idle,
    }
}

fn as_percent(fixed: u64) -> f64 {
    fixed as f64 / PCT_SCALE as f64
}

fn pct_sum(p: &CpuPct) -> f64 {
    as_percent(p.user_pct) + as_percent(p.nice_pct) + as_percent(p.system_pct)
        + as_percent(p.interrupt_pct) + as_percent(p.idle_pct)
}

#[test]
fn percentages_sum_to_one_hundred() {
    let prev = sample(3, 7, 11, 1, 123);
    let cur = sample(45, 9, 30, 2, 1000);
    let pct = cur.pct_diff(&prev).expect("positive total delta");
    assert!((pct_sum(&pct) - 100.0).abs() <= 1e-3);
}

#[test]
fn percentages_sum_with_awkward_divisor() {
    // three equal buckets: each share rounds down, the sum stays within
    // four fixed-point units of 100%
    let prev = sample(0, 0, 0, 0, 0);
    let cur = sample(1, 1, 1, 0, 0);
    let pct = cur.pct_diff(&prev).expect("positive total delta");
    assert_eq!(pct.user_pct, PCT_FULL / 3);
    assert_eq!(pct.nice_pct, PCT_FULL / 3);
    assert_eq!(pct.system_pct, PCT_FULL / 3);
    assert_eq!(pct.interrupt_pct, 0);
    assert_eq!(pct.idle_pct, 0);
    let total = pct.user_pct + pct.nice_pct + pct.system_pct;
    assert!(PCT_FULL - 4 <= total && total <= PCT_FULL);
    assert!((pct_sum(&pct) - 100.0).abs() <= 1e-3);
}

#[test]
fn percentages_sum_across_many_delta_pairs() {
    // a deterministic sweep of delta pairs, including large counters and
    // lopsided buckets
    let mut seed: u64 = 0x243F6A8885A308D3;
    let mut prev = sample(0, 0, 0, 0, 0);
    for _ in 0..200 {
        let mut step = [0u64; 5];
        for slot in step.iter_mut() {
            seed = seed.wrapping_mul(6364136223846793005).wrapping_add(1442695040888963407);
            *slot = seed >> 40;
        }
        let cur = sample(
            prev.user_time + step[0],
            prev.nice_time + step[1],
            prev.system_time + step[2],
            prev.interrupt_time + step[3],
            prev.idle_time + step[4],
        );
        if let Some(pct) = cur.pct_diff(&prev) {
            assert!((pct_sum(&pct) - 100.0).abs() <= 1e-3);
        }
        prev = cur;
    }
}

#[test]
fn user_and_idle_split_evenly() {
    let first = sample(0, 0, 0, 0, 0);
    let second = sample(50, 0, 0, 0, 50);
    let pct = second.pct_diff(&first).expect("positive total delta");
    assert_eq!(as_percent(pct.user_pct), 50.0);
    assert_eq!(as_percent(pct.idle_pct), 50.0);
    assert_eq!(pct.nice_pct, 0);
    assert_eq!(pct.system_pct, 0);
    assert_eq!(pct.interrupt_pct, 0);
}

#[test]
fn zero_total_delta_yields_none() {
    let s = sample(10, 20, 30, 40, 50);
    assert!(s.pct_diff(&s).is_none());
}

#[test]
fn counter_rollback_is_clamped() {
    // every bucket moved backwards but idle: only idle contributes
    let prev = sample(100, 100, 100, 100, 100);
    let cur = sample(50, 60, 70, 80, 200);
    let pct = cur.pct_diff(&prev).expect("idle moved forward");
    assert_eq!(pct.user_pct, 0);
    assert_eq!(pct.idle_pct, PCT_FULL);
}

#[test]
fn pct_add_and_div_assign() {
    let a = CpuPct {
        user_pct: 1000,
        nice_pct: 2000,
        system_pct: 3000,
        interrupt_pct: 4000,
        idle_pct: 5000,
    };
    let b = CpuPct {
        user_pct: 9000,
        nice_pct: 8000,
        system_pct: 7000,
        interrupt_pct: 6000,
        idle_pct: 5001,
    };
    let mut s = a.add(b);
    assert_eq!(s.user_pct, 10000);
    assert_eq!(s.idle_pct, 10001);
    s.div_assign(2);
    assert_eq!(s.user_pct, 5000);
    assert_eq!(s.nice_pct, 5000);
    assert_eq!(s.idle_pct, 5000); // integer division rounds down
}

#[test]
fn cpu_names_are_decimal() {
    assert_eq!(cpu_name(0), "cpu0");
    assert_eq!(cpu_name(7), "cpu7");
    assert_eq!(cpu_name(17), "cpu17");
    assert_eq!(cpu_name(255), "cpu255");
}

fn cpu_snapshot(num: Option<u8>, times: Option<Vec<u64>>) -> ProcessorSnapshot {
    ProcessorSnapshot {
        num_cpus: num,
        vendor_id: Some(String::from("amd64")),
        brand: Some(String::from("TestBrand")),
        frequency: Some(2400),
        cp_times: times,
    }
}

#[test]
fn processor_set_derives_global_average() {
    let mut set = ProcessorSet::new();
    // two CPUs, both starting from zeroed baselines: cpu0 fully user,
    // cpu1 fully idle
    let snap = cpu_snapshot(Some(2), Some(vec![100, 0, 0, 0, 0, 0, 0, 0, 0, 100]));
    set.refresh_all(&snap);
    assert_eq!(set.num_cpus(), 2);
    let cpus = set.get_cpus();
    assert_eq!(cpus.len(), 2);
    assert_eq!(cpus[0].get_name(), "cpu0");
    assert_eq!(cpus[1].get_name(), "cpu1");
    assert_eq!(cpus[0].get_vendor_id(), "amd64");
    assert_eq!(cpus[0].get_brand(), "TestBrand");
    assert_eq!(cpus[0].get_frequency(), 2400);
    assert_eq!(cpus[0].get_cpu_usage(), PCT_FULL); // fully busy
    assert_eq!(cpus[1].get_cpu_usage(), 0); // fully idle
    let global = set.get_global_processor();
    assert_eq!(global.get_name(), "global");
    assert_eq!(as_percent(global.get_cpu_usage()), 50.0);
}

#[test]
fn refresh_twice_holds_usage() {
    let mut set = ProcessorSet::new();
    let base = cpu_snapshot(Some(1), Some(vec![10, 10, 10, 10, 10]));
    set.refresh_all(&base);
    let work = cpu_snapshot(Some(1), Some(vec![40, 10, 10, 10, 40]));
    set.refresh_all(&work);
    let first_usage = set.get_cpus()[0].get_cpu_usage();
    let first_global = set.get_global_processor().get_cpu_usage();
    assert_eq!(as_percent(first_usage), 50.0);
    // the raw source did not move: the second refresh sees a zero delta and
    // holds the previous usage instead of collapsing to zero
    set.refresh_all(&work);
    assert_eq!(set.get_cpus()[0].get_cpu_usage(), first_usage);
    assert_eq!(set.get_global_processor().get_cpu_usage(), first_global);
}

#[test]
fn identical_samples_hold_previous_usage() {
    let mut set = ProcessorSet::new();
    set.refresh_all(&cpu_snapshot(Some(1), Some(vec![0, 0, 0, 0, 0])));
    set.refresh_all(&cpu_snapshot(Some(1), Some(vec![25, 0, 0, 0, 75])));
    let busy = set.get_cpus()[0].get_cpu_usage();
    assert_eq!(as_percent(busy), 25.0);
    // identical consecutive samples: total delta is zero, usage is held,
    // and nothing divides by zero
    set.refresh_all(&cpu_snapshot(Some(1), Some(vec![25, 0, 0, 0, 75])));
    assert_eq!(set.get_cpus()[0].get_cpu_usage(), busy);
}

#[test]
fn cpu_count_changes_resize_the_collection() {
    let mut set = ProcessorSet::new();
    set.refresh_all(&cpu_snapshot(Some(4), None));
    assert_eq!(set.get_cpus().len(), 4);
    assert_eq!(set.get_cpus()[3].get_name(), "cpu3");
    // same count: a no-op
    set.refresh_all(&cpu_snapshot(Some(4), None));
    assert_eq!(set.get_cpus().len(), 4);
    // shrink truncates from the tail
    set.refresh_all(&cpu_snapshot(Some(2), None));
    assert_eq!(set.get_cpus().len(), 2);
    assert_eq!(set.num_cpus(), 2);
    // growth zero-fills the new entries
    set.refresh_all(&cpu_snapshot(Some(3), None));
    assert_eq!(set.get_cpus().len(), 3);
    assert_eq!(set.get_cpus()[2].get_cpu_usage(), 0);
}

#[test]
fn zero_cpu_count_zeroes_the_global_aggregate() {
    let mut set = ProcessorSet::new();
    set.refresh_all(&cpu_snapshot(Some(1), Some(vec![40, 0, 0, 0, 40])));
    assert_eq!(set.get_global_processor().get_cpu_usage(), 5_000_000);
    // the source reports no CPUs: the aggregate becomes the sum over the
    // empty collection — all zero — and nothing divides by zero
    set.refresh_all(&cpu_snapshot(Some(0), None));
    assert_eq!(set.get_cpus().len(), 0);
    assert_eq!(set.get_global_processor().get_cpu_usage(), 0);
}

#[test]
fn failed_queries_leave_previous_values() {
    let mut set = ProcessorSet::new();
    set.refresh_all(&cpu_snapshot(Some(1), Some(vec![5, 5, 5, 5, 5])));
    let none_snap = ProcessorSnapshot {
        num_cpus: None,
        vendor_id: None,
        brand: None,
        frequency: None,
        cp_times: None,
    };
    set.refresh_all(&none_snap);
    assert_eq!(set.num_cpus(), 1);
    assert_eq!(set.get_cpus()[0].get_vendor_id(), "amd64");
    assert_eq!(set.get_cpus()[0].get_frequency(), 2400);
}

#[test]
fn short_tick_array_updates_a_prefix() {
    let mut set = ProcessorSet::new();
    // two CPUs but ticks for only one: the second keeps its zero samples
    let snap = cpu_snapshot(Some(2), Some(vec![80, 0, 0, 0, 20]));
    set.refresh_all(&snap);
    assert_eq!(set.get_cpus()[0].get_cpu_usage(), 8_000_000);
    assert_eq!(set.get_cpus()[1].get_cpu_usage(), 0);
}
