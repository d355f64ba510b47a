use sysmetrics::disk::{DiskType, MountStat, Mounts, MNT_AUTOMOUNTED};
use sysmetrics::network::InterfaceObservation;
use sysmetrics::process::Process;
use sysmetrics::processor::ProcessorSnapshot;
use sysmetrics::system::{MemorySnapshot, RefreshKind, System, SystemSnapshot};

fn sixteen_gigabyte_snapshot() -> MemorySnapshot {
    MemorySnapshot {
        pagesize: 4096,
        physmem: 16_000_000 * 1024,
        free_pages: 1_000_000,
        swap_total: 1_024_000 * 1024,
        swap_used_pages: vec![1000, 500],
    }
}

#[test]
fn memory_aggregate_subtracts_free_from_total() {
    let mut sys = System::default();
    assert!(sys.refresh_memory(Some(sixteen_gigabyte_snapshot())));
    assert_eq!(sys.get_total_memory(), 16_000_000);
    // 1,000,000 pages of 4096 bytes are 4,000,000 kB
    assert_eq!(sys.get_free_memory(), 4_000_000);
    assert_eq!(sys.get_available_memory(), 4_000_000);
    assert_eq!(sys.get_used_memory(), 12_000_000);
    // two swap devices of 1000 and 500 pages, 4 kB each
    assert_eq!(sys.get_total_swap(), 1_024_000);
    assert_eq!(sys.get_free_swap(), 1_024_000 - 6_000);
    assert_eq!(sys.get_used_swap(), 6_000);
}

#[test]
fn corrupted_free_memory_fails_the_refresh() {
    let mut sys = System::default();
    assert!(sys.refresh_memory(Some(sixteen_gigabyte_snapshot())));
    // a corrupted source reports 17,000,000 kB free against 16,000,000 kB
    // total: the refresh must fail, not yield an underflowed huge "used"
    let mut corrupt = sixteen_gigabyte_snapshot();
    corrupt.free_pages = 4_250_000;
    assert!(!sys.refresh_memory(Some(corrupt)));
    // the last known good aggregates survive
    assert_eq!(sys.get_total_memory(), 16_000_000);
    assert_eq!(sys.get_free_memory(), 4_000_000);
    assert_eq!(sys.get_used_memory(), 12_000_000);
}

#[test]
fn oversized_swap_usage_fails_the_refresh() {
    let mut sys = System::default();
    let mut bad = sixteen_gigabyte_snapshot();
    bad.swap_used_pages = vec![300_000]; // 1,200,000 kB used of 1,024,000 kB
    assert!(!sys.refresh_memory(Some(bad)));
    assert_eq!(sys.get_total_swap(), 0);
    let mut overflowing = sixteen_gigabyte_snapshot();
    overflowing.swap_used_pages = vec![u64::MAX, u64::MAX];
    assert!(!sys.refresh_memory(Some(overflowing)));
}

#[test]
fn missing_memory_snapshot_fails_the_refresh() {
    let mut sys = System::default();
    assert!(sys.refresh_memory(Some(sixteen_gigabyte_snapshot())));
    assert!(!sys.refresh_memory(None));
    assert_eq!(sys.get_total_memory(), 16_000_000);
}

#[test]
fn boot_time_decodes_little_endian_seconds() {
    // 513 seconds: bytes 1 and 2, least significant first, then the
    // microsecond half of the record
    let raw: Vec<u8> = vec![1, 2, 0, 0, 0, 0, 0, 0, 48, 121, 6, 0, 0, 0, 0, 0];
    assert_eq!(System::boot_time(&raw), 513);
    let short: Vec<u8> = vec![1, 2, 3];
    assert_eq!(System::boot_time(&short), 0);
}

#[test]
fn uptime_clamps_at_zero() {
    assert_eq!(System::compute_uptime(1_700_000_100, 1_700_000_000), 100);
    assert_eq!(System::compute_uptime(50, 100), 0);
}

#[test]
fn refresh_system_sets_the_aggregates() {
    let mut sys = System::default();
    let raw: Vec<u8> = vec![0, 0, 0, 1, 0, 0, 0, 0, 0, 0, 0, 0, 0, 0, 0, 0];
    let snap = ProcessorSnapshot {
        num_cpus: Some(1),
        vendor_id: None,
        brand: None,
        frequency: None,
        cp_times: Some(vec![10, 0, 0, 0, 90]),
    };
    let ok = sys.refresh_system(
        16_777_416,
        &Some(raw),
        Some(sixteen_gigabyte_snapshot()),
        &snap,
    );
    assert!(ok);
    assert_eq!(sys.get_boot_time(), 16_777_216);
    assert_eq!(sys.get_uptime(), 200);
    assert_eq!(sys.get_used_memory(), 12_000_000);
    assert_eq!(sys.get_processors().len(), 1);
    assert_eq!(sys.get_processors()[0].get_cpu_usage(), 1_000_000); // 10%
}

#[test]
fn refresh_cpu_is_idempotent_per_snapshot() {
    let mut sys = System::default();
    let base = ProcessorSnapshot {
        num_cpus: Some(2),
        vendor_id: None,
        brand: None,
        frequency: None,
        cp_times: Some(vec![0, 0, 0, 0, 0, 0, 0, 0, 0, 0]),
    };
    sys.refresh_cpu(&base);
    let work = ProcessorSnapshot {
        num_cpus: Some(2),
        vendor_id: None,
        brand: None,
        frequency: None,
        cp_times: Some(vec![30, 0, 0, 0, 10, 10, 0, 0, 0, 30]),
    };
    sys.refresh_cpu(&work);
    let per_core: Vec<u64> = sys.get_processors().iter().map(|p| p.get_cpu_usage()).collect();
    let global = sys.get_global_processor_info().get_cpu_usage();
    assert_eq!(per_core, vec![7_500_000, 2_500_000]);
    assert_eq!(global, 5_000_000);
    // an unchanged raw source yields identical usage on the second call
    sys.refresh_cpu(&work);
    let per_core_again: Vec<u64> = sys.get_processors().iter().map(|p| p.get_cpu_usage()).collect();
    assert_eq!(per_core_again, per_core);
    assert_eq!(sys.get_global_processor_info().get_cpu_usage(), global);
}

fn mount(f_type: u32, flags: u64, fstype: &str, path: &str, blocks: u64, bfree: u64) -> MountStat {
    MountStat {
        f_type,
        f_flags: flags,
        f_fstypename: String::from(fstype),
        f_mntonname: String::from(path),
        f_blocks: blocks,
        f_bfree: bfree,
        f_bsize: 512,
    }
}

#[test]
fn mounts_drop_pseudo_filesystems() {
    let stats = vec![
        mount(0x00000071, 0, "devfs", "/dev", 2, 0),
        mount(0x00000035, 0, "ufs", "/", 1000, 400),
        mount(0x00000029, 0, "nullfs", "/compat", 10, 5),
        mount(0x00000035, MNT_AUTOMOUNTED, "ufs", "/mnt/usb", 64, 32),
    ];
    let mut mounts = Mounts::default();
    mounts.refresh_mounts(&stats);
    let disks = mounts.get_mounts();
    assert_eq!(disks.len(), 2);
    assert_eq!(disks[0].get_mount_point(), "/");
    assert_eq!(disks[0].get_name(), "/");
    assert_eq!(disks[0].get_file_system(), "ufs");
    assert_eq!(disks[0].get_total_space(), 512_000);
    assert_eq!(disks[0].get_available_space(), 204_800);
    assert_eq!(disks[0].get_type(), DiskType::Unknown(0x35));
    assert_eq!(disks[1].get_type(), DiskType::Removable);
}

#[test]
fn overflowing_mount_records_are_rejected() {
    let stats = vec![mount(0x35, 0, "ufs", "/big", u64::MAX, 1)];
    let mut mounts = Mounts::default();
    mounts.refresh_mounts(&stats);
    assert_eq!(mounts.get_mounts().len(), 0);
}

#[test]
fn disk_refresh_replaces_figures_or_fails() {
    let mut sys = System::default();
    sys.refresh_disks_list(&vec![mount(0x35, 0, "ufs", "/", 1000, 400)]);
    assert_eq!(sys.get_disks().len(), 1);
    assert_eq!(sys.get_disks()[0].get_available_space(), 204_800);
    let mut d = sysmetrics::disk::Disk {
        kind: DiskType::Unknown(0x35),
        name: String::from("/"),
        file_system: String::from("ufs"),
        total_space: 512_000,
        available_space: 204_800,
        mount_point: String::from("/"),
    };
    let fresh = mount(0x35, 0, "ufs", "/", 1000, 300);
    assert!(d.refresh(Some(&fresh)));
    assert_eq!(d.get_available_space(), 153_600);
    // a missing record leaves the disk untouched and reports failure
    assert!(!d.refresh(None));
    assert_eq!(d.get_available_space(), 153_600);
    // an overflowing record is rejected
    let huge = mount(0x35, 0, "ufs", "/", u64::MAX, 1);
    assert!(!d.refresh(Some(&huge)));
    assert_eq!(d.get_available_space(), 153_600);
}

#[test]
fn networks_are_reachable_through_the_sampler() {
    let mut sys = System::default();
    let obs = vec![InterfaceObservation {
        name: String::from("eth0"),
        mtu: 9000,
        received_bytes: 10,
        transmitted_bytes: 20,
        received_packets: 1,
        transmitted_packets: 2,
        receive_errors: 0,
        transmit_errors: 0,
    }];
    sys.refresh_networks(&obs);
    let nets = sys.get_networks();
    let eth0 = nets.get(&String::from("eth0")).expect("tracked");
    assert_eq!(eth0.get_total_received(), 10);
    assert_eq!(eth0.mtu, 9000);
    assert_eq!(sys.get_networks_mut().entries().len(), 1);
}

#[test]
fn new_with_specifics_refreshes_chosen_subsystems() {
    let refreshes = RefreshKind {
        networks: true,
        networks_list: false,
        processes: true,
        disks: false,
        disks_list: true,
    };
    let raw = SystemSnapshot {
        now_secs: 1_000,
        boottime: Some(vec![1, 2, 0, 0, 0, 0, 0, 0, 0, 0, 0, 0, 0, 0, 0, 0]),
        memory: Some(sixteen_gigabyte_snapshot()),
        processor: ProcessorSnapshot {
            num_cpus: Some(1),
            vendor_id: None,
            brand: None,
            frequency: None,
            cp_times: Some(vec![1, 0, 0, 0, 3]),
        },
        interfaces: vec![InterfaceObservation {
            name: String::from("eth0"),
            mtu: 1500,
            received_bytes: 5,
            transmitted_bytes: 6,
            received_packets: 0,
            transmitted_packets: 0,
            receive_errors: 0,
            transmit_errors: 0,
        }],
        processes: vec![Process::new(1, None, 0)],
        mounts: vec![mount(0x35, 0, "ufs", "/", 100, 50)],
    };
    let sys = System::new_with_specifics(refreshes, raw);
    assert_eq!(sys.get_processors().len(), 1);
    assert_eq!(sys.get_processors()[0].get_cpu_usage(), 2_500_000);
    assert_eq!(sys.get_used_memory(), 12_000_000);
    assert!(sys.get_process(1).is_some());
    assert_eq!(sys.get_disks().len(), 1);
    assert!(sys.get_networks().get(&String::from("eth0")).is_some());
    // boot time and uptime need no flag: the constructor always takes them
    // from the snapshot
    assert_eq!(sys.get_boot_time(), 513);
    assert_eq!(sys.get_uptime(), 487);
    assert!(sys.get_physical_core_count().is_none());
}

#[test]
fn new_without_flags_still_refreshes_aggregates() {
    let refreshes = RefreshKind {
        networks: false,
        networks_list: false,
        processes: false,
        disks: false,
        disks_list: false,
    };
    let raw = SystemSnapshot {
        now_secs: 0,
        boottime: None,
        memory: Some(sixteen_gigabyte_snapshot()),
        processor: ProcessorSnapshot {
            num_cpus: Some(4),
            vendor_id: None,
            brand: None,
            frequency: None,
            cp_times: None,
        },
        interfaces: vec![],
        processes: vec![],
        mounts: vec![],
    };
    let sys = System::new_with_specifics(refreshes, raw);
    // memory and CPU need no flag: the constructor always refreshes them
    assert_eq!(sys.get_processors().len(), 4);
    assert_eq!(sys.get_total_memory(), 16_000_000);
    assert_eq!(sys.get_used_memory(), 12_000_000);
    // the optional subsystems stay at their zero defaults
    assert!(sys.get_processes().is_empty());
    assert_eq!(sys.get_disks().len(), 0);
    assert_eq!(sys.get_boot_time(), 0);
    assert_eq!(sys.get_uptime(), 0);
}
