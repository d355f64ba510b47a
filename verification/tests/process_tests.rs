use sysmetrics::process::{Pid, Process, ProcessStatus, ProcessUpdate};
use sysmetrics::system::System;

fn record(pid: Pid, comm: &str) -> Process {
    let mut p = Process::new(pid, Some(1), 1000);
    p.comm = String::from(comm);
    p.size = 4096;
    p.rssize = 2;
    p.ssize = 1;
    p.argv = vec![String::from(comm), String::from("-d")];
    p.env = vec![String::from("TERM=vt100")];
    p.exe = format!("/usr/bin/{}", comm);
    p.pagesize = 4096;
    p
}

#[test]
fn status_decodes_kernel_tags() {
    assert_eq!(ProcessStatus::from_i8(0), ProcessStatus::Unknown);
    assert_eq!(ProcessStatus::from_i8(1), ProcessStatus::Forking);
    assert_eq!(ProcessStatus::from_i8(2), ProcessStatus::Runnable);
    assert_eq!(ProcessStatus::from_i8(3), ProcessStatus::Sleeping);
    assert_eq!(ProcessStatus::from_i8(4), ProcessStatus::Stopped);
    assert_eq!(ProcessStatus::from_i8(5), ProcessStatus::Zombie);
    assert_eq!(ProcessStatus::from_i8(6), ProcessStatus::InterruptWait);
    assert_eq!(ProcessStatus::from_i8(7), ProcessStatus::LockWait);
    assert_eq!(ProcessStatus::from_i8(8), ProcessStatus::Unknown);
    assert_eq!(ProcessStatus::from_i8(-1), ProcessStatus::Unknown);
}

#[test]
fn process_accessors_scale_memory() {
    let p = record(7, "sh");
    assert_eq!(p.pid(), 7);
    assert_eq!(p.parent(), Some(1));
    assert_eq!(p.start_time(), 1000);
    assert_eq!(p.name(), "sh");
    assert_eq!(p.cmd(), &[String::from("sh"), String::from("-d")]);
    assert_eq!(p.environ(), &[String::from("TERM=vt100")]);
    assert_eq!(p.exe(), "/usr/bin/sh");
    // 2 resident pages of 4096 bytes are 8 kB
    assert_eq!(p.memory(), 8);
    // 4096 virtual bytes are 4 kB
    assert_eq!(p.virtual_memory(), 4);
}

#[test]
fn full_refresh_replaces_the_table() {
    let mut sys = System::default();
    sys.refresh_processes(vec![record(10, "init"), record(20, "sh")]);
    assert_eq!(sys.get_processes().len(), 2);
    assert!(sys.get_process(10).is_some());
    sys.refresh_processes(vec![record(20, "sh"), record(30, "cron")]);
    assert_eq!(sys.get_processes().len(), 2);
    // the dead process vanished, the new one appeared
    assert!(sys.get_process(10).is_none());
    assert!(sys.get_process(30).is_some());
}

#[test]
fn empty_refresh_empties_the_table() {
    let mut sys = System::default();
    sys.refresh_processes(vec![record(10, "init"), record(20, "sh")]);
    assert_eq!(sys.get_processes().len(), 2);
    sys.refresh_processes(vec![]);
    assert!(sys.get_processes().is_empty());
    assert!(sys.get_process(10).is_none());
    assert!(sys.get_process(20).is_none());
}

#[test]
fn mismatched_identity_fails_without_mutation() {
    let mut sys = System::default();
    sys.refresh_processes(vec![record(42, "daemon")]);
    // the raw record claims to describe pid 43: a stale handle or a
    // PID-reuse race; the cached record for 42 must stay untouched
    let stale = ProcessUpdate { pid: 43, ppid: 9, size: 1, ssize: 1, rssize: 1 };
    assert!(!sys.refresh_process(42, Some(stale)));
    let p = sys.get_process(42).expect("still tracked");
    assert_eq!(p.parent(), Some(1));
    assert_eq!(p.size, 4096);
    assert_eq!(p.rssize, 2);
}

#[test]
fn targeted_refresh_updates_sizes_only() {
    let mut sys = System::default();
    sys.refresh_processes(vec![record(42, "daemon")]);
    let fresh = ProcessUpdate { pid: 42, ppid: 2, size: 8192, ssize: 3, rssize: 5 };
    assert!(sys.refresh_process(42, Some(fresh)));
    let p = sys.get_process(42).expect("still tracked");
    assert_eq!(p.parent(), Some(2));
    assert_eq!(p.size, 8192);
    assert_eq!(p.ssize, 3);
    assert_eq!(p.rssize, 5);
    // immutable extraction results are untouched
    assert_eq!(p.name(), "daemon");
    assert_eq!(p.exe(), "/usr/bin/daemon");
    assert_eq!(p.cmd().len(), 2);
}

#[test]
fn targeted_refresh_never_inserts() {
    let mut sys = System::default();
    sys.refresh_processes(vec![record(42, "daemon")]);
    let update = ProcessUpdate { pid: 77, ppid: 1, size: 1, ssize: 1, rssize: 1 };
    assert!(!sys.refresh_process(77, Some(update)));
    assert!(sys.get_process(77).is_none());
    assert_eq!(sys.get_processes().len(), 1);
}

#[test]
fn missing_raw_record_fails_the_refresh() {
    let mut sys = System::default();
    sys.refresh_processes(vec![record(42, "daemon")]);
    assert!(!sys.refresh_process(42, None));
    assert_eq!(sys.get_process(42).expect("kept").size, 4096);
}

#[test]
fn lookup_by_name_filters_the_table() {
    let mut sys = System::default();
    sys.refresh_processes(vec![record(10, "sh"), record(20, "cron"), record(30, "sh")]);
    let mut found: Vec<i32> = sys
        .get_process_by_name(&String::from("sh"))
        .iter()
        .map(|p| p.pid())
        .collect();
    found.sort();
    assert_eq!(found, vec![10, 30]);
    assert!(sys.get_process_by_name(&String::from("nothing")).is_empty());
    sys.refresh_processes(vec![]);
    assert!(sys.get_process_by_name(&String::from("sh")).is_empty());
}

#[test]
fn fresh_record_has_zeroed_fields() {
    let p = Process::new(5, None, 77);
    assert_eq!(p.pid(), 5);
    assert_eq!(p.parent(), None);
    assert_eq!(p.start_time(), 77);
    assert_eq!(p.name(), "");
    assert_eq!(p.status(), ProcessStatus::Unknown);
    assert_eq!(p.cpu_usage(), 0);
    assert_eq!(p.disk_usage().read_bytes, 0);
    assert_eq!(p.cwd(), "");
    assert_eq!(p.root(), "");
}
