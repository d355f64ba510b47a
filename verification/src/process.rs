//! Process records and their partial-refresh protocol.
//!
//! A [`Process`] is one row of the process table: identity, immutable
//! extraction results (command, arguments, environment, paths) and the
//! mutable resource figures a targeted refresh may update.

use vstd::prelude::*;

verus! {

/// A process identifier. Unique at any instant, but reused after a process
/// dies.
pub type Pid = i32;

/// The scheduling state of a process, as the kernel reports it.
#[derive(Clone, Copy, Debug, PartialEq, Eq, Structural)]
pub enum ProcessStatus {
    /// Unknown process status
    Unknown,
    /// Forking
    Forking,
    /// Runnable
    Runnable,
    /// Sleeping
    Sleeping,
    /// Stopped
    Stopped,
    /// Zombie
    Zombie,
    /// Waiting on interrupt
    InterruptWait,
    /// Blocked on a lock
    LockWait,
}

impl Default for ProcessStatus {
    fn default() -> (r: Self)
        ensures
            r == ProcessStatus::Unknown,
    {
        ProcessStatus::Unknown
    }
}

/// The status encoded by the kernel's numeric process-state tag; every tag
/// outside the known range decodes to `Unknown`.
pub open spec fn spec_status_from_code(code: i8) -> ProcessStatus {
    if code == 1 {
        ProcessStatus::Forking
    } else if code == 2 {
        ProcessStatus::Runnable
    } else if code == 3 {
        ProcessStatus::Sleeping
    } else if code == 4 {
        ProcessStatus::Stopped
    } else if code == 5 {
        ProcessStatus::Zombie
    } else if code == 6 {
        ProcessStatus::InterruptWait
    } else if code == 7 {
        ProcessStatus::LockWait
    } else {
        ProcessStatus::Unknown
    }
}

impl ProcessStatus {
    /// Decodes the kernel's numeric process-state tag.
    pub fn from_i8(code: i8) -> (r: Self)
        ensures
            r == spec_status_from_code(code),
    {
        if code == 1 {
            ProcessStatus::Forking
        } else if code == 2 {
            ProcessStatus::Runnable
        } else if code == 3 {
            ProcessStatus::Sleeping
        } else if code == 4 {
            ProcessStatus::Stopped
        } else if code == 5 {
            ProcessStatus::Zombie
        } else if code == 6 {
            ProcessStatus::InterruptWait
        } else if code == 7 {
            ProcessStatus::LockWait
        } else {
            ProcessStatus::Unknown
        }
    }
}

/// The directories a process has open as its root and working directory.
#[derive(Debug)]
pub struct ProcFiles {
    pub root: String,
    pub cwd: String,
}

impl Default for ProcFiles {
    fn default() -> (r: Self)
        ensures
            r.root@ == Seq::<char>::empty(),
            r.cwd@ == Seq::<char>::empty(),
    {
        ProcFiles { root: String::new(), cwd: String::new() }
    }
}

/// Cumulative disk transfer counters of one process.
#[derive(Clone, Copy, Debug, PartialEq, Eq, Structural)]
pub struct DiskUsage {
    pub total_written_bytes: u64,
    pub written_bytes: u64,
    pub total_read_bytes: u64,
    pub read_bytes: u64,
}

impl Default for DiskUsage {
    fn default() -> (r: Self)
        ensures
            r == (DiskUsage {
                total_written_bytes: 0,
                written_bytes: 0,
                total_read_bytes: 0,
                read_bytes: 0,
            }),
    {
        DiskUsage { total_written_bytes: 0, written_bytes: 0, total_read_bytes: 0, read_bytes: 0 }
    }
}

/// One process record.
///
/// The command, arguments, environment and executable path are extracted
/// once when the record is inserted and stay immutable for the record's
/// lifetime; only the resource figures change under a targeted refresh.
#[derive(Debug)]
pub struct Process {
    /// PID
    pub pid: Pid,
    /// Parent PID
    pub ppid: Option<Pid>,
    /// Start time, in seconds since the epoch
    pub start: u64,
    /// Command name
    pub comm: String,
    /// Virtual memory, in bytes
    pub size: u64,
    /// Resident memory, in pages
    pub rssize: u64,
    /// Stack size, in pages
    pub ssize: u64,
    /// Process status
    pub stat: ProcessStatus,
    /// Environment strings
    pub env: Vec<String>,
    /// Argument strings
    pub argv: Vec<String>,
    /// Root and working directory
    pub files: ProcFiles,
    /// Executable path
    pub exe: String,
    /// Instantaneous CPU share, exactly as the external source supplies it
    /// (this engine never re-derives it from tick deltas)
    pub cpu: u32,
    /// Time-averaged tick count, as the external source supplies it
    pub estcpu: u32,
    /// Cumulative disk transfer counters
    pub disk_usage: DiskUsage,
    /// Page size, in bytes, used to scale the page counts
    pub pagesize: u64,
}

impl Default for Process {
    fn default() -> (r: Self)
        ensures
            r.pid == 0,
            r.ppid is None,
            r.start == 0,
            r.comm@ == Seq::<char>::empty(),
            r.size == 0,
            r.rssize == 0,
            r.ssize == 0,
            r.stat == ProcessStatus::Unknown,
            r.env@ == Seq::<String>::empty(),
            r.argv@ == Seq::<String>::empty(),
            r.files.root@ == Seq::<char>::empty(),
            r.files.cwd@ == Seq::<char>::empty(),
            r.exe@ == Seq::<char>::empty(),
            r.cpu == 0,
            r.estcpu == 0,
            r.disk_usage == (DiskUsage {
                total_written_bytes: 0,
                written_bytes: 0,
                total_read_bytes: 0,
                read_bytes: 0,
            }),
            r.pagesize == 0,
    {
        Process {
            pid: 0,
            ppid: None,
            start: 0,
            comm: String::new(),
            size: 0,
            rssize: 0,
            ssize: 0,
            stat: ProcessStatus::default(),
            env: Vec::new(),
            argv: Vec::new(),
            files: ProcFiles::default(),
            exe: String::new(),
            cpu: 0,
            estcpu: 0,
            disk_usage: DiskUsage::default(),
            pagesize: 0,
        }
    }
}

/// The fields a targeted single-process refresh is allowed to mutate:
/// everything else of a live record cannot legitimately change.
pub struct ProcessUpdate {
    /// The identifier the raw record claims to describe.
    pub pid: Pid,
    pub ppid: Pid,
    /// Virtual memory, in bytes
    pub size: u64,
    /// Stack size, in pages
    pub ssize: u64,
    /// Resident memory, in pages
    pub rssize: u64,
}

/// A record after a targeted refresh: only the parent id and the three size
/// figures change; command, arguments, environment and paths are untouched.
pub open spec fn spec_refresh_record(p: Process, u: ProcessUpdate) -> Process {
    Process { ppid: Some(u.ppid), size: u.size, ssize: u.ssize, rssize: u.rssize, ..p }
}

impl Process {
    /// A fresh record with identity only; the remaining fields hold their
    /// zero values until the source fills them.
    pub fn new(pid: Pid, ppid: Option<Pid>, start: u64) -> (r: Self)
        ensures
            r.pid == pid,
            r.ppid == ppid,
            r.start == start,
            r.comm@ == Seq::<char>::empty(),
            r.size == 0,
            r.rssize == 0,
            r.ssize == 0,
            r.stat == ProcessStatus::Unknown,
            r.env@ == Seq::<String>::empty(),
            r.argv@ == Seq::<String>::empty(),
            r.files.root@ == Seq::<char>::empty(),
            r.files.cwd@ == Seq::<char>::empty(),
            r.exe@ == Seq::<char>::empty(),
            r.cpu == 0,
            r.estcpu == 0,
            r.disk_usage == (DiskUsage {
                total_written_bytes: 0,
                written_bytes: 0,
                total_read_bytes: 0,
                read_bytes: 0,
            }),
            r.pagesize == 0,
    {
        let mut p = Process::default();
        p.pid = pid;
        p.ppid = ppid;
        p.start = start;
        p
    }

    /// The command name.
    pub fn name(&self) -> (r: &str)
        ensures
            r@ == self.comm@,
    {
        self.comm.as_str()
    }

    /// The argument strings.
    pub fn cmd(&self) -> (r: &[String])
        ensures
            r@ == self.argv@,
    {
        self.argv.as_slice()
    }

    /// The executable path.
    pub fn exe(&self) -> (r: &str)
        ensures
            r@ == self.exe@,
    {
        self.exe.as_str()
    }

    pub fn pid(&self) -> (r: Pid)
        ensures
            r == self.pid,
    {
        self.pid
    }

    /// The environment strings.
    pub fn environ(&self) -> (r: &[String])
        ensures
            r@ == self.env@,
    {
        self.env.as_slice()
    }

    /// The working directory.
    pub fn cwd(&self) -> (r: &str)
        ensures
            r@ == self.files.cwd@,
    {
        self.files.cwd.as_str()
    }

    /// The root directory.
    pub fn root(&self) -> (r: &str)
        ensures
            r@ == self.files.root@,
    {
        self.files.root.as_str()
    }

    /// The resident memory in kB: resident pages scaled by the page size.
    pub fn memory(&self) -> (r: u64)
        requires
            self.rssize * self.pagesize <= u64::MAX,
        ensures
            r == self.rssize * self.pagesize / 1024,
    {
        self.rssize * self.pagesize / 1024
    }

    /// The virtual memory in kB.
    pub fn virtual_memory(&self) -> (r: u64)
        ensures
            r == self.size / 1024,
    {
        self.size / 1024
    }

    pub fn parent(&self) -> (r: Option<Pid>)
        ensures
            r == self.ppid,
    {
        self.ppid
    }

    pub fn status(&self) -> (r: ProcessStatus)
        ensures
            r == self.stat,
    {
        self.stat
    }

    pub fn start_time(&self) -> (r: u64)
        ensures
            r == self.start,
    {
        self.start
    }

    /// The instantaneous CPU share, exactly as supplied by the source.
    pub fn cpu_usage(&self) -> (r: u32)
        ensures
            r == self.cpu,
    {
        self.cpu
    }

    pub fn disk_usage(&self) -> (r: DiskUsage)
        ensures
            r == self.disk_usage,
    {
        self.disk_usage
    }
}

} // verus!
