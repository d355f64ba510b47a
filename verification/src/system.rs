//! The sampler that composes the subsystems: CPU usage, the network
//! interface registry, the process table, disks, and the memory/swap/uptime
//! aggregates. Every `refresh_*` entry point takes the raw snapshot it needs
//! as a plain value; the caller chooses which subsystems to refresh and at
//! what cadence. No accessor triggers a refresh.

use crate::clamped_delta;
use crate::disk::{spec_disk_matches, spec_kept_mounts, Disk, MountStat, Mounts};
use crate::network::{spec_refresh_seq, InterfaceObservation, NetworkData, Networks};
use crate::process::{spec_refresh_record, Pid, Process, ProcessUpdate};
use crate::processor::{
    global_avg, refresh_all_rel, stepped_pair, stepped_pct, CpuPct, CpuTime, Processor,
    ProcessorSet, ProcessorSnapshot,
};
use std::collections::HashMap;
use vstd::prelude::*;
use vstd::std_specs::hash::spec_hash_map_iter;
use vstd::std_specs::iter::{IteratorSpec, VerusForLoopWrapper};

verus! {

broadcast use vstd::std_specs::hash::group_hash_axioms;

/// How many kB one page of swap accounting stands for.
pub const SW_MULTIPLIER: u64 = 4;

/// One raw observation of the memory subsystem.
pub struct MemorySnapshot {
    /// Page size, in bytes
    pub pagesize: u64,
    /// Physical memory, in bytes
    pub physmem: u64,
    /// Free page count
    pub free_pages: u64,
    /// Total swap, in bytes
    pub swap_total: u64,
    /// Used swap of each swap device, in pages
    pub swap_used_pages: Vec<u64>,
}

/// The used swap of a device list, in kB.
pub open spec fn spec_swap_used_kb(s: Seq<u64>) -> int
    decreases s.len(),
{
    if s.len() == 0 {
        0
    } else {
        spec_swap_used_kb(s.drop_last()) + SW_MULTIPLIER * s.last()
    }
}

/// Swap usage sums are non-negative and grow with the device list.
proof fn lemma_swap_used_prefix(s: Seq<u64>, k: int)
    requires
        0 <= k <= s.len(),
    ensures
        0 <= spec_swap_used_kb(s.take(k)) <= spec_swap_used_kb(s),
    decreases s.len(),
{
    if s.len() == 0 {
        assert(s.take(k) =~= s);
    } else if k == s.len() {
        assert(s.take(k) =~= s);
        lemma_swap_used_prefix(s.drop_last(), s.len() - 1);
        assert(s.drop_last().take(s.len() - 1) =~= s.drop_last());
    } else {
        assert(s.take(k) =~= s.drop_last().take(k));
        lemma_swap_used_prefix(s.drop_last(), k);
    }
}

/// Whether a raw memory snapshot is acceptable: the free-memory product
/// fits the machine word, free memory does not exceed total memory, and
/// used swap does not exceed total swap. A snapshot that violates any of
/// these indicates a source read error and fails the refresh instead of
/// underflowing into a huge unsigned "used" value.
pub open spec fn spec_memory_ok(m: MemorySnapshot) -> bool {
    &&& m.free_pages * m.pagesize <= u64::MAX
    &&& m.free_pages * m.pagesize / 1024 <= m.physmem / 1024
    &&& spec_swap_used_kb(m.swap_used_pages@) <= m.swap_total / 1024
}

/// A corrupted snapshot that reports more free than total memory is never
/// acceptable: [`System::refresh_memory`] then fails and, by its contract,
/// leaves every aggregate at its prior value, so the derived "used" figure
/// can never underflow into a huge unsigned value.
pub proof fn lemma_excess_free_memory_rejected(m: MemorySnapshot)
    requires
        m.free_pages * m.pagesize / 1024 > m.physmem / 1024,
    ensures
        !spec_memory_ok(m),
{
}

/// The sixteen raw bytes of the kernel's boot-time record hold the boot
/// seconds in the first eight bytes, least significant byte first.
pub open spec fn spec_boot_seconds(s: Seq<u8>) -> int {
    s[0] + s[1] * 0x100 + s[2] * 0x10000 + s[3] * 0x1000000 + s[4] * 0x100000000 + s[5]
        * 0x10000000000 + s[6] * 0x1000000000000 + s[7] * 0x100000000000000
}

/// Flags choosing which optional subsystems a freshly built sampler
/// refreshes. The system aggregates — boot time, uptime, memory and CPU —
/// are always refreshed at construction and need no flag.
#[derive(Clone, Copy, Debug, PartialEq, Eq, Structural)]
pub struct RefreshKind {
    pub networks: bool,
    pub networks_list: bool,
    pub processes: bool,
    pub disks: bool,
    pub disks_list: bool,
}

/// One raw observation of the whole machine, handed in by the OS adapter.
pub struct SystemSnapshot {
    /// The current time, in seconds since the epoch
    pub now_secs: u64,
    /// The kernel's raw boot-time record
    pub boottime: Option<Vec<u8>>,
    pub memory: Option<MemorySnapshot>,
    pub processor: ProcessorSnapshot,
    pub interfaces: Vec<InterfaceObservation>,
    pub processes: Vec<Process>,
    pub mounts: Vec<MountStat>,
}

/// No process identifier occurs twice in a snapshot: identifiers are unique
/// at any instant.
pub open spec fn distinct_pids(s: Seq<Process>) -> bool {
    forall|i: int, j: int| 0 <= i < j < s.len() ==> (#[trigger] s[i]).pid != (#[trigger] s[j]).pid
}

/// The identifiers of the table entries whose record carries the command
/// name `name`.
pub open spec fn matching_pids(m: Map<Pid, Process>, name: Seq<char>) -> Set<Pid> {
    m.dom().filter(|p: Pid| m[p].comm@ == name)
}

/// The identifiers of a set whose record in `m` carries the command name
/// `name`.
pub open spec fn matching_pids_of(m: Map<Pid, Process>, name: Seq<char>, pids: Set<Pid>) -> Set<
    Pid,
> {
    pids.filter(|p: Pid| m.dom().contains(p) && m[p].comm@ == name)
}

/// In a duplicate-free pair enumeration of a map, no key occurs twice: two
/// positions with one key would carry one value too — the key's — making
/// the pairs equal.
proof fn lemma_enumeration_keys_distinct<'a>(
    m: Map<Pid, Process>,
    rem: Seq<(&'a Pid, &'a Process)>,
)
    requires
        rem.no_duplicates(),
        forall|i: int|
            0 <= i < rem.len() ==> m.contains_key(*(#[trigger] rem[i]).0) && m[*rem[i].0]
                == *rem[i].1,
    ensures
        forall|a: int, b: int|
            0 <= a < b < rem.len() ==> *(#[trigger] rem[a]).0 != *(#[trigger] rem[b]).0,
{
    broadcast use vstd::set::group_set_axioms;
    assert forall|a: int, b: int|
        0 <= a < b < rem.len() implies *(#[trigger] rem[a]).0 != *(#[trigger] rem[b]).0 by {
        if *rem[a].0 == *rem[b].0 {
            assert(m[*rem[a].0] == *rem[a].1);
            assert(m[*rem[b].0] == *rem[b].1);
            assert(rem[a] == rem[b]);
        }
    }
}

/// A walked pair enumeration whose keys all landed in `seen`, and whose
/// `seen` holds only walked keys, covers exactly the table's identifiers.
proof fn lemma_seen_is_dom<'a>(
    m: Map<Pid, Process>,
    rem: Seq<(&'a Pid, &'a Process)>,
    seen: Set<Pid>,
)
    requires
        forall|i: int|
            0 <= i < rem.len() ==> m.contains_key(*(#[trigger] rem[i]).0) && m[*rem[i].0]
                == *rem[i].1,
        forall|k: Pid| #[trigger] m.contains_key(k) ==> rem.contains((&k, &m[k])),
        forall|i: int| 0 <= i < rem.len() ==> seen.contains(*(#[trigger] rem[i]).0),
        forall|p: Pid|
            #[trigger] seen.contains(p) ==> exists|i: int|
                0 <= i < rem.len() && *(#[trigger] rem[i]).0 == p,
    ensures
        seen == m.dom(),
{
    broadcast use vstd::set::group_set_axioms;
    assert forall|p: Pid| m.dom().contains(p) implies seen.contains(p) by {
        assert(rem.contains((&p, &m[p])));
        let j = choose|j: int| 0 <= j < rem.len() && rem[j] == (&p, &m[p]);
        assert(seen.contains(*rem[j].0));
    }
    assert(seen =~= m.dom());
}

/// Filtering the table's own identifier set by a command name is the
/// table-wide name filter.
proof fn lemma_matching_of_dom(m: Map<Pid, Process>, name: Seq<char>)
    ensures
        matching_pids_of(m, name, m.dom()) == matching_pids(m, name),
{
    broadcast use vstd::set::group_set_axioms;
    assert(matching_pids_of(m, name, m.dom()) =~= matching_pids(m, name));
}

/// Every collected reference whose origin is some enumeration pair points
/// at a value of the table.
proof fn lemma_collected_sound<'a>(
    m: Map<Pid, Process>,
    rem: Seq<(&'a Pid, &'a Process)>,
    r: Seq<&'a Process>,
    name: Seq<char>,
)
    requires
        forall|i: int|
            0 <= i < rem.len() ==> m.contains_key(*(#[trigger] rem[i]).0) && m[*rem[i].0]
                == *rem[i].1,
        forall|i2: int|
            0 <= i2 < r.len() ==> (#[trigger] r[i2]).comm@ == name && exists|j: int|
                0 <= j < rem.len() && (#[trigger] rem[j]).1 == r[i2],
    ensures
        forall|i: int| 0 <= i < r.len() ==> m.values().contains(*(#[trigger] r[i])),
{
    broadcast use vstd::set::group_set_axioms;
    assert forall|i: int| 0 <= i < r.len() implies m.values().contains(*(#[trigger] r[i])) by {
        let j = choose|j: int| 0 <= j < rem.len() && (#[trigger] rem[j]).1 == r[i];
        assert(m.dom().contains(*rem[j].0));
        assert(m[*rem[j].0] == *r[i]);
    }
}

/// Before any pair is walked, no identifier is matched.
proof fn lemma_matching_of_empty(m: Map<Pid, Process>, name: Seq<char>)
    ensures
        Set::<Pid>::empty().finite(),
        matching_pids_of(m, name, Set::<Pid>::empty()).finite(),
        matching_pids_of(m, name, Set::<Pid>::empty()).len() == 0,
{
    broadcast use vstd::set::group_set_axioms;

    assert(matching_pids_of(m, name, Set::<Pid>::empty()) =~= Set::<Pid>::empty());
}

/// One walked pair extends the count of matched identifiers by one when
/// its record matches, and leaves it alone otherwise.
proof fn lemma_count_step(
    m: Map<Pid, Process>,
    name: Seq<char>,
    pre_seen: Set<Pid>,
    k: Pid,
    matched: bool,
)
    requires
        pre_seen.finite(),
        matching_pids_of(m, name, pre_seen).finite(),
        !pre_seen.contains(k),
        m.dom().contains(k),
        matched == (m[k].comm@ == name),
    ensures
        pre_seen.insert(k).finite(),
        matching_pids_of(m, name, pre_seen.insert(k)).finite(),
        matching_pids_of(m, name, pre_seen.insert(k)).len() == matching_pids_of(
            m,
            name,
            pre_seen,
        ).len() + if matched {
            1int
        } else {
            0
        },
{
    broadcast use vstd::set::group_set_axioms;
    if matched {
        assert(matching_pids_of(m, name, pre_seen.insert(k)) =~= matching_pids_of(
            m,
            name,
            pre_seen,
        ).insert(k));
        assert(!matching_pids_of(m, name, pre_seen).contains(k));
    } else {
        assert(matching_pids_of(m, name, pre_seen.insert(k)) =~= matching_pids_of(
            m,
            name,
            pre_seen,
        ));
    }
}

/// One walked pair keeps both directions of the name filter: every
/// collected reference still originates in a walked pair, and every walked
/// matching pair is still collected.
proof fn lemma_filter_step<'a>(
    rem: Seq<(&'a Pid, &'a Process)>,
    pre_r: Seq<&'a Process>,
    r: Seq<&'a Process>,
    name: Seq<char>,
    idx: int,
)
    requires
        0 <= idx < rem.len(),
        forall|i2: int|
            0 <= i2 < pre_r.len() ==> (#[trigger] pre_r[i2]).comm@ == name && exists|j: int|
                0 <= j < idx && (#[trigger] rem[j]).1 == pre_r[i2],
        forall|j: int|
            0 <= j < idx && (#[trigger] rem[j]).1.comm@ == name ==> exists|i2: int|
                0 <= i2 < pre_r.len() && (#[trigger] pre_r[i2]) == rem[j].1,
        r == if rem[idx].1.comm@ == name {
            pre_r.push(rem[idx].1)
        } else {
            pre_r
        },
    ensures
        forall|i2: int|
            0 <= i2 < r.len() ==> (#[trigger] r[i2]).comm@ == name && exists|j: int|
                0 <= j < idx + 1 && (#[trigger] rem[j]).1 == r[i2],
        forall|j: int|
            0 <= j < idx + 1 && (#[trigger] rem[j]).1.comm@ == name ==> exists|i2: int|
                0 <= i2 < r.len() && (#[trigger] r[i2]) == rem[j].1,
{
    broadcast use vstd::set::group_set_axioms;
    assert forall|i2: int|
        0 <= i2 < r.len() implies (#[trigger] r[i2]).comm@ == name && exists|j: int|
        0 <= j < idx + 1 && (#[trigger] rem[j]).1 == r[i2] by {
        if i2 < pre_r.len() {
            assert(r[i2] == pre_r[i2]);
            let j = choose|j: int| 0 <= j < idx && (#[trigger] rem[j]).1 == pre_r[i2];
            assert(rem[j].1 == r[i2]);
        } else {
            assert(r[i2] == rem[idx].1);
        }
    }
    assert forall|j: int|
        0 <= j < idx + 1 && (#[trigger] rem[j]).1.comm@ == name implies exists|i2: int|
        0 <= i2 < r.len() && (#[trigger] r[i2]) == rem[j].1 by {
        if j < idx {
            let i2 = choose|i2: int| 0 <= i2 < pre_r.len() && (#[trigger] pre_r[i2]) == rem[j].1;
            assert(r[i2] == rem[j].1);
        } else {
            assert(r[r.len() - 1] == rem[j].1);
        }
    }
}

/// Every table value with the looked-up command name is pointed at by a
/// collected reference, given that every matching enumeration pair was
/// collected.
proof fn lemma_collected_complete<'a>(
    m: Map<Pid, Process>,
    rem: Seq<(&'a Pid, &'a Process)>,
    r: Seq<&'a Process>,
    name: Seq<char>,
)
    requires
        forall|k: Pid| #[trigger] m.contains_key(k) ==> rem.contains((&k, &m[k])),
        forall|j: int|
            0 <= j < rem.len() && (#[trigger] rem[j]).1.comm@ == name ==> exists|i2: int|
                0 <= i2 < r.len() && (#[trigger] r[i2]) == rem[j].1,
    ensures
        forall|v: Process|
            #[trigger] m.values().contains(v) && v.comm@ == name ==> exists|i: int|
                0 <= i < r.len() && *(#[trigger] r[i]) == v,
{
    broadcast use vstd::set::group_set_axioms;
    assert forall|v: Process|
        #[trigger] m.values().contains(v) && v.comm@ == name implies exists|i: int|
        0 <= i < r.len() && *(#[trigger] r[i]) == v by {
        let k = choose|k: Pid| #[trigger] m.dom().contains(k) && m[k] == v;
        assert(rem.contains((&k, &m[k])));
        let j = choose|j: int| 0 <= j < rem.len() && rem[j] == (&k, &m[k]);
        assert(rem[j].1.comm@ == name);
        let i2 = choose|i2: int| 0 <= i2 < r.len() && (#[trigger] r[i2]) == rem[j].1;
        assert(*r[i2] == v);
    }
}

/// The sampler: exclusively owns all tracked state; every collection is
/// mutated only through the `refresh_*` entry points and read through the
/// accessors.
pub struct System {
    pub pids: HashMap<Pid, Process>,
    pub processors: ProcessorSet,
    pub disks: Vec<Disk>,
    pub networks: Networks,
    pub mem_free: u64,
    pub mem_total: u64,
    pub swap_total: u64,
    pub swap_free: u64,
    pub uptime: u64,
    pub boot_time: u64,
}

impl System {
    /// Free memory never exceeds total memory, free swap never exceeds
    /// total swap, and the owned subsystems are consistent. Every refresh
    /// preserves this.
    pub open spec fn wf(self) -> bool {
        &&& self.mem_free <= self.mem_total
        &&& self.swap_free <= self.swap_total
        &&& self.processors.wf()
        &&& self.networks.wf()
    }
}

impl Default for System {
    fn default() -> (r: Self)
        ensures
            r.wf(),
            r.pids@ == Map::<Pid, Process>::empty(),
            r.processors.num_cpus == 0,
            r.processors.cpus@.len() == 0,
            r.processors.global.cpu_id@ == "global"@,
            r.processors.global.cpu_pct == CpuPct::zero(),
            r.disks@.len() == 0,
            r.networks.spec_map() == Map::<Seq<char>, NetworkData>::empty(),
            r.networks.interfaces@.len() == 0,
            r.mem_free == 0,
            r.mem_total == 0,
            r.swap_total == 0,
            r.swap_free == 0,
            r.uptime == 0,
            r.boot_time == 0,
    {
        System {
            pids: HashMap::new(),
            processors: ProcessorSet::new(),
            disks: Vec::new(),
            networks: Networks::default(),
            mem_free: 0,
            mem_total: 0,
            swap_total: 0,
            swap_free: 0,
            uptime: 0,
            boot_time: 0,
        }
    }
}

impl System {
    /// Decodes the kernel's raw boot-time record: the boot seconds stand in
    /// the first eight of its sixteen bytes, least significant byte first.
    /// A record of any other length decodes to zero.
    pub fn boot_time(boottime: &Vec<u8>) -> (r: u64)
        ensures
            boottime@.len() == 16 ==> r == spec_boot_seconds(boottime@),
            boottime@.len() != 16 ==> r == 0,
    {
        if boottime.len() == 16 {
            (boottime[0] as u64) + (boottime[1] as u64) * 0x100 + (boottime[2] as u64) * 0x10000
                + (boottime[3] as u64) * 0x1000000 + (boottime[4] as u64) * 0x100000000 + (
            boottime[5] as u64) * 0x10000000000 + (boottime[6] as u64) * 0x1000000000000 + (
            boottime[7] as u64) * 0x100000000000000
        } else {
            0
        }
    }

    /// The seconds the machine has been up: the current time minus the boot
    /// time, clamped at zero when the clock reads earlier than the boot.
    pub fn compute_uptime(now_secs: u64, boot_time: u64) -> (r: u64)
        ensures
            r == clamped_delta(now_secs, boot_time),
    {
        crate::delta_u64(now_secs, boot_time)
    }

    /// Recomputes the memory and swap aggregates wholesale from a raw
    /// snapshot. Returns `false`, leaving all four aggregates untouched,
    /// when the snapshot is missing (the source failed) or inconsistent
    /// (free exceeding total, used swap exceeding total swap, or a product
    /// that would overflow): metrics degrade to last known good instead of
    /// wrapping.
    pub fn refresh_memory(&mut self, raw: Option<MemorySnapshot>) -> (r: bool)
        requires
            old(self).wf(),
        ensures
            final(self).wf(),
            r == (raw matches Some(m) && spec_memory_ok(m)),
            raw matches Some(m) ==> (spec_memory_ok(m) ==> {
                &&& final(self).mem_total == m.physmem / 1024
                &&& final(self).mem_free == m.free_pages * m.pagesize / 1024
                &&& final(self).swap_total == m.swap_total / 1024
                &&& final(self).swap_free == m.swap_total / 1024 - spec_swap_used_kb(
                    m.swap_used_pages@,
                )
            }),
            !r ==> {
                &&& final(self).mem_total == old(self).mem_total
                &&& final(self).mem_free == old(self).mem_free
                &&& final(self).swap_total == old(self).swap_total
                &&& final(self).swap_free == old(self).swap_free
            },
            final(self).pids == old(self).pids,
            final(self).processors == old(self).processors,
            final(self).disks == old(self).disks,
            final(self).networks == old(self).networks,
            final(self).uptime == old(self).uptime,
            final(self).boot_time == old(self).boot_time,
    {
        let m = match raw {
            Some(m) => m,
            None => {
                return false;
            },
        };
        let mem_total = m.physmem / 1024;
        let free_bytes = match m.free_pages.checked_mul(m.pagesize) {
            Some(b) => b,
            None => {
                return false;
            },
        };
        let mem_free = free_bytes / 1024;
        if mem_free > mem_total {
            return false;
        }
        let swap_total = m.swap_total / 1024;
        let ghost devices = m.swap_used_pages@;
        let mut used_kb: u64 = 0;
        let mut ok = true;
        let mut k: usize = 0;
        proof {
            assert(devices.take(0) =~= Seq::<u64>::empty());
        }
        while k < m.swap_used_pages.len()
            invariant
                0 <= k <= devices.len(),
                devices == m.swap_used_pages@,
                ok ==> used_kb == spec_swap_used_kb(devices.take(k as int)),
                !ok ==> spec_swap_used_kb(devices.take(k as int)) > u64::MAX,
            decreases devices.len() - k,
        {
            proof {
                assert(devices.take(k + 1).drop_last() =~= devices.take(k as int));
                assert(devices.take(k + 1).last() == devices[k as int]);
            }
            if ok {
                match m.swap_used_pages[k].checked_mul(SW_MULTIPLIER) {
                    Some(t) => match used_kb.checked_add(t) {
                        Some(acc) => {
                            used_kb = acc;
                        },
                        None => {
                            ok = false;
                        },
                    },
                    None => {
                        ok = false;
                    },
                }
            } else {
                proof {
                    lemma_swap_used_prefix(devices.take(k + 1), k as int);
                    assert(devices.take(k + 1).take(k as int) =~= devices.take(k as int));
                }
            }
            k = k + 1;
        }
        proof {
            assert(devices.take(devices.len() as int) =~= devices);
        }
        if !ok || used_kb > swap_total {
            return false;
        }
        self.mem_total = mem_total;
        self.mem_free = mem_free;
        self.swap_total = swap_total;
        self.swap_free = swap_total - used_kb;
        true
    }

    /// Refreshes the processor subsystem; see
    /// [`ProcessorSet::refresh_all`].
    pub fn refresh_cpu(&mut self, snap: &ProcessorSnapshot)
        requires
            old(self).wf(),
        ensures
            final(self).wf(),
            refresh_all_rel(old(self).processors, final(self).processors, *snap),
            final(self).pids == old(self).pids,
            final(self).disks == old(self).disks,
            final(self).networks == old(self).networks,
            final(self).mem_total == old(self).mem_total,
            final(self).mem_free == old(self).mem_free,
            final(self).swap_total == old(self).swap_total,
            final(self).swap_free == old(self).swap_free,
            final(self).uptime == old(self).uptime,
            final(self).boot_time == old(self).boot_time,
    {
        self.processors.refresh_all(snap);
    }

    /// Merges a raw interface snapshot into the registry; see
    /// [`Networks::refresh_networks_list`].
    pub fn refresh_networks_list(&mut self, observations: &Vec<InterfaceObservation>)
        requires
            old(self).wf(),
        ensures
            final(self).wf(),
            final(self).networks.spec_map() == spec_refresh_seq(
                old(self).networks.spec_map(),
                observations@,
            ),
            final(self).pids == old(self).pids,
            final(self).processors == old(self).processors,
            final(self).disks == old(self).disks,
            final(self).mem_total == old(self).mem_total,
            final(self).mem_free == old(self).mem_free,
            final(self).swap_total == old(self).swap_total,
            final(self).swap_free == old(self).swap_free,
            final(self).uptime == old(self).uptime,
            final(self).boot_time == old(self).boot_time,
    {
        self.networks.refresh_networks_list(observations);
    }

    /// Refreshes the known interfaces from a raw snapshot. Merging is the
    /// same operation as discovering: both go through the registry.
    pub fn refresh_networks(&mut self, observations: &Vec<InterfaceObservation>)
        requires
            old(self).wf(),
        ensures
            final(self).wf(),
            final(self).networks.spec_map() == spec_refresh_seq(
                old(self).networks.spec_map(),
                observations@,
            ),
            final(self).pids == old(self).pids,
            final(self).processors == old(self).processors,
            final(self).disks == old(self).disks,
            final(self).mem_total == old(self).mem_total,
            final(self).mem_free == old(self).mem_free,
            final(self).swap_total == old(self).swap_total,
            final(self).swap_free == old(self).swap_free,
            final(self).uptime == old(self).uptime,
            final(self).boot_time == old(self).boot_time,
    {
        self.networks.refresh_networks_list(observations);
    }

    /// Replaces the whole process table from a fresh snapshot: every record
    /// of the snapshot is present afterwards under its identifier, and
    /// nothing else is — dead processes vanish. Identifiers are ephemeral,
    /// scoped to one full-refresh epoch.
    pub fn refresh_processes(&mut self, list: Vec<Process>)
        requires
            old(self).wf(),
            distinct_pids(list@),
        ensures
            final(self).wf(),
            forall|i: int|
                0 <= i < list@.len() ==> final(self).pids@.contains_key(
                    (#[trigger] list@[i]).pid,
                ) && final(self).pids@[list@[i].pid] == list@[i],
            forall|p: Pid|
                final(self).pids@.contains_key(p) ==> exists|i: int|
                    0 <= i < list@.len() && (#[trigger] list@[i]).pid == p,
            list@.len() == 0 ==> final(self).pids@ == Map::<Pid, Process>::empty(),
            final(self).processors == old(self).processors,
            final(self).disks == old(self).disks,
            final(self).networks == old(self).networks,
            final(self).mem_total == old(self).mem_total,
            final(self).mem_free == old(self).mem_free,
            final(self).swap_total == old(self).swap_total,
            final(self).swap_free == old(self).swap_free,
            final(self).uptime == old(self).uptime,
            final(self).boot_time == old(self).boot_time,
    {
        let ghost all = list@;
        let mut list = list;
        self.pids = HashMap::new();
        let ghost pre = *self;
        proof {
            assert(all.take(all.len() as int) =~= all);
        }
        while list.len() > 0
            invariant
                list@.len() <= all.len(),
                list@ == all.take(list@.len() as int),
                distinct_pids(all),
                forall|i: int|
                    list@.len() <= i < all.len() ==> self.pids@.contains_key(
                        (#[trigger] all[i]).pid,
                    ) && self.pids@[all[i].pid] == all[i],
                forall|p: Pid|
                    self.pids@.contains_key(p) ==> exists|i: int|
                        list@.len() <= i < all.len() && (#[trigger] all[i]).pid == p,
                self.processors == pre.processors,
                self.disks == pre.disks,
                self.networks == pre.networks,
                self.mem_total == pre.mem_total,
                self.mem_free == pre.mem_free,
                self.swap_total == pre.swap_total,
                self.swap_free == pre.swap_free,
                self.uptime == pre.uptime,
                self.boot_time == pre.boot_time,
            decreases list@.len(),
        {
            proof {
                assert(list@.drop_last() =~= all.take(list@.len() - 1));
                assert(list@.last() == all[list@.len() - 1]);
            }
            if let Some(p) = list.pop() {
                self.pids.insert(p.pid, p);
            }
        }
        proof {
            assert(all.take(0) =~= Seq::<Process>::empty());
            if all.len() == 0 {
                assert(self.pids@ =~= Map::<Pid, Process>::empty());
            }
        }
    }

    /// A targeted refresh of one process. Fails — reporting `false` and
    /// leaving the table untouched — when the raw record is missing, when
    /// the record's own identifier does not match `pid` (a stale handle or
    /// a PID-reuse race), or when `pid` is not already tracked: a partial
    /// refresh never inserts. On success only the parent id and the size
    /// figures of the cached record change.
    pub fn refresh_process(&mut self, pid: Pid, raw: Option<ProcessUpdate>) -> (r: bool)
        requires
            old(self).wf(),
        ensures
            final(self).wf(),
            r == (raw matches Some(u) && u.pid == pid && old(self).pids@.contains_key(pid)),
            raw matches Some(u) ==> (r ==> final(self).pids@ == old(self).pids@.insert(
                pid,
                spec_refresh_record(old(self).pids@[pid], u),
            )),
            !r ==> final(self).pids@ == old(self).pids@,
            final(self).processors == old(self).processors,
            final(self).disks == old(self).disks,
            final(self).networks == old(self).networks,
            final(self).mem_total == old(self).mem_total,
            final(self).mem_free == old(self).mem_free,
            final(self).swap_total == old(self).swap_total,
            final(self).swap_free == old(self).swap_free,
            final(self).uptime == old(self).uptime,
            final(self).boot_time == old(self).boot_time,
    {
        let u = match raw {
            Some(u) => u,
            None => {
                return false;
            },
        };
        if u.pid != pid {
            return false;
        }
        match self.pids.remove(&pid) {
            Some(mut p) => {
                p.ppid = Some(u.ppid);
                p.size = u.size;
                p.ssize = u.ssize;
                p.rssize = u.rssize;
                self.pids.insert(pid, p);
                proof {
                    assert(self.pids@ =~= old(self).pids@.insert(
                        pid,
                        spec_refresh_record(old(self).pids@[pid], u),
                    ));
                }
                true
            },
            None => {
                proof {
                    assert(self.pids@ =~= old(self).pids@);
                }
                false
            },
        }
    }

    /// Rebuilds the disk list from a raw mount table snapshot; see
    /// [`Mounts::refresh_mounts`].
    pub fn refresh_disks_list(&mut self, stats: &Vec<MountStat>)
        requires
            old(self).wf(),
        ensures
            final(self).wf(),
            final(self).disks@.len() == spec_kept_mounts(stats@).len(),
            forall|j: int|
                0 <= j < final(self).disks@.len() ==> spec_disk_matches(
                    #[trigger] final(self).disks@[j],
                    spec_kept_mounts(stats@)[j],
                ),
            final(self).pids == old(self).pids,
            final(self).processors == old(self).processors,
            final(self).networks == old(self).networks,
            final(self).mem_total == old(self).mem_total,
            final(self).mem_free == old(self).mem_free,
            final(self).swap_total == old(self).swap_total,
            final(self).swap_free == old(self).swap_free,
            final(self).uptime == old(self).uptime,
            final(self).boot_time == old(self).boot_time,
    {
        let mut mounts = Mounts::default();
        mounts.refresh_mounts(stats);
        self.disks = mounts.get_mounts();
    }

    /// Refreshes the point-in-time system aggregates: boot time, uptime,
    /// memory and CPU. Returns whether the memory refresh succeeded.
    pub fn refresh_system(
        &mut self,
        now_secs: u64,
        boottime: &Option<Vec<u8>>,
        memory: Option<MemorySnapshot>,
        processor: &ProcessorSnapshot,
    ) -> (r: bool)
        requires
            old(self).wf(),
        ensures
            final(self).wf(),
            final(self).boot_time == match boottime {
                Some(b) => if b@.len() == 16 {
                    spec_boot_seconds(b@)
                } else {
                    0int
                },
                None => 0int,
            },
            final(self).uptime == clamped_delta(now_secs, final(self).boot_time),
            r == (memory matches Some(m) && spec_memory_ok(m)),
            memory matches Some(m) ==> (spec_memory_ok(m) ==> {
                &&& final(self).mem_total == m.physmem / 1024
                &&& final(self).mem_free == m.free_pages * m.pagesize / 1024
                &&& final(self).swap_total == m.swap_total / 1024
                &&& final(self).swap_free == m.swap_total / 1024 - spec_swap_used_kb(
                    m.swap_used_pages@,
                )
            }),
            !r ==> {
                &&& final(self).mem_total == old(self).mem_total
                &&& final(self).mem_free == old(self).mem_free
                &&& final(self).swap_total == old(self).swap_total
                &&& final(self).swap_free == old(self).swap_free
            },
            refresh_all_rel(old(self).processors, final(self).processors, *processor),
            final(self).pids == old(self).pids,
            final(self).disks == old(self).disks,
            final(self).networks == old(self).networks,
    {
        self.boot_time = match boottime {
            Some(b) => System::boot_time(b),
            None => 0,
        };
        self.uptime = System::compute_uptime(now_secs, self.boot_time);
        let ok = self.refresh_memory(memory);
        self.refresh_cpu(processor);
        ok
    }

    /// Builds a sampler from one raw snapshot of the machine. The system
    /// aggregates — boot time, uptime, memory and CPU — are always refreshed
    /// from the snapshot; the optional subsystems are refreshed as the flags
    /// choose and otherwise stay at their zero defaults.
    pub fn new_with_specifics(refreshes: RefreshKind, raw: SystemSnapshot) -> (r: System)
        requires
            refreshes.processes ==> distinct_pids(raw.processes@),
        ensures
            r.wf(),
            r.processors.num_cpus as int == match raw.processor.num_cpus {
                Some(n) => n as int,
                None => 0int,
            },
            r.processors.cpus@.len() == r.processors.num_cpus as int,
            forall|i: int|
                0 <= i < r.processors.cpus@.len() ==> {
                    let pair = stepped_pair(
                        CpuTime::zero(),
                        CpuTime::zero(),
                        raw.processor.cp_times,
                        i,
                    );
                    &&& (#[trigger] r.processors.cpus@[i]).cp_time == pair.0
                    &&& r.processors.cpus@[i].last_cp_time == pair.1
                    &&& r.processors.cpus@[i].cpu_pct == stepped_pct(
                        pair.0,
                        pair.1,
                        CpuPct::zero(),
                    )
                },
            r.processors.global.cpu_pct == if r.processors.cpus@.len() > 0 {
                global_avg(r.processors.cpus@, r.processors.cpus@.len() as int)
            } else {
                CpuPct::zero()
            },
            refreshes.networks || refreshes.networks_list ==> r.networks.spec_map()
                == spec_refresh_seq(Map::<Seq<char>, NetworkData>::empty(), raw.interfaces@),
            !(refreshes.networks || refreshes.networks_list) ==> r.networks.spec_map() == Map::<
                Seq<char>,
                NetworkData,
            >::empty(),
            refreshes.processes ==> {
                &&& forall|i: int|
                    0 <= i < raw.processes@.len() ==> r.pids@.contains_key(
                        (#[trigger] raw.processes@[i]).pid,
                    ) && r.pids@[raw.processes@[i].pid] == raw.processes@[i]
                &&& forall|p: Pid|
                    r.pids@.contains_key(p) ==> exists|i: int|
                        0 <= i < raw.processes@.len() && (#[trigger] raw.processes@[i]).pid == p
            },
            !refreshes.processes ==> r.pids@ == Map::<Pid, Process>::empty(),
            refreshes.disks || refreshes.disks_list ==> r.disks@.len() == spec_kept_mounts(
                raw.mounts@,
            ).len() && forall|j: int|
                0 <= j < r.disks@.len() ==> spec_disk_matches(
                    #[trigger] r.disks@[j],
                    spec_kept_mounts(raw.mounts@)[j],
                ),
            !(refreshes.disks || refreshes.disks_list) ==> r.disks@.len() == 0,
            raw.memory matches Some(m) ==> (spec_memory_ok(m) ==> {
                &&& r.mem_total == m.physmem / 1024
                &&& r.mem_free == m.free_pages * m.pagesize / 1024
                &&& r.swap_total == m.swap_total / 1024
                &&& r.swap_free == m.swap_total / 1024 - spec_swap_used_kb(m.swap_used_pages@)
            }),
            !(raw.memory matches Some(m) && spec_memory_ok(m)) ==> {
                &&& r.mem_total == 0
                &&& r.mem_free == 0
                &&& r.swap_total == 0
                &&& r.swap_free == 0
            },
            r.boot_time == match raw.boottime {
                Some(b) => if b@.len() == 16 {
                    spec_boot_seconds(b@)
                } else {
                    0int
                },
                None => 0int,
            },
            r.uptime == clamped_delta(raw.now_secs, r.boot_time),
    {
        let mut ret = System::default();
        ret.boot_time = match &raw.boottime {
            Some(b) => System::boot_time(b),
            None => 0,
        };
        ret.uptime = System::compute_uptime(raw.now_secs, ret.boot_time);
        ret.refresh_memory(raw.memory);
        let ghost before_cpu = ret;
        ret.refresh_cpu(&raw.processor);
        proof {
            assert forall|i: int|
                0 <= i < ret.processors.cpus@.len() implies {
                let pair = stepped_pair(
                    CpuTime::zero(),
                    CpuTime::zero(),
                    raw.processor.cp_times,
                    i,
                );
                &&& (#[trigger] ret.processors.cpus@[i]).cp_time == pair.0
                &&& ret.processors.cpus@[i].last_cp_time == pair.1
                &&& ret.processors.cpus@[i].cpu_pct == stepped_pct(
                    pair.0,
                    pair.1,
                    CpuPct::zero(),
                )
            } by {
                assert(crate::processor::cpu_entry_rel(
                    before_cpu.processors,
                    ret.processors,
                    raw.processor,
                    i,
                ));
            }
        }
        if refreshes.networks || refreshes.networks_list {
            ret.refresh_networks_list(&raw.interfaces);
        }
        if refreshes.processes {
            ret.refresh_processes(raw.processes);
        }
        if refreshes.disks || refreshes.disks_list {
            ret.refresh_disks_list(&raw.mounts);
        }
        ret
    }

    /// The process table.
    pub fn get_processes(&self) -> (r: &HashMap<Pid, Process>)
        ensures
            *r == self.pids,
    {
        &self.pids
    }

    /// One process record, by identifier.
    pub fn get_process(&self, pid: Pid) -> (r: Option<&Process>)
        ensures
            match r {
                Some(p) => self.pids@.contains_key(pid) && *p == self.pids@[pid],
                None => !self.pids@.contains_key(pid),
            },
    {
        self.pids.get(&pid)
    }

    /// All records whose command name reads `name`: exactly one reference
    /// for each matching table entry, so the result's length is the number
    /// of matching identifiers. The order follows the hash map's walk and
    /// is not specified.
    #[verifier::rlimit(50)]
    pub fn get_process_by_name(&self, name: &String) -> (r: Vec<&Process>)
        ensures
            r@.len() == matching_pids(self.pids@, name@).len(),
            forall|i: int|
                0 <= i < r@.len() ==> (#[trigger] r@[i]).comm@ == name@
                    && self.pids@.values().contains(*r@[i]),
            forall|v: Process|
                #[trigger] self.pids@.values().contains(v) && v.comm@ == name@ ==> exists|i: int|
                    0 <= i < r@.len() && *(#[trigger] r@[i]) == v,
    {
        let mut result: Vec<&Process> = Vec::new();
        let entries = self.pids.iter();
        let mut w = VerusForLoopWrapper::new(entries, Ghost(None));
        let ghost rem = spec_hash_map_iter(&self.pids).remaining();
        let ghost mut seen: Set<Pid> = Set::empty();
        proof {
            lemma_enumeration_keys_distinct(self.pids@, rem);
            lemma_matching_of_empty(self.pids@, name@);
        }
        loop
            invariant_except_break
                w.wf(),
                w.iter.decrease() is Some,
                w.seq() == rem,
                forall|i: int|
                    0 <= i < rem.len() ==> self.pids@.contains_key(*(#[trigger] rem[i]).0)
                        && self.pids@[*rem[i].0] == *rem[i].1,
                forall|a: int, b: int|
                    0 <= a < b < rem.len() ==> *(#[trigger] rem[a]).0 != *(#[trigger] rem[b]).0,
                seen.finite(),
                forall|i: int| 0 <= i < w.index() ==> seen.contains(*(#[trigger] rem[i]).0),
                forall|p: Pid|
                    #[trigger] seen.contains(p) ==> exists|i: int|
                        0 <= i < w.index() && *(#[trigger] rem[i]).0 == p,
                matching_pids_of(self.pids@, name@, seen).finite(),
                result@.len() == matching_pids_of(self.pids@, name@, seen).len(),
                forall|i2: int|
                    0 <= i2 < result@.len() ==> (#[trigger] result@[i2]).comm@ == name@
                        && exists|j: int| 0 <= j < w.index() && (#[trigger] rem[j]).1 == result@[i2],
                forall|j: int|
                    0 <= j < w.index() && (#[trigger] rem[j]).1.comm@ == name@ ==> exists|i2: int|
                        0 <= i2 < result@.len() && (#[trigger] result@[i2]) == rem[j].1,
            ensures
                w.index() == rem.len(),
                forall|i: int|
                    0 <= i < rem.len() ==> self.pids@.contains_key(*(#[trigger] rem[i]).0)
                        && self.pids@[*rem[i].0] == *rem[i].1,
                forall|i: int| 0 <= i < w.index() ==> seen.contains(*(#[trigger] rem[i]).0),
                forall|p: Pid|
                    #[trigger] seen.contains(p) ==> exists|i: int|
                        0 <= i < w.index() && *(#[trigger] rem[i]).0 == p,
                result@.len() == matching_pids_of(self.pids@, name@, seen).len(),
                forall|i2: int|
                    0 <= i2 < result@.len() ==> (#[trigger] result@[i2]).comm@ == name@
                        && exists|j: int| 0 <= j < w.index() && (#[trigger] rem[j]).1 == result@[i2],
                forall|j: int|
                    0 <= j < w.index() && (#[trigger] rem[j]).1.comm@ == name@ ==> exists|i2: int|
                        0 <= i2 < result@.len() && (#[trigger] result@[i2]) == rem[j].1,
            decreases w.iter.decrease()->0,
        {
            let ghost idx = w.index();
            let ghost pre_seen = seen;
            match w.next() {
                Some(p) => {
                    proof {
                        assert(p == rem[idx]);
                        let k = *p.0;
                        if pre_seen.contains(k) {
                            let i = choose|i: int| 0 <= i < idx && *(#[trigger] rem[i]).0 == k;
                            assert(false);
                        }
                        seen = pre_seen.insert(k);
                    }
                    let ghost pre_result = result@;
                    if p.1.comm == *name {
                        result.push(p.1);
                    }
                    proof {
                        let k = *p.0;
                        assert(self.pids@[k] == *p.1);
                        lemma_count_step(self.pids@, name@, pre_seen, k, p.1.comm@ == name@);
                        lemma_filter_step(rem, pre_result, result@, name@, idx);
                    }
                },
                None => {
                    break;
                },
            }
        }
        proof {
            lemma_seen_is_dom(self.pids@, rem, seen);
            lemma_matching_of_dom(self.pids@, name@);
            lemma_collected_sound(self.pids@, rem, result@, name@);
            lemma_collected_complete(self.pids@, rem, result@, name@);
        }
        result
    }

    /// The synthetic global CPU aggregate.
    pub fn get_global_processor_info(&self) -> (r: &Processor)
        ensures
            *r == self.processors.global,
    {
        self.processors.get_global_processor()
    }

    /// All logical CPUs.
    pub fn get_processors(&self) -> (r: &[Processor])
        ensures
            r@ == self.processors.cpus@,
    {
        self.processors.get_cpus().as_slice()
    }

    /// Physical core counting is not supported by this engine.
    pub fn get_physical_core_count(&self) -> (r: Option<usize>)
        ensures
            r is None,
    {
        None
    }

    /// Total memory, in kB.
    pub fn get_total_memory(&self) -> (r: u64)
        ensures
            r == self.mem_total,
    {
        self.mem_total
    }

    /// Free memory, in kB.
    pub fn get_free_memory(&self) -> (r: u64)
        ensures
            r == self.mem_free,
    {
        self.mem_free
    }

    /// Available memory, in kB; this engine equates it with free memory.
    pub fn get_available_memory(&self) -> (r: u64)
        ensures
            r == self.mem_free,
    {
        self.mem_free
    }

    /// Used memory, in kB: total minus free. Never underflows: the sampler
    /// maintains free at most total.
    pub fn get_used_memory(&self) -> (r: u64)
        requires
            self.wf(),
        ensures
            r == self.mem_total - self.mem_free,
    {
        self.mem_total - self.mem_free
    }

    /// Total swap, in kB.
    pub fn get_total_swap(&self) -> (r: u64)
        ensures
            r == self.swap_total,
    {
        self.swap_total
    }

    /// Free swap, in kB.
    pub fn get_free_swap(&self) -> (r: u64)
        ensures
            r == self.swap_free,
    {
        self.swap_free
    }

    /// Used swap, in kB: total minus free. Never underflows: the sampler
    /// maintains free at most total.
    pub fn get_used_swap(&self) -> (r: u64)
        requires
            self.wf(),
        ensures
            r == self.swap_total - self.swap_free,
    {
        self.swap_total - self.swap_free
    }

    /// The disk list.
    pub fn get_disks(&self) -> (r: &Vec<Disk>)
        ensures
            *r == self.disks,
    {
        &self.disks
    }

    /// The interface registry.
    pub fn get_networks(&self) -> (r: &Networks)
        ensures
            *r == self.networks,
    {
        &self.networks
    }

    /// The interface registry, for explicit external mutation (entry
    /// removal is an explicit external operation, never a refresh side
    /// effect).
    pub fn get_networks_mut(&mut self) -> (r: &mut Networks)
        ensures
            *r == old(self).networks,
            final(self).networks == *final(r),
            final(self).pids == old(self).pids,
            final(self).processors == old(self).processors,
            final(self).disks == old(self).disks,
            final(self).mem_total == old(self).mem_total,
            final(self).mem_free == old(self).mem_free,
            final(self).swap_total == old(self).swap_total,
            final(self).swap_free == old(self).swap_free,
            final(self).uptime == old(self).uptime,
            final(self).boot_time == old(self).boot_time,
    {
        &mut self.networks
    }

    /// The disk list, for explicit external mutation.
    pub fn get_disks_mut(&mut self) -> (r: &mut Vec<Disk>)
        ensures
            *r == old(self).disks,
            final(self).disks == *final(r),
            final(self).pids == old(self).pids,
            final(self).processors == old(self).processors,
            final(self).networks == old(self).networks,
            final(self).mem_total == old(self).mem_total,
            final(self).mem_free == old(self).mem_free,
            final(self).swap_total == old(self).swap_total,
            final(self).swap_free == old(self).swap_free,
            final(self).uptime == old(self).uptime,
            final(self).boot_time == old(self).boot_time,
    {
        &mut self.disks
    }

    /// Seconds since boot, as of the last system refresh.
    pub fn get_uptime(&self) -> (r: u64)
        ensures
            r == self.uptime,
    {
        self.uptime
    }

    /// Boot time, in seconds since the epoch.
    pub fn get_boot_time(&self) -> (r: u64)
        ensures
            r == self.boot_time,
    {
        self.boot_time
    }
}

} // verus!
