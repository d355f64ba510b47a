//! Disk occupancy from raw mount records.
//!
//! The OS adapter hands in one [`MountStat`] per mounted filesystem;
//! [`Mounts::refresh_mounts`] keeps the real ones (pseudo-filesystems and
//! records whose space figures would overflow are dropped) and turns each
//! into a [`Disk`].

use vstd::prelude::*;

verus! {

/// Where a disk's data lives.
#[derive(Clone, Copy, Debug, PartialEq, Eq, Structural)]
pub enum DiskType {
    /// Spinning hard disk drive
    HDD,
    /// Solid state drive
    SSD,
    /// Auto-mounted, assumed removable
    Removable,
    /// Anything else, tagged with the filesystem type id
    Unknown(isize),
}

/// The mount flag that marks an auto-mounted filesystem.
pub const MNT_AUTOMOUNTED: u64 = 0x0000000200000000;

/// Filesystem type ids of pseudo-filesystems that hold no disk data
/// (device, process, file-descriptor, null and Linux-process filesystems).
pub open spec fn spec_ignored_disk_type(f_type: u32) -> bool {
    ||| f_type == 0x00000071
    ||| f_type == 0x00000002
    ||| f_type == 0x00000059
    ||| f_type == 0x00000029
    ||| f_type == 0x000000b5
}

fn ignored_disk_type(f_type: u32) -> (r: bool)
    ensures
        r == spec_ignored_disk_type(f_type),
{
    f_type == 0x00000071 || f_type == 0x00000002 || f_type == 0x00000059 || f_type == 0x00000029
        || f_type == 0x000000b5
}

/// One raw mount record, as the OS adapter reads it from the mount table.
pub struct MountStat {
    /// Filesystem type id
    pub f_type: u32,
    /// Mount flags
    pub f_flags: u64,
    /// Filesystem type name
    pub f_fstypename: String,
    /// Mount point path
    pub f_mntonname: String,
    /// Total data blocks
    pub f_blocks: u64,
    /// Free blocks
    pub f_bfree: u64,
    /// Block size, in bytes
    pub f_bsize: u64,
}

/// The kind derived from a mount record: an auto-mounted filesystem is
/// assumed removable, everything else is tagged with its type id.
pub open spec fn spec_disk_type(f_type: u32, f_flags: u64) -> DiskType {
    if f_flags & MNT_AUTOMOUNTED == MNT_AUTOMOUNTED {
        DiskType::Removable
    } else {
        DiskType::Unknown(f_type as isize)
    }
}

/// One mounted filesystem's identity and occupancy.
#[derive(Debug)]
pub struct Disk {
    pub kind: DiskType,
    pub name: String,
    pub file_system: String,
    pub total_space: u64,
    pub available_space: u64,
    pub mount_point: String,
}

/// Whether a raw mount record's space figures fit the machine word: a
/// record whose product would wrap is rejected rather than stored as a
/// wrapped value.
pub open spec fn spec_mount_fits(m: MountStat) -> bool {
    &&& m.f_blocks * m.f_bsize <= u64::MAX
    &&& m.f_bfree * m.f_bsize <= u64::MAX
}

/// Whether a disk value holds exactly the content of a mount record.
pub open spec fn spec_disk_matches(d: Disk, m: MountStat) -> bool {
    &&& d.kind == spec_disk_type(m.f_type, m.f_flags)
    &&& d.name@ == m.f_mntonname@
    &&& d.file_system@ == m.f_fstypename@
    &&& d.mount_point@ == m.f_mntonname@
    &&& d.total_space == m.f_blocks * m.f_bsize
    &&& d.available_space == m.f_bfree * m.f_bsize
}

impl Disk {
    pub fn get_type(&self) -> (r: DiskType)
        ensures
            r == self.kind,
    {
        self.kind
    }

    pub fn get_name(&self) -> (r: &str)
        ensures
            r@ == self.name@,
    {
        self.name.as_str()
    }

    pub fn get_file_system(&self) -> (r: &str)
        ensures
            r@ == self.file_system@,
    {
        self.file_system.as_str()
    }

    pub fn get_mount_point(&self) -> (r: &str)
        ensures
            r@ == self.mount_point@,
    {
        self.mount_point.as_str()
    }

    pub fn get_total_space(&self) -> (r: u64)
        ensures
            r == self.total_space,
    {
        self.total_space
    }

    pub fn get_available_space(&self) -> (r: u64)
        ensures
            r == self.available_space,
    {
        self.available_space
    }

    /// Refreshes the disk from a fresh raw record of its mount point.
    /// Returns `false`, leaving the disk untouched, when the record is
    /// missing (the underlying query failed) or its space figures would
    /// overflow.
    pub fn refresh(&mut self, raw: Option<&MountStat>) -> (r: bool)
        ensures
            r == (raw matches Some(m) && spec_mount_fits(*m)),
            raw matches Some(m) ==> (spec_mount_fits(*m) ==> spec_disk_matches(
                *final(self),
                *m,
            )),
            !r ==> *final(self) == *old(self),
    {
        match raw {
            Some(m) => {
                let total = m.f_blocks.checked_mul(m.f_bsize);
                let avail = m.f_bfree.checked_mul(m.f_bsize);
                match (total, avail) {
                    (Some(total_space), Some(available_space)) => {
                        self.kind = Mounts::get_disk_type(m.f_type, m.f_flags);
                        self.name = m.f_mntonname.clone();
                        self.file_system = m.f_fstypename.clone();
                        self.mount_point = m.f_mntonname.clone();
                        self.total_space = total_space;
                        self.available_space = available_space;
                        true
                    },
                    _ => false,
                }
            },
            None => false,
        }
    }
}

/// Whether a raw mount record describes a disk worth listing: not a
/// pseudo-filesystem, not a null mount, and with space figures that fit.
pub open spec fn spec_mount_kept(m: MountStat) -> bool {
    &&& !spec_ignored_disk_type(m.f_type)
    &&& m.f_fstypename@ != "nullfs"@
    &&& spec_mount_fits(m)
}

/// The subsequence of records worth listing, in order.
pub open spec fn spec_kept_mounts(s: Seq<MountStat>) -> Seq<MountStat>
    decreases s.len(),
{
    if s.len() == 0 {
        Seq::empty()
    } else if spec_mount_kept(s.last()) {
        spec_kept_mounts(s.drop_last()).push(s.last())
    } else {
        spec_kept_mounts(s.drop_last())
    }
}

/// The list of mounted filesystems, as disks.
#[derive(Debug)]
pub struct Mounts(pub Vec<Disk>);

impl Default for Mounts {
    fn default() -> (r: Self)
        ensures
            r.0@.len() == 0,
    {
        Mounts(Vec::new())
    }
}

impl Mounts {
    /// Rebuilds the disk list from a raw mount table snapshot: every kept
    /// record (see [`spec_mount_kept`]) becomes one disk, in snapshot order;
    /// pseudo-filesystems, null mounts, and records whose space figures
    /// would overflow are dropped.
    pub fn refresh_mounts(&mut self, stats: &Vec<MountStat>)
        ensures
            final(self).0@.len() == spec_kept_mounts(stats@).len(),
            forall|j: int|
                0 <= j < final(self).0@.len() ==> spec_disk_matches(
                    #[trigger] final(self).0@[j],
                    spec_kept_mounts(stats@)[j],
                ),
    {
        let nullfs: String = String::from_str("nullfs");
        let mut disks: Vec<Disk> = Vec::new();
        let mut k: usize = 0;
        proof {
            assert(stats@.take(0) =~= Seq::<MountStat>::empty());
        }
        while k < stats.len()
            invariant
                0 <= k <= stats@.len(),
                nullfs@ == "nullfs"@,
                disks@.len() == spec_kept_mounts(stats@.take(k as int)).len(),
                forall|j: int|
                    0 <= j < disks@.len() ==> spec_disk_matches(
                        #[trigger] disks@[j],
                        spec_kept_mounts(stats@.take(k as int))[j],
                    ),
            decreases stats@.len() - k,
        {
            proof {
                assert(stats@.take(k + 1).drop_last() =~= stats@.take(k as int));
                assert(stats@.take(k + 1).last() == stats@[k as int]);
            }
            let m = &stats[k];
            if !ignored_disk_type(m.f_type) && !(m.f_fstypename == nullfs) {
                let total = m.f_blocks.checked_mul(m.f_bsize);
                let avail = m.f_bfree.checked_mul(m.f_bsize);
                match (total, avail) {
                    (Some(total_space), Some(available_space)) => {
                        let d = Disk {
                            kind: Mounts::get_disk_type(m.f_type, m.f_flags),
                            name: m.f_mntonname.clone(),
                            file_system: m.f_fstypename.clone(),
                            mount_point: m.f_mntonname.clone(),
                            total_space,
                            available_space,
                        };
                        disks.push(d);
                    },
                    _ => {},
                }
            }
            k = k + 1;
        }
        proof {
            assert(stats@.take(stats@.len() as int) =~= stats@);
        }
        self.0 = disks;
    }

    /// Classifies a mount by its flags: auto-mounted filesystems are assumed
    /// removable, everything else is left unclassified with its type id.
    pub fn get_disk_type(f_type: u32, f_flags: u64) -> (r: DiskType)
        ensures
            r == spec_disk_type(f_type, f_flags),
    {
        if f_flags & MNT_AUTOMOUNTED == MNT_AUTOMOUNTED {
            DiskType::Removable
        } else {
            DiskType::Unknown(f_type as isize)
        }
    }

    /// Hands the disk list out.
    pub fn get_mounts(self) -> (r: Vec<Disk>)
        ensures
            r == self.0,
    {
        self.0
    }
}

} // verus!
