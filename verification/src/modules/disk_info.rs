//! The disks: what is used and free over all mounted file systems.

use crate::modules::SystemInfo;
use crate::text::{has_prefix, nth_word, starts_with, text_eq, word};
use crate::utils::{insert_size, size_facts, SizeText};
use vstd::prelude::*;

verus! {

/// Sets the size facts under `disk`.
pub fn load_disk_info(info: &mut SystemInfo, disk: &SizeText)
    ensures
        final(info)@ == size_facts(old(info)@, "disk"@, *disk),
{
    insert_size("disk", disk, info);
}

/// The space of the disks in bytes: what is used, what is free, and all of it.
#[derive(Clone, Copy, Debug, PartialEq, Eq, Structural)]
pub struct DiskInfo {
    pub used: usize,
    pub free: usize,
    pub total: usize,
}

impl Default for DiskInfo {
    /// The disks of which nothing is known.
    fn default() -> (unknown: DiskInfo)
        ensures
            unknown == (DiskInfo { used: 0, free: 0, total: 0 }),
    {
        DiskInfo { used: 0, free: 0, total: 0 }
    }
}

/// The kinds of file system that hold no files of a disk.
pub open spec fn is_virtual_fs(kind: Seq<char>) -> bool {
    ||| kind == "sysfs"@
    ||| kind == "proc"@
    ||| kind == "devpts"@
    ||| kind == "tmpfs"@
    ||| kind == "devtmpfs"@
    ||| kind == "debugfs"@
    ||| kind == "securityfs"@
    ||| kind == "cgroup"@
    ||| kind == "pstore"@
    ||| kind == "autofs"@
    ||| kind == "mqueue"@
    ||| kind == "hugetlbfs"@
    ||| kind == "fusectl"@
    ||| kind == "fuse.gvfsd-fuse"@
}

/// Tests whether a kind of file system holds no files of a disk.
pub fn fs_is_virtual(kind: &str) -> (b: bool)
    ensures
        b == is_virtual_fs(kind@),
{
    text_eq(kind, "sysfs")
        || text_eq(kind, "proc")
        || text_eq(kind, "devpts")
        || text_eq(kind, "tmpfs")
        || text_eq(kind, "devtmpfs")
        || text_eq(kind, "debugfs")
        || text_eq(kind, "securityfs")
        || text_eq(kind, "cgroup")
        || text_eq(kind, "pstore")
        || text_eq(kind, "autofs")
        || text_eq(kind, "mqueue")
        || text_eq(kind, "hugetlbfs")
        || text_eq(kind, "fusectl")
        || text_eq(kind, "fuse.gvfsd-fuse")
}

/// The mount point that a line of the mount table asks to measure. A line
/// names a device, a mount point and a kind of file system, in this order. One
/// with fewer than three words, one of a virtual kind, and one whose device
/// begins with `none` ask for nothing.
pub open spec fn measured_mount(line: Seq<char>) -> Option<Seq<char>> {
    if word(line, 0) is None || word(line, 1) is None || word(line, 2) is None {
        None
    } else if is_virtual_fs(word(line, 2)->0) || has_prefix(word(line, 0)->0, "none"@) {
        None
    } else {
        word(line, 1)
    }
}

/// Finds the mount point that a line of the mount table asks to measure.
pub fn mount_to_measure(line: &str) -> (found: Option<String>)
    ensures
        match found {
            Some(mount) => measured_mount(line@) == Some(mount@),
            None => measured_mount(line@) is None,
        },
{
    let device = match nth_word(line, 0) {
        Some(device) => device,
        None => {
            return None;
        },
    };
    let mount = match nth_word(line, 1) {
        Some(mount) => mount,
        None => {
            return None;
        },
    };
    let kind = match nth_word(line, 2) {
        Some(kind) => kind,
        None => {
            return None;
        },
    };
    if fs_is_virtual(kind.as_str()) || starts_with(device.as_str(), "none") {
        None
    } else {
        Some(mount)
    }
}

/// The bytes of the file systems measured so far: all of them, and those that
/// are free.
#[derive(Clone, Copy, Debug, PartialEq, Eq, Structural)]
pub struct DiskTotals {
    pub total: u64,
    pub free: u64,
}

impl DiskTotals {
    /// Nothing measured.
    pub fn new() -> (totals: DiskTotals)
        ensures
            totals == (DiskTotals { total: 0, free: 0 }),
    {
        DiskTotals { total: 0, free: 0 }
    }

    /// Whether the figures of one more file system can be taken in without
    /// leaving the range of the totals.
    pub open spec fn has_room(&self, blocks: u64, available: u64, block_size: u64) -> bool {
        blocks > 0 ==> self.total + blocks * block_size <= u64::MAX && self.free + available
            * block_size <= u64::MAX
    }

    /// Tests whether the figures of one more file system can be taken in.
    pub fn can_add(&self, blocks: u64, available: u64, block_size: u64) -> (b: bool)
        ensures
            b == self.has_room(blocks, available, block_size),
    {
        if blocks == 0 {
            return true;
        }
        let all = match blocks.checked_mul(block_size) {
            Some(bytes) => self.total.checked_add(bytes),
            None => None,
        };
        let free = match available.checked_mul(block_size) {
            Some(bytes) => self.free.checked_add(bytes),
            None => None,
        };
        all.is_some() && free.is_some()
    }

    /// Takes in one file system: its blocks, those of them that are available,
    /// and the size of a block in bytes. One without blocks does not count.
    pub fn add(&mut self, blocks: u64, available: u64, block_size: u64)
        requires
            old(self).has_room(blocks, available, block_size),
        ensures
            blocks > 0 ==> final(self).total == old(self).total + blocks * block_size,
            blocks > 0 ==> final(self).free == old(self).free + available * block_size,
            blocks == 0 ==> *final(self) == *old(self),
    {
        if blocks > 0 {
            assert(blocks * block_size <= u64::MAX && available * block_size <= u64::MAX) by {
                assert(blocks * block_size >= 0 && available * block_size >= 0)
                    by (nonlinear_arith);
            }
            self.total = self.total + blocks * block_size;
            self.free = self.free + available * block_size;
        }
    }

    /// The space of the disks: what is used is all that is not free, and
    /// nothing where more is free than there is.
    pub fn usage(&self) -> (disk: DiskInfo)
        ensures
            disk.total == self.total as usize,
            disk.free == self.free as usize,
            disk.used == (if self.total > self.free {
                (self.total - self.free) as u64
            } else {
                0u64
            }) as usize,
    {
        let used: u64 = if self.total > self.free {
            self.total - self.free
        } else {
            0
        };
        DiskInfo {
            used: #[verifier::truncate]
            (used as usize),
            free: #[verifier::truncate]
            (self.free as usize),
            total: #[verifier::truncate]
            (self.total as usize),
        }
    }
}

} // verus!
