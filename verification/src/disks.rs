//! Disk accessors: space accounting per mounted filesystem and the
//! filter that keeps only physical drives.

use crate::error::Error;
use crate::models::{Disks, MountEntry};
use crate::text::{
    slice_to_vec_range, spec_fields, spec_lines, split_fields, split_lines, str_eq,
    utf8_to_string,
};
use vstd::prelude::*;
use vstd::arithmetic::mul::lemma_mul_inequality;
use vstd::utf8::{decode_utf8, valid_utf8};

verus! {

/// What one line of the mount table contributes: the device, mount
/// point and filesystem type of its first three columns, or nothing
/// when the line is too short or a column is not decodable text.
pub open spec fn mount_line(l: Seq<u8>) -> Option<(Seq<char>, Seq<char>, Seq<char>)> {
    let fs = spec_fields(l);
    if fs.len() < 3 {
        None
    } else if !valid_utf8(fs[0]) || !valid_utf8(fs[1]) || !valid_utf8(fs[2]) {
        None
    } else {
        Some((decode_utf8(fs[0]), decode_utf8(fs[1]), decode_utf8(fs[2])))
    }
}

/// The entries of the first `k` lines of the mount table, in order;
/// lines that carry no entry contribute nothing.
pub open spec fn spec_mounts(ls: Seq<Seq<u8>>, k: int) -> Seq<(Seq<char>, Seq<char>, Seq<char>)>
    decreases k,
{
    if k <= 0 {
        Seq::empty()
    } else {
        let prev = spec_mounts(ls, k - 1);
        match mount_line(ls[k - 1]) {
            None => prev,
            Some(row) => prev.push(row),
        }
    }
}

/// Parses the mounted-filesystem table: one entry per line that carries
/// at least the device, mount point and filesystem type columns.
pub fn parse_mounts(text: &[u8]) -> (r: Vec<MountEntry>)
    ensures
        ({
            let rows = spec_mounts(spec_lines(text@), spec_lines(text@).len() as int);
            &&& r@.len() == rows.len()
            &&& forall|i: int|
                0 <= i < rows.len() ==> {
                    let m = #[trigger] r@[i];
                    m.mntfrom@ == rows[i].0 && m.mnton@ == rows[i].1 && m.fstype@ == rows[i].2
                }
        }),
{
    let lines = split_lines(text);
    let ghost all = lines.deep_view();
    let n = lines.len();
    let mut r: Vec<MountEntry> = Vec::new();
    let mut i: usize = 0;
    while i < n
        invariant
            0 <= i <= n == all.len(),
            all == lines.deep_view(),
            all == spec_lines(text@),
            ({
                let rows = spec_mounts(all, i as int);
                &&& r@.len() == rows.len()
                &&& forall|j: int|
                    0 <= j < rows.len() ==> {
                        let m = #[trigger] r@[j];
                        m.mntfrom@ == rows[j].0 && m.mnton@ == rows[j].1 && m.fstype@ == rows[
                            j
                        ].2
                    }
            }),
        decreases n - i,
    {
        proof {
            assert(all[i as int] =~= lines@[i as int]@);
        }
        match parse_mount_line(lines[i].as_slice()) {
            Some(m) => {
                r.push(m);
            },
            None => {},
        }
        i = i + 1;
    }
    r
}

/// Parses one line of the mount table, exactly as [`mount_line`] says.
fn parse_mount_line(l: &[u8]) -> (r: Option<MountEntry>)
    ensures
        match mount_line(l@) {
            None => r is None,
            Some(row) => match r {
                Some(m) => m.mntfrom@ == row.0 && m.mnton@ == row.1 && m.fstype@ == row.2,
                None => false,
            },
        },
{
    let fields = split_fields(l);
    let ghost fs = spec_fields(l@);
    if fields.len() < 3 {
        return None;
    }
    proof {
        assert(fs[0] =~= fields@[0]@);
        assert(fs[1] =~= fields@[1]@);
        assert(fs[2] =~= fields@[2]@);
    }
    let f0 = slice_to_vec_range(fields[0].as_slice(), 0, fields[0].len());
    let f1 = slice_to_vec_range(fields[1].as_slice(), 0, fields[1].len());
    let f2 = slice_to_vec_range(fields[2].as_slice(), 0, fields[2].len());
    proof {
        assert(f0@ =~= fs[0]);
        assert(f1@ =~= fs[1]);
        assert(f2@ =~= fs[2]);
    }
    let mntfrom = match utf8_to_string(f0) {
        Some(s) => s,
        None => {
            return None;
        },
    };
    let mnton = match utf8_to_string(f1) {
        Some(s) => s,
        None => {
            return None;
        },
    };
    let fstype = match utf8_to_string(f2) {
        Some(s) => s,
        None => {
            return None;
        },
    };
    Some(MountEntry { fstype, mntfrom, mnton })
}

/// The fixed allowlist of filesystem type names treated as physical
/// drives.  A best-effort classifier, not a perfect one.
pub open spec fn is_physical_name(s: Seq<char>) -> bool {
    ||| s == "ext2"@
    ||| s == "ext3"@
    ||| s == "ext4"@
    ||| s == "vfat"@
    ||| s == "ntfs"@
    ||| s == "zfs"@
    ||| s == "hfs"@
    ||| s == "reiserfs"@
    ||| s == "reiser4"@
    ||| s == "exfat"@
    ||| s == "f2fs"@
    ||| s == "hfsplus"@
    ||| s == "jfs"@
    ||| s == "btrfs"@
    ||| s == "minix"@
    ||| s == "nilfs"@
    ||| s == "xfs"@
    ||| s == "apfs"@
    ||| s == "fuseblk"@
}

/// Detects whether a filesystem type name names a physical drive:
/// membership in the fixed allowlist, nothing subtler.
pub fn is_physical_filesys(filesystem: &str) -> (r: bool)
    ensures
        r == is_physical_name(filesystem@),
{
    str_eq(filesystem, "ext2") || str_eq(filesystem, "ext3") || str_eq(filesystem, "ext4")
        || str_eq(filesystem, "vfat") || str_eq(filesystem, "ntfs") || str_eq(filesystem, "zfs")
        || str_eq(filesystem, "hfs") || str_eq(filesystem, "reiserfs") || str_eq(
        filesystem,
        "reiser4",
    ) || str_eq(filesystem, "exfat") || str_eq(filesystem, "f2fs") || str_eq(filesystem, "hfsplus")
        || str_eq(filesystem, "jfs") || str_eq(filesystem, "btrfs") || str_eq(filesystem, "minix")
        || str_eq(filesystem, "nilfs") || str_eq(filesystem, "xfs") || str_eq(filesystem, "apfs")
        || str_eq(filesystem, "fuseblk")
}

/// Checks that a caller-supplied path can be encoded for the
/// filesystem-statistics kernel call: an interior NUL byte cannot.
pub fn check_path(path: &[u8]) -> (r: Result<(), Error>)
    ensures
        path@.contains(0) ==> r == Err::<(), Error>(Error::InvalidInput),
        !path@.contains(0) ==> r == Ok::<(), Error>(()),
{
    let n = path.len();
    let mut i: usize = 0;
    while i < n
        invariant
            0 <= i <= n == path@.len(),
            forall|j: int| 0 <= j < i ==> path@[j] != 0,
        decreases n - i,
    {
        if path[i] == 0 {
            return Err(Error::InvalidInput);
        }
        i = i + 1;
    }
    Ok(())
}

/// Derives the total and available byte counts of one filesystem from
/// the kernel's block accounting: block counts scaled by the fragment
/// size.  Canonical bytes, no further rescaling.  An available block
/// count within the total keeps available bytes within total bytes.
pub fn disk_usage(f_blocks: u64, f_bavail: u64, f_frsize: u64) -> (r: (u64, u64))
    requires
        f_blocks * f_frsize <= u64::MAX,
        f_bavail * f_frsize <= u64::MAX,
    ensures
        r.0 == f_blocks * f_frsize,
        r.1 == f_bavail * f_frsize,
        f_bavail <= f_blocks ==> r.1 <= r.0,
{
    proof {
        if f_bavail <= f_blocks {
            lemma_mul_inequality(f_bavail as int, f_blocks as int, f_frsize as int);
        }
    }
    (f_blocks * f_frsize, f_bavail * f_frsize)
}

/// Keeps the mount-table entries whose filesystem type is on the
/// physical allowlist, in order.
pub fn physical_mounts(mounts: &Vec<MountEntry>) -> (r: Vec<MountEntry>)
    ensures
        r@ == mounts@.filter(|m: MountEntry| is_physical_name(m.fstype@)),
{
    let mut r: Vec<MountEntry> = Vec::new();
    let n = mounts.len();
    let mut i: usize = 0;
    proof {
        reveal(Seq::filter);
        assert(mounts@.take(0).filter(|m: MountEntry| is_physical_name(m.fstype@))
            =~= Seq::<MountEntry>::empty());
    }
    while i < n
        invariant
            0 <= i <= n == mounts@.len(),
            r@ == mounts@.take(i as int).filter(|m: MountEntry| is_physical_name(m.fstype@)),
        decreases n - i,
    {
        let m = &mounts[i];
        let keep = is_physical_filesys(m.fstype.as_str());
        let ghost prev = r@;
        if keep {
            r.push(
                MountEntry {
                    fstype: m.fstype.clone(),
                    mntfrom: m.mntfrom.clone(),
                    mnton: m.mnton.clone(),
                },
            );
        }
        proof {
            reveal(Seq::filter);
            let lam = |m: MountEntry| is_physical_name(m.fstype@);
            let t = mounts@.take(i + 1);
            assert(t.drop_last() =~= mounts@.take(i as int));
            assert(t.last() == mounts@[i as int]);
            assert(mounts@[i as int] == (MountEntry {
                fstype: mounts@[i as int].fstype,
                mntfrom: mounts@[i as int].mntfrom,
                mnton: mounts@[i as int].mnton,
            }));
            assert(lam(t.last()) == keep);
            if keep {
                assert(r@ =~= prev.push(mounts@[i as int]));
                assert(t.filter(lam) =~= t.drop_last().filter(lam).push(t.last()));
            } else {
                assert(t.filter(lam) =~= t.drop_last().filter(lam));
            }
        }
        i = i + 1;
    }
    proof {
        assert(mounts@.take(n as int) =~= mounts@);
    }
    r
}

/// Assembles the per-mount usage answers into the final partition list.
/// Every mount must have resolved: the first failed usage query aborts
/// the enumeration with that failure, and no partial list is returned.
pub fn get_partitions_physical(mounts: &Vec<MountEntry>, usages: &Vec<Result<(u64, u64), Error>>)
    -> (r: Result<Vec<Disks>, Error>)
    requires
        mounts@.len() == usages@.len(),
    ensures
        match r {
            Ok(ds) => {
                &&& ds@.len() == mounts@.len()
                &&& forall|i: int| 0 <= i < ds@.len() ==> (#[trigger] usages@[i]) is Ok
                &&& forall|i: int|
                    0 <= i < ds@.len() ==> usages@[i] == Ok::<(u64, u64), Error>(
                        ((#[trigger] ds@[i]).total_space, ds@[i].avail_space),
                    ) && ds@[i].name == mounts@[i].mntfrom && ds@[i].mount_point
                        == mounts@[i].mnton
            },
            Err(e) => exists|k: int|
                {
                    &&& 0 <= k < usages@.len()
                    &&& (#[trigger] usages@[k]) == Err::<(u64, u64), Error>(e)
                    &&& forall|j: int| 0 <= j < k ==> (#[trigger] usages@[j]) is Ok
                },
        },
{
    let mut ds: Vec<Disks> = Vec::new();
    let n = mounts.len();
    let mut i: usize = 0;
    while i < n
        invariant
            0 <= i <= n == mounts@.len() == usages@.len(),
            ds@.len() == i,
            forall|j: int| 0 <= j < i ==> (#[trigger] usages@[j]) is Ok,
            forall|j: int|
                0 <= j < i ==> usages@[j] == Ok::<(u64, u64), Error>(
                    ((#[trigger] ds@[j]).total_space, ds@[j].avail_space),
                ) && ds@[j].name == mounts@[j].mntfrom && ds@[j].mount_point == mounts@[j].mnton,
        decreases n - i,
    {
        match &usages[i] {
            Ok(u) => {
                ds.push(
                    Disks {
                        name: mounts[i].mntfrom.clone(),
                        mount_point: mounts[i].mnton.clone(),
                        total_space: u.0,
                        avail_space: u.1,
                    },
                );
            },
            Err(e) => {
                return Err(*e);
            },
        }
        i = i + 1;
    }
    Ok(ds)
}

/// Every partition record assembled from coherent usage answers is
/// well formed: when no usage answer reports more available than total
/// space, no assembled record does either.
pub proof fn lemma_partitions_wf(usages: Seq<Result<(u64, u64), Error>>, ds: Seq<Disks>)
    requires
        ds.len() <= usages.len(),
        forall|i: int|
            0 <= i < ds.len() ==> usages[i] == Ok::<(u64, u64), Error>(
                ((#[trigger] ds[i]).total_space, ds[i].avail_space),
            ),
        forall|i: int|
            0 <= i < usages.len() ==> ((#[trigger] usages[i]) matches Ok(u) ==> u.1 <= u.0),
    ensures
        forall|i: int| 0 <= i < ds.len() ==> (#[trigger] ds[i]).wf(),
{
}

} // verus!
