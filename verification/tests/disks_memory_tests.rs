use sys_metrics::clock_ticks;
use sys_metrics::disks::check_path;
use sys_metrics::disks::disk_usage;
use sys_metrics::disks::get_partitions_physical;
use sys_metrics::disks::is_physical_filesys;
use sys_metrics::disks::physical_mounts;
use sys_metrics::error::Error;
use sys_metrics::memory::get_memory;
use sys_metrics::memory::memory_from_summary;
use sys_metrics::models::MountEntry;

#[test]
fn physical_filesystems_are_on_the_allowlist() {
    assert!(is_physical_filesys("ext4"));
    assert!(is_physical_filesys("btrfs"));
    assert!(is_physical_filesys("apfs"));
    assert!(is_physical_filesys("fuseblk"));
    assert!(!is_physical_filesys("tmpfs"));
    assert!(!is_physical_filesys("proc"));
    assert!(!is_physical_filesys(""));
    assert!(!is_physical_filesys("ext"));
}

#[test]
fn disk_usage_scales_blocks_by_fragment_size() {
    let (total, avail) = disk_usage(1000, 250, 4096);
    assert_eq!(total, 4096000);
    assert_eq!(avail, 1024000);
    assert!(avail <= total);
}

#[test]
fn disk_usage_avail_never_exceeds_total() {
    let (total, avail) = disk_usage(123456, 123456, 512);
    assert!(avail <= total);
    let (total, avail) = disk_usage(5, 0, 131072);
    assert!(avail <= total);
}

#[test]
fn path_with_interior_nul_is_invalid_input() {
    assert_eq!(check_path(b"/mnt/data"), Ok(()));
    assert_eq!(check_path(b"/mnt/\0data"), Err(Error::InvalidInput));
    assert_eq!(check_path(b""), Ok(()));
}

fn mount(fstype: &str, from: &str, on: &str) -> MountEntry {
    MountEntry {
        fstype: fstype.to_string(),
        mntfrom: from.to_string(),
        mnton: on.to_string(),
    }
}

#[test]
fn physical_mounts_filters_by_filesystem_type() {
    let mounts = vec![
        mount("ext4", "/dev/sda1", "/"),
        mount("tmpfs", "tmpfs", "/tmp"),
        mount("xfs", "/dev/sdb1", "/data"),
        mount("proc", "proc", "/proc"),
    ];
    let kept = physical_mounts(&mounts);
    assert_eq!(kept.len(), 2);
    assert_eq!(kept[0].mnton, "/");
    assert_eq!(kept[1].mnton, "/data");
}

#[test]
fn partitions_assemble_from_usages() {
    let mounts = vec![mount("ext4", "/dev/sda1", "/"), mount("xfs", "/dev/sdb1", "/data")];
    let usages = vec![Ok((1000, 400)), Ok((2000, 2000))];
    let disks = get_partitions_physical(&mounts, &usages).unwrap();
    assert_eq!(disks.len(), 2);
    assert_eq!(disks[0].name, "/dev/sda1");
    assert_eq!(disks[0].mount_point, "/");
    assert_eq!(disks[0].total_space, 1000);
    assert_eq!(disks[0].avail_space, 400);
    assert!(disks[0].avail_space <= disks[0].total_space);
    assert!(disks[1].avail_space <= disks[1].total_space);
}

#[test]
fn partitions_abort_on_first_usage_failure() {
    let mounts = vec![mount("ext4", "/dev/sda1", "/"), mount("xfs", "/dev/sdb1", "/data")];
    let usages = vec![Ok((1000, 400)), Err(Error::OsError(13))];
    assert_eq!(get_partitions_physical(&mounts, &usages), Err(Error::OsError(13)));
    let usages = vec![Err(Error::OsError(7)), Err(Error::OsError(13))];
    assert_eq!(get_partitions_physical(&mounts, &usages), Err(Error::OsError(7)));
}

#[test]
fn memory_normalizes_pages_to_bytes() {
    let m = get_memory(10, 20, 4096, 1 << 30, 100, 50);
    assert_eq!(m.avail_virt, 30 * 4096);
    assert_eq!(m.total_virt, 1 << 30);
    assert_eq!(m.total_swap, 100);
    assert_eq!(m.avail_swap, 50);
    assert!(m.avail_virt <= m.total_virt);
    assert!(m.avail_swap <= m.total_swap);
}

#[test]
fn memory_from_summary_scales_by_unit() {
    let m = memory_from_summary(1000, 300, 200, 200, 1024);
    assert_eq!(m.total_virt, 1024000);
    assert_eq!(m.avail_virt, 307200);
    assert_eq!(m.total_swap, 204800);
    assert_eq!(m.avail_swap, 204800);
    assert!(m.avail_virt <= m.total_virt);
    assert!(m.avail_swap <= m.total_swap);
}

#[test]
fn clock_ticks_accepts_only_positive_rates() {
    assert_eq!(clock_ticks(100, 0), Ok(100));
    assert_eq!(clock_ticks(0, 5), Err(Error::OsError(5)));
    assert_eq!(clock_ticks(-1, 6), Err(Error::OsError(6)));
}

#[test]
fn error_kind_names() {
    assert_eq!(Error::IoError.kind_name(), "io error");
    assert_eq!(Error::OsError(3).kind_name(), "os error");
    assert_eq!(Error::NotFound.kind_name(), "not found");
    assert_eq!(Error::ParseError.kind_name(), "parse error");
    assert_eq!(Error::InvalidInput.kind_name(), "invalid input");
}

#[test]
fn mount_table_parses_first_three_columns() {
    let text = b"/dev/sda1 / ext4 rw,relatime 0 0\ntmpfs /tmp tmpfs rw 0 0\nshort line\n";
    let mounts = sys_metrics::disks::parse_mounts(text);
    assert_eq!(mounts.len(), 2);
    assert_eq!(mounts[0].mntfrom, "/dev/sda1");
    assert_eq!(mounts[0].mnton, "/");
    assert_eq!(mounts[0].fstype, "ext4");
    assert_eq!(mounts[1].fstype, "tmpfs");
}

#[test]
fn mount_table_skips_short_lines_and_empty_input() {
    assert_eq!(sys_metrics::disks::parse_mounts(b"").len(), 0);
    assert_eq!(sys_metrics::disks::parse_mounts(b"a b\n\n").len(), 0);
}
