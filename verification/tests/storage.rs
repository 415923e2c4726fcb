use check_my_server::diagnostics::disk::{disk_report, select_mounts, stats_fit_u64, statvfs_entry, FsStats};
use check_my_server::diagnostics::diskstats::{diskstats_fit_u64, parse_diskstats};

#[test]
fn select_mounts_skips_pseudo_filesystems_and_repeats() {
    let content = "sysfs /sys sysfs rw 0 0\n/dev/sda1 / ext4 rw 0 0\ntmpfs /run tmpfs rw 0 0\n/dev/sdb1 /run xfs rw 0 0\n/dev/sda1 / ext4 rw 0 0\n";
    assert_eq!(select_mounts(content), vec!["/".to_string(), "/run".to_string()]);
}

#[test]
fn statvfs_entry_sizes() {
    let e = statvfs_entry("/", FsStats { frsize: 4096, blocks: 1000, bavail: 250 });
    assert_eq!(e.mount, "/");
    assert_eq!(e.total_kb, 4000);
    assert_eq!(e.available_kb, 1000);
    assert_eq!(e.used_kb, 3000);
    let e = statvfs_entry("/x", FsStats { frsize: 512, blocks: 3, bavail: 5 });
    assert_eq!((e.total_kb, e.available_kb, e.used_kb), (1, 2, 0));
}

#[test]
fn stats_overflow_is_detected() {
    assert!(stats_fit_u64(FsStats { frsize: 4096, blocks: 1 << 40, bavail: 0 }));
    assert!(!stats_fit_u64(FsStats { frsize: 4096, blocks: 1 << 60, bavail: 0 }));
}

#[test]
fn disk_report_keeps_known_positive_sizes() {
    let r = disk_report(vec![
        ("/".to_string(), Some(FsStats { frsize: 1024, blocks: 10, bavail: 4 })),
        ("/gone".to_string(), None),
        ("/tiny".to_string(), Some(FsStats { frsize: 1, blocks: 1000, bavail: 0 })),
        ("/data".to_string(), Some(FsStats { frsize: 2048, blocks: 1, bavail: 1 })),
    ]);
    assert_eq!(r.filesystems.len(), 2);
    assert_eq!(r.filesystems[0].mount, "/");
    assert_eq!(r.filesystems[0].used_kb, 6);
    assert_eq!(r.filesystems[1].mount, "/data");
    assert_eq!(r.filesystems[1].total_kb, 2);
}

#[test]
fn parse_diskstats_devices() {
    let content = "   8       0 sda 100 5 2000 30 40 6 800 50 0 60 90\n   7       0 loop0 1 0 2 0 0 0 0 0 0 0 0\n   1       0 ram0 1 0 2 0 0 0 0 0 0 0 0\n 8 1 sdb 1 2\n 8 16 sdc x 0 4 1 2 0 6 3\n";
    assert!(diskstats_fit_u64(content));
    let r = parse_diskstats(content);
    assert_eq!(r.devices.len(), 2);
    let d = &r.devices[0];
    assert_eq!(d.device, "sda");
    assert_eq!(d.reads_completed, 100);
    assert_eq!(d.read_bytes, 2000 * 512);
    assert_eq!(d.read_ms, 30);
    assert_eq!(d.writes_completed, 40);
    assert_eq!(d.written_bytes, 800 * 512);
    assert_eq!(d.write_ms, 50);
    let d = &r.devices[1];
    assert_eq!(d.device, "sdc");
    assert_eq!(d.reads_completed, 0);
    assert_eq!(d.read_bytes, 4 * 512);
    assert_eq!(d.write_ms, 3);
}

#[test]
fn diskstats_overflow_is_detected() {
    assert!(!diskstats_fit_u64("8 0 sda 1 0 36028797018963968 0 0 0 0 0 0\n"));
    assert!(diskstats_fit_u64("8 0 loop0 1 0 36028797018963968 0 0 0 0 0 0\n"));
}
