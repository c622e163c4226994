use std::path::PathBuf;
use urwtest_rs::volume::linux::{
    self, block_name, is_pseudo_filesystem, is_removable, mount_entries, sys_block_path,
    unescape_mount_path, FsStat, MountEntry, MountProbe,
};
use urwtest_rs::volume::unsupported;
use urwtest_rs::volume::windows::{
    self, drive_kind, drive_roots, drive_volume, label_of, strip_nuls, DriveProbe, NameBuffers,
};
use urwtest_rs::volume::{
    find_volume, free_space, normalize_target_path, resolve_target, VolumeError, VolumeInfo,
    VolumeKind,
};

fn volume(mount_point: &str) -> VolumeInfo {
    VolumeInfo {
        mount_point: mount_point.to_string(),
        device: None,
        fs: "ext4".to_string(),
        total_bytes: 10,
        free_bytes: 5,
        kind: VolumeKind::Fixed,
        label: None,
    }
}

fn probe(is_dir: bool) -> MountProbe {
    MountProbe {
        is_dir,
        stat: Some(FsStat { fragment_size: 4096, blocks: 100, available: 40 }),
        removable: false,
    }
}

fn mounted(device: &str, mount_point: &str) -> MountEntry {
    MountEntry {
        device: device.to_string(),
        mount_point: mount_point.to_string(),
        fs: "ext4".to_string(),
    }
}

#[test]
fn escapes_in_mount_points_are_undone() {
    assert_eq!(unescape_mount_path("/mnt/usb"), "/mnt/usb");
    assert_eq!(unescape_mount_path("/mnt/my\\040disk"), "/mnt/my disk");
    assert_eq!(unescape_mount_path("\\011\\012\\134"), "\t\n\\");
    assert_eq!(unescape_mount_path("a\\04"), "a\\04");
    assert_eq!(unescape_mount_path("a\\089"), "a\\089");
    assert_eq!(unescape_mount_path("\\303\\251t\\303\\251"), "été");
    assert_eq!(unescape_mount_path("\\377x"), "\u{fffd}x");
    assert_eq!(unescape_mount_path("\\400"), "\\400");
    assert_eq!(unescape_mount_path("\\+12"), "\n");
    assert_eq!(unescape_mount_path("/mnt/été"), "/mnt/été");
}

#[test]
fn pseudo_filesystems_are_known() {
    for fs in ["proc", "tmpfs", "overlay", "squashfs", "fuse.snapfuse", "cgroup2"] {
        assert!(is_pseudo_filesystem(fs), "{}", fs);
    }
    for fs in ["", "ext4", "vfat", "ntfs", "fuseblk", "PROC", "fuse"] {
        assert!(!is_pseudo_filesystem(fs), "{}", fs);
    }
}

#[test]
fn mount_tables_are_read() {
    let table = "/dev/sda1 / ext4 rw,relatime 0 0\n\
                 proc /proc proc rw 0 0\n\
                 /dev/loop0 /snap/x squashfs ro 0 0\n\
                 /dev/sdb1 /mnt/my\\040disk vfat rw,nosuid 0 0\r\n\
                 /dev/sr0 /media/cd iso9660 nosuid,ro 0 0\n\
                 /dev/sdc1 /mnt/x ext4 rw,errors=remount-ro 0 0\n\
                 /dev/fuse /run/x fuse.portal rw 0 0\n\
                 /dev/sdd1 /short ext4\n\
                 \n";
    let entries: Vec<(String, String, String)> =
        mount_entries(table).into_iter().map(|e| (e.device, e.mount_point, e.fs)).collect();
    let expected = [
        ("/dev/sda1", "/", "ext4"),
        ("/dev/sdb1", "/mnt/my disk", "vfat"),
        ("/dev/sdc1", "/mnt/x", "ext4"),
    ];
    assert_eq!(entries.len(), expected.len());
    for (entry, (device, mount_point, fs)) in entries.iter().zip(expected) {
        assert_eq!((entry.0.as_str(), entry.1.as_str(), entry.2.as_str()), (device, mount_point, fs));
    }
}

#[test]
fn volumes_are_listed_once_and_in_order() {
    let entries = vec![
        mounted("/dev/b", "/mnt/b"),
        mounted("/dev/a", "/mnt/a"),
        mounted("/dev/none", "/mnt/none"),
        mounted("/dev/other", "/mnt/b"),
        mounted("/dev/root", "/"),
    ];
    let mut probes = vec![probe(true), probe(true), probe(false), probe(true), probe(true)];
    probes[0].removable = true;
    probes[1].stat = None;
    let volumes = linux::list_volumes(&entries, &probes);
    let listed: Vec<(&str, Option<&str>)> =
        volumes.iter().map(|v| (v.mount_point.as_str(), v.device.as_deref())).collect();
    assert_eq!(
        listed,
        vec![
            ("/", Some("/dev/root")),
            ("/mnt/a", Some("/dev/a")),
            ("/mnt/b", Some("/dev/b"))
        ]
    );
    assert_eq!((volumes[0].total_bytes, volumes[0].free_bytes), (409600, 163840));
    assert_eq!((volumes[1].total_bytes, volumes[1].free_bytes), (0, 0));
    assert_eq!(volumes[2].kind, VolumeKind::Removable);
    assert_eq!(volumes[0].kind, VolumeKind::Fixed);
    assert!(volumes[0].label.is_none());
}

#[test]
fn mount_points_are_ordered_as_paths_are() {
    let mut paths = vec![
        "/", "/a", "/a/b", "/a-b", "/a b", "/a/b/c", "/ab", "/mnt", "/mnt/é", "/mnt/z", "/mnt2",
        "/a.b", "/..", "/a/..", "/a/../b", ".", "./a", "..", "a", "/Z", "/\u{10ffff}", "/\u{ffff}",
        "/a/b ", "/!",
    ];
    let entries: Vec<MountEntry> = paths.iter().map(|p| mounted("/dev/x", p)).collect();
    let probes: Vec<MountProbe> = paths.iter().map(|_| probe(true)).collect();
    let volumes = linux::list_volumes(&entries, &probes);
    let listed: Vec<&str> = volumes.iter().map(|v| v.mount_point.as_str()).collect();
    paths.sort_by(|a, b| PathBuf::from(a).cmp(&PathBuf::from(b)));
    assert_eq!(listed, paths);
}

#[test]
fn free_space_is_counted_in_bytes() {
    let stat = FsStat { fragment_size: 512, blocks: 10, available: 3 };
    assert!(stat.fits_in_bytes());
    assert_eq!(stat.bytes(), (5120, 1536));
    assert_eq!(linux::available_space("/x", Some(stat)).unwrap(), 1536);
    assert_eq!(
        linux::available_space("/x", None).unwrap_err().message(),
        "failed to read free space for /x"
    );
    let huge = FsStat { fragment_size: 1 << 32, blocks: 1 << 32, available: 1 };
    assert!(!huge.fits_in_bytes());

    assert_eq!(free_space("/x", true, Ok(7)).unwrap(), 7);
    assert_eq!(
        free_space("/x", false, Ok(7)).unwrap_err().message(),
        "target does not exist: /x"
    );
    assert_eq!(windows::available_space("E:\\", Some(9)).unwrap(), 9);
    assert_eq!(
        windows::available_space("E:\\", None).unwrap_err().message(),
        "GetDiskFreeSpaceExW failed for E:\\"
    );
    assert!(unsupported::list_volumes().is_empty());
    assert_eq!(
        unsupported::available_space("/x").unwrap_err().message(),
        "this platform is not implemented yet; Windows and Linux are supported"
    );
}

#[test]
fn devices_are_described_by_the_system() {
    assert_eq!(block_name("/dev/sdb1").as_deref(), Some("sdb1"));
    assert_eq!(block_name("/dev/mapper/x/").as_deref(), Some("x"));
    assert_eq!(block_name("/dev/x/.").as_deref(), Some("x"));
    assert_eq!(block_name("/dev/.."), None);
    assert_eq!(block_name("/"), None);
    assert_eq!(sys_block_path("sdb1"), "/sys/class/block/sdb1");
    assert!(is_removable(Some("1\n"), Some("0\n")));
    assert!(!is_removable(Some("0\n"), Some("1\n")));
    assert!(is_removable(None, Some(" 1 ")));
    assert!(!is_removable(None, Some("11")));
    assert!(!is_removable(None, None));
}

#[test]
fn targets_are_completed_on_windows() {
    assert_eq!(normalize_target_path("E:", true), "E:\\");
    assert_eq!(normalize_target_path("E:", false), "E:");
    assert_eq!(normalize_target_path("E:\\", true), "E:\\");
    assert_eq!(normalize_target_path("é:", true), "é:");
    assert_eq!(normalize_target_path("::", true), "::\\");
    assert_eq!(normalize_target_path("/mnt/usb", true), "/mnt/usb");
    assert_eq!(normalize_target_path("", true), "");
}

#[test]
fn a_target_is_the_root_of_a_volume() {
    let volumes = vec![volume("/"), volume("/mnt/usb"), volume("/mnt/usb2")];
    let roots: Vec<Vec<u8>> =
        volumes.iter().map(|v| v.mount_point.as_bytes().to_vec()).collect();
    let found = find_volume(&volumes, &roots, b"/mnt/usb");
    assert_eq!(found.as_ref().unwrap().mount_point, "/mnt/usb");
    assert_eq!(resolve_target("/mnt/usb", found).unwrap().mount_point, "/mnt/usb");
    let found = find_volume(&volumes, &roots, b"/mnt/usb/sub");
    assert!(found.is_none());
    let error = resolve_target("/mnt/usb/sub", found).unwrap_err();
    assert!(matches!(error, VolumeError::NotMounted(_)));
    assert_eq!(error.message(), "target is not a mounted volume root: /mnt/usb/sub");
}

#[test]
fn names_of_volumes_show_their_labels() {
    let mut v = volume("/mnt/usb");
    assert_eq!(v.display_name(), "/mnt/usb");
    v.label = Some(String::new());
    assert_eq!(v.display_name(), "/mnt/usb");
    v.label = Some("S".to_string());
    assert_eq!(v.display_name(), "/mnt/usb (S)");
}

#[test]
fn drives_are_named_by_the_mask() {
    assert_eq!(drive_roots(0), Vec::<String>::new());
    assert_eq!(drive_roots(0b10101), vec!["A:\\", "C:\\", "E:\\"]);
    assert_eq!(drive_roots(u32::MAX).len(), 26);
    assert_eq!(drive_roots(1 << 25), vec!["Z:\\"]);
    assert_eq!(drive_kind(2), Some(VolumeKind::Removable));
    assert_eq!(drive_kind(3), Some(VolumeKind::Fixed));
    assert_eq!(drive_kind(4), Some(VolumeKind::Network));
    assert_eq!(drive_kind(5), None);
    assert_eq!(drive_kind(6), None);
    assert_eq!(drive_kind(0), Some(VolumeKind::Other));
}

fn buffer(text: &str) -> Vec<u16> {
    let mut units: Vec<u16> = text.encode_utf16().collect();
    units.resize(261, 0);
    units
}

#[test]
fn drives_become_volumes() {
    let drive = DriveProbe {
        root: "E:\\".to_string(),
        drive_type: 2,
        space: Some((100, 60)),
        names: Some(NameBuffers { label: buffer(" Größe 😀 "), fs: buffer("NTFS") }),
    };
    let v = drive_volume(&drive).unwrap();
    assert_eq!(v.mount_point, "E:\\");
    assert_eq!(v.label.as_deref(), Some("Größe 😀"));
    assert_eq!(v.fs, "NTFS");
    assert_eq!((v.total_bytes, v.free_bytes), (100, 60));
    assert_eq!(v.kind, VolumeKind::Removable);
    assert!(v.device.is_none());

    let drives = vec![
        drive,
        DriveProbe { root: "F:\\".to_string(), drive_type: 5, space: Some((1, 1)), names: None },
        DriveProbe { root: "G:\\".to_string(), drive_type: 3, space: None, names: None },
        DriveProbe { root: "H:\\".to_string(), drive_type: 3, space: Some((2, 1)), names: None },
    ];
    let volumes = windows::list_volumes(&drives);
    let listed: Vec<&str> = volumes.iter().map(|v| v.mount_point.as_str()).collect();
    assert_eq!(listed, vec!["E:\\", "H:\\"]);
    assert_eq!(volumes[1].fs, "");
    assert!(volumes[1].label.is_none());
}

#[test]
fn labels_are_trimmed() {
    assert_eq!(label_of("STICK\0\0"), Some("STICK".to_string()));
    assert_eq!(label_of(" \0"), None);
    assert_eq!(label_of("\0\0"), None);
    assert_eq!(label_of("a\0b\0"), Some("a\0b".to_string()));
    assert_eq!(strip_nuls(&['a', '\0', ' ', '\0']), vec!['a', '\0', ' ']);
}

#[test]
fn broken_code_units_are_replaced() {
    let drive = DriveProbe {
        root: "E:\\".to_string(),
        drive_type: 3,
        space: Some((1, 1)),
        names: Some(NameBuffers {
            label: vec![0xd800, 0x41, 0xd83d, 0xde00, 0xd83d, 0xd83d, 0xde00, 0xdc00, 0xffff, 0],
            fs: vec![0x46, 0xdc00],
        }),
    };
    let v = drive_volume(&drive).unwrap();
    assert_eq!(
        v.label.as_deref(),
        Some("\u{fffd}A\u{1f600}\u{fffd}\u{1f600}\u{fffd}\u{ffff}")
    );
    assert_eq!(v.fs, "F\u{fffd}");
}
