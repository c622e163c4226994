use urwtest_rs::manifest::{
    find_matching_state, fnv1a_hash, fnv1a_hex, is_state_file, load_state, make_test_file_name,
    parse_test_file_name, remove_test_files, same_volume, scan_test_files, state_dir, state_path,
    volume_key, DirectoryEntry, StateBase, StateDir, StateStatus, StateVariables, TestState,
    STATE_VERSION,
};
use urwtest_rs::ordering::comes_before;
use urwtest_rs::types::CleanupMode;
use urwtest_rs::volume::{VolumeInfo, VolumeKind};

fn volume() -> VolumeInfo {
    VolumeInfo {
        mount_point: "/mnt/usb".to_string(),
        device: Some("/dev/sdb1".to_string()),
        fs: "vfat".to_string(),
        total_bytes: 8_000_000_000,
        free_bytes: 7_000_000_000,
        kind: VolumeKind::Removable,
        label: None,
    }
}

fn entry(name: &str, is_file: bool, size: u64) -> DirectoryEntry {
    DirectoryEntry { name: Some(name.to_string()), is_file, size }
}

#[test]
fn test_file_name_round_trip() {
    let name = make_test_file_name(2, 5, 17, 0x1234_5678_9abc_def0);
    let parsed = parse_test_file_name(&name).expect("valid test file name");
    assert_eq!(parsed.pass, 2);
    assert_eq!(parsed.total_passes, 5);
    assert_eq!(parsed.index, 17);
    assert_eq!(parsed.seed, 0x1234_5678_9abc_def0);
    assert_eq!(parsed.name, name);
}

#[test]
fn unrelated_file_name_is_ignored() {
    assert!(parse_test_file_name("photo.jpg").is_none());
    assert!(parse_test_file_name("urwtest_rs_p1of1_f00000_s1.txt").is_none());
}

#[test]
fn scan_and_remove_only_matching_test_files() {
    let test_name = make_test_file_name(1, 1, 0, 123);
    let keep_name = "keep-me.txt";
    let entries = vec![
        entry(keep_name, true, b"keep".len() as u64),
        entry(&test_name, true, b"data".len() as u64),
    ];

    let files = scan_test_files(&entries);
    assert_eq!(files.len(), 1);
    assert_eq!(files[0].name, test_name);
    assert_eq!(files[0].actual_size, 4);

    let doomed = remove_test_files(&entries);
    assert!(doomed.contains(&test_name));
    assert!(!doomed.contains(&keep_name.to_string()));
    assert_eq!(doomed.len(), 1);
}

#[test]
fn test_file_names_are_written_out() {
    assert_eq!(
        make_test_file_name(1, 3, 0, 1234567890123456789),
        "urwtest_rs_p001of003_f00000_s1234567890123456789.bin"
    );
    assert_eq!(
        make_test_file_name(1000, 12345, 123456, 0),
        "urwtest_rs_p1000of12345_f123456_s0.bin"
    );
}

#[test]
fn test_file_names_are_read_leniently() {
    let file = parse_test_file_name("urwtest_rs_p+1of2_f3_s007.bin").unwrap();
    assert_eq!((file.pass, file.total_passes, file.index, file.seed), (1, 2, 3, 7));
    assert_eq!(file.actual_size, 0);
}

#[test]
fn malformed_test_file_names_are_ignored() {
    for name in [
        "",
        "urwtest_rs_.bin",
        "urwtest_rs_p1of1_f0.bin",
        "urwtest_rs_p1of1_f0_s1_x.bin",
        "urwtest_rs_1of1_f0_s1.bin",
        "urwtest_rs_p1_f0_s1.bin",
        "urwtest_rs_p1of1_0_s1.bin",
        "urwtest_rs_p1of1_f0_1.bin",
        "urwtest_rs_pof1_f0_s1.bin",
        "urwtest_rs_p1of_f0_s1.bin",
        "urwtest_rs_p1of1_f_s1.bin",
        "urwtest_rs_p1of1_f0_s.bin",
        "urwtest_rs_p-1of1_f0_s1.bin",
        "urwtest_rs_p1of1_f0_s1x.bin",
        "urwtest_rs_p4294967296of1_f0_s1.bin",
        "urwtest_rs_p1of1_f0_s18446744073709551616.bin",
        "xurwtest_rs_p1of1_f0_s1.bin",
    ] {
        assert!(parse_test_file_name(name).is_none(), "{}", name);
    }
    let largest = "urwtest_rs_p4294967295of4294967295_f4294967295_s18446744073709551615.bin";
    let file = parse_test_file_name(largest).unwrap();
    assert_eq!(make_test_file_name(file.pass, file.total_passes, file.index, file.seed), largest);
}

#[test]
fn scanned_files_are_ordered_by_pass_and_number() {
    let names = [(2, 0), (1, 10), (1, 9), (1, 100), (2, 1)];
    let entries: Vec<DirectoryEntry> =
        names.iter().map(|&(p, i)| entry(&make_test_file_name(p, 3, i, 5), true, 1)).collect();
    let found: Vec<(u32, u32)> =
        scan_test_files(&entries).iter().map(|f| (f.pass, f.index)).collect();
    assert_eq!(found, vec![(1, 9), (1, 10), (1, 100), (2, 0), (2, 1)]);
}

#[test]
fn files_with_the_same_number_keep_their_order() {
    let entries: Vec<DirectoryEntry> = [(1, 30), (0, 5), (1, 10), (1, 20)]
        .iter()
        .map(|&(index, seed)| entry(&make_test_file_name(1, 1, index, seed), true, 1))
        .collect();
    let found: Vec<u64> = scan_test_files(&entries).iter().map(|f| f.seed).collect();
    assert_eq!(found, vec![5, 30, 10, 20]);
}

#[test]
fn keys_are_ordered_from_the_front() {
    assert!(comes_before(&[], &[0]));
    assert!(comes_before(&[1], &[1, 0]));
    assert!(comes_before(&[1, 9], &[2]));
    assert!(comes_before(&[1, 2, 3], &[1, 2, 4]));
    assert!(!comes_before(&[1, 2], &[1, 2]));
    assert!(!comes_before(&[2], &[1, 9]));
    assert!(!comes_before(&[0], &[]));
}

#[test]
fn directories_and_unreadable_names_are_left_alone() {
    let name = make_test_file_name(1, 1, 0, 1);
    let entries =
        vec![entry(&name, false, 0), DirectoryEntry { name: None, is_file: true, size: 7 }];
    assert!(scan_test_files(&entries).is_empty());
    assert!(remove_test_files(&entries).is_empty());
}

#[test]
fn hashes_have_known_values() {
    assert_eq!(fnv1a_hash(b""), 0xcbf29ce484222325);
    assert_eq!(fnv1a_hash(b"a"), 0xaf63dc4c8601ec8c);
    assert_eq!(fnv1a_hash(b"foobar"), 0x85944171f73967e8);
    assert_eq!(fnv1a_hex(b"foobar"), "85944171f73967e8");
}

#[test]
fn states_are_kept_under_the_key_of_the_volume() {
    let mut v = volume();
    assert_eq!(volume_key(&v), fnv1a_hex(b"vfat|8000000000|device:/dev/sdb1"));
    v.label = Some("STICK".to_string());
    assert_eq!(volume_key(&v), fnv1a_hex(b"vfat|8000000000|label:STICK"));
    v.label = Some(String::new());
    assert_eq!(volume_key(&v), fnv1a_hex(b"vfat|8000000000|device:/dev/sdb1"));
    v.device = None;
    assert_eq!(volume_key(&v), fnv1a_hex(b"vfat|8000000000|mount:/mnt/usb"));

    let dir = StateDir { base: StateBase::Home, directory: ".local/state/urwtest-rs" };
    let path = state_path(dir, &v);
    assert_eq!(path.base, StateBase::Home);
    assert_eq!(path.directory, ".local/state/urwtest-rs");
    assert_eq!(path.file, format!("{}.json", volume_key(&v)));
    assert!(is_state_file(&path.file));
}

#[test]
fn a_moved_volume_keeps_its_key() {
    let v = volume();
    let mut moved = v.clone();
    moved.mount_point = "/media/other".to_string();
    moved.free_bytes = 1;
    assert_eq!(volume_key(&v), volume_key(&moved));
}

#[test]
fn state_files_are_told_by_their_extension() {
    assert!(is_state_file("0123.json"));
    assert!(is_state_file("..json"));
    assert!(!is_state_file(".json"));
    assert!(!is_state_file("json"));
    assert!(!is_state_file("state.json.tmp"));
    assert!(!is_state_file("0123.JSON"));
}

#[test]
fn a_new_state_is_fresh() {
    let v = volume();
    let mut state = TestState::new(&v, 0, true, CleanupMode::Never, 77);
    assert_eq!(state.version, STATE_VERSION);
    assert_eq!(state.target, "/mnt/usb");
    assert_eq!(state.volume_key, volume_key(&v));
    assert_eq!(state.total_passes, 1);
    assert_eq!(state.completed_passes, 0);
    assert_eq!(state.current_pass, 1);
    assert_eq!(state.status, StateStatus::Writing);
    assert_eq!((state.created_unix, state.updated_unix), (77, 77));
    assert!(state.stop_on_fail && state.capacity_ok && state.last_error.is_none());
    assert!(state.files.is_empty());
    assert!(same_volume(&state, &v));
    state.touch(99);
    assert_eq!((state.created_unix, state.updated_unix), (77, 99));
}

#[test]
fn states_are_matched_by_what_both_sides_know() {
    let v = volume();
    let state = TestState::new(&v, 1, false, CleanupMode::OnSuccess, 0);

    let mut other = v.clone();
    other.total_bytes += 1;
    assert!(!same_volume(&state, &other));
    let mut other = v.clone();
    other.fs = "ext4".to_string();
    assert!(!same_volume(&state, &other));
    let mut other = v.clone();
    other.device = Some("/dev/sdc1".to_string());
    assert!(!same_volume(&state, &other));
    other.device = None;
    assert!(same_volume(&state, &other));
    let mut other = v.clone();
    other.label = Some("STICK".to_string());
    assert!(same_volume(&state, &other));
    let mut labelled = state.clone();
    labelled.volume_label = Some("OTHER".to_string());
    assert!(!same_volume(&labelled, &other));
}

#[test]
fn the_first_matching_state_is_found() {
    let v = volume();
    let mut stranger = TestState::new(&v, 1, false, CleanupMode::OnSuccess, 0);
    stranger.volume_fs = "ext4".to_string();
    let first = TestState::new(&v, 2, false, CleanupMode::OnSuccess, 0);
    let second = TestState::new(&v, 3, false, CleanupMode::OnSuccess, 0);
    let states = vec![stranger.clone(), first.clone(), second.clone()];
    assert_eq!(find_matching_state(states.clone(), &v).unwrap().total_passes, 2);
    assert!(find_matching_state(vec![stranger.clone()], &v).is_none());

    assert_eq!(load_state(&v, Some(stranger), states.clone()).unwrap().volume_fs, "ext4");
    assert_eq!(load_state(&v, None, states).unwrap().total_passes, 2);
    assert!(load_state(&v, None, Vec::new()).is_none());
}

#[test]
fn states_are_kept_in_the_directories_of_the_user() {
    let none = StateVariables {
        app_data: false,
        local_app_data: false,
        xdg_state_home: false,
        home: false,
    };
    let all = StateVariables {
        app_data: true,
        local_app_data: true,
        xdg_state_home: true,
        home: true,
    };
    let windows = state_dir(true, all);
    assert_eq!((windows.base, windows.directory), (StateBase::AppData, "urwtest-rs"));
    let local = state_dir(true, StateVariables { app_data: false, ..all });
    assert_eq!((local.base, local.directory), (StateBase::LocalAppData, "urwtest-rs"));
    let linux = state_dir(false, all);
    assert_eq!((linux.base, linux.directory), (StateBase::XdgStateHome, "urwtest-rs"));
    let home = state_dir(false, StateVariables { xdg_state_home: false, ..all });
    assert_eq!((home.base, home.directory), (StateBase::Home, ".local/state/urwtest-rs"));
    for windows in [true, false] {
        let dir = state_dir(windows, none);
        assert_eq!((dir.base, dir.directory), (StateBase::Temporary, "urwtest-rs-state"));
    }
}
