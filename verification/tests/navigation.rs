use terminaline::app::TAB_COUNT;
use terminaline::input::{handle_key, leave_dir, Key, KeyOutcome, ListCounts, Nav};
use terminaline::types::{DiskInfo, DiskMode, FileEntry, SortMode};

fn counts(n: usize) -> ListCounts {
    ListCounts { regions: n, connections: n, processes: n, services: n }
}

fn disk(mount: &str) -> DiskInfo {
    DiskInfo {
        name: "Macintosh HD".to_string(),
        mount_point: mount.to_string(),
        fs_type: "apfs".to_string(),
        total: 100,
        used: 40,
        available: 60,
        is_removable: false,
    }
}

fn file(path: &str, is_dir: bool) -> FileEntry {
    FileEntry {
        name: path.rsplit('/').next().unwrap().to_string(),
        path: path.to_string(),
        size: 1,
        is_dir,
        is_system: false,
    }
}

fn press(nav: &mut Nav, k: Key) -> KeyOutcome {
    handle_key(nav, k, counts(5), &vec![disk("/"), disk("/Volumes/USB")], &vec![file("/Users", true), file("/notes.txt", false)])
}

#[test]
fn start_state() {
    let n = Nav::new();
    assert_eq!(n.tab, 0);
    assert_eq!(n.disk_mode, DiskMode::Partitions);
    assert_eq!(n.disk_sort, SortMode::SizeDsc);
    assert!(n.disk_filter_system);
    assert_eq!(n.disk_path, "");
}

#[test]
fn quit_keys() {
    let mut n = Nav::new();
    assert_eq!(press(&mut n, Key::Char('q')), KeyOutcome::Quit);
    assert_eq!(press(&mut n, Key::Esc), KeyOutcome::Quit);
    assert_eq!(press(&mut n, Key::Char('Q')), KeyOutcome::Stay);
}

#[test]
fn direct_tab_keys() {
    let mut n = Nav::new();
    let keys = ['1', '2', '3', '4', '5', '6', '7', '8', '9', '0', 'p', 'b', 'u', 'a', 'x', 'l', 'w', 't'];
    for (i, c) in keys.iter().enumerate() {
        assert_eq!(press(&mut n, Key::Char(*c)), KeyOutcome::Stay);
        assert_eq!(n.tab, i);
        press(&mut n, Key::Char('1'));
        press(&mut n, Key::Char(c.to_ascii_uppercase()));
        if c.is_ascii_alphabetic() {
            assert_eq!(n.tab, i);
        }
    }
}

#[test]
fn tab_wraps_both_ways() {
    let mut n = Nav::new();
    press(&mut n, Key::BackTab);
    assert_eq!(n.tab, TAB_COUNT - 1);
    press(&mut n, Key::Tab);
    assert_eq!(n.tab, 0);
    press(&mut n, Key::Right);
    assert_eq!(n.tab, 1);
    press(&mut n, Key::Left);
    press(&mut n, Key::Left);
    assert_eq!(n.tab, 17);
}

#[test]
fn scrolling_stops_at_list_end() {
    let mut n = Nav::new();
    press(&mut n, Key::Char('2'));
    for _ in 0..10 {
        press(&mut n, Key::Down);
    }
    assert_eq!(n.region_scroll, 4);
    press(&mut n, Key::Char('k'));
    assert_eq!(n.region_scroll, 3);
    press(&mut n, Key::PageUp);
    assert_eq!(n.region_scroll, 0);
    press(&mut n, Key::PageDown);
    assert_eq!(n.region_scroll, 4);
    press(&mut n, Key::Char('1'));
    press(&mut n, Key::PageDown);
    press(&mut n, Key::Char('j'));
    assert_eq!(n.ram_scroll, 11);
    press(&mut n, Key::Up);
    assert_eq!(n.ram_scroll, 10);
}

#[test]
fn page_keys_skip_line_only_tabs() {
    let mut n = Nav::new();
    press(&mut n, Key::Char('b'));
    press(&mut n, Key::PageDown);
    assert_eq!(n.bt_scroll, 0);
    press(&mut n, Key::Down);
    assert_eq!(n.bt_scroll, 1);
    press(&mut n, Key::Char('7'));
    press(&mut n, Key::Down);
    press(&mut n, Key::Up);
    assert_eq!(n.ram_scroll, 0);
}

#[test]
fn saturating_scroll() {
    let mut n = Nav::new();
    n.ram_scroll = usize::MAX - 3;
    press(&mut n, Key::PageDown);
    assert_eq!(n.ram_scroll, usize::MAX);
    press(&mut n, Key::Char('p'));
    press(&mut n, Key::Down);
    let empty: Vec<DiskInfo> = Vec::new();
    let none: Vec<FileEntry> = Vec::new();
    handle_key(&mut n, Key::Down, counts(0), &empty, &none);
    assert_eq!(n.process_scroll, 0);
}

#[test]
fn disk_browser_round_trip() {
    let mut n = Nav::new();
    press(&mut n, Key::Char('5'));
    press(&mut n, Key::Down);
    assert_eq!(n.disk_cursor, 1);
    press(&mut n, Key::Up);
    assert_eq!(press(&mut n, Key::Enter), KeyOutcome::Rescan);
    assert_eq!(n.disk_mode, DiskMode::Files);
    assert_eq!(n.disk_path, "/");
    assert_eq!(n.disk_file_cursor, 0);
    // Opening the directory entry.
    assert_eq!(press(&mut n, Key::Right), KeyOutcome::Rescan);
    assert_eq!(n.disk_path, "/Users");
    // A file does not open.
    n.disk_file_cursor = 1;
    assert_eq!(press(&mut n, Key::Enter), KeyOutcome::Stay);
    assert_eq!(n.disk_path, "/Users");
    // Back up to the mount point, then out to the partitions.
    assert_eq!(press(&mut n, Key::Left), KeyOutcome::Rescan);
    assert_eq!(n.disk_path, "/");
    assert_eq!(n.disk_file_cursor, 0);
    assert_eq!(press(&mut n, Key::Esc), KeyOutcome::Stay);
    assert_eq!(n.disk_mode, DiskMode::Partitions);
    assert_eq!(n.tab, 4);
}

#[test]
fn disk_browser_stops_at_mount_point() {
    let mut n = Nav::new();
    press(&mut n, Key::Char('5'));
    press(&mut n, Key::Down);
    press(&mut n, Key::Enter);
    assert_eq!(n.disk_path, "/Volumes/USB");
    n.disk_path = "/Volumes/USB/photos".to_string();
    assert_eq!(press(&mut n, Key::Esc), KeyOutcome::Rescan);
    assert_eq!(n.disk_path, "/Volumes/USB");
    // "/Volumes" is shorter than the mount point.
    assert_eq!(press(&mut n, Key::Esc), KeyOutcome::Stay);
    assert_eq!(n.disk_mode, DiskMode::Partitions);
    assert_eq!(n.disk_path, "/Volumes/USB");
}

#[test]
fn sort_and_filter_keys() {
    let mut n = Nav::new();
    assert_eq!(press(&mut n, Key::Char('s')), KeyOutcome::Stay);
    assert_eq!(n.disk_sort, SortMode::SizeDsc);
    press(&mut n, Key::Char('5'));
    press(&mut n, Key::Enter);
    n.disk_file_cursor = 1;
    assert_eq!(press(&mut n, Key::Char('s')), KeyOutcome::Rescan);
    assert_eq!(n.disk_sort, SortMode::SizeAsc);
    assert_eq!(n.disk_file_cursor, 0);
    press(&mut n, Key::Char('s'));
    assert_eq!(n.disk_sort, SortMode::NameAsc);
    press(&mut n, Key::Char('s'));
    assert_eq!(n.disk_sort, SortMode::NameDsc);
    press(&mut n, Key::Char('s'));
    assert_eq!(n.disk_sort, SortMode::SizeDsc);
    assert_eq!(press(&mut n, Key::Char('S')), KeyOutcome::Stay);
    assert_eq!(n.disk_sort, SortMode::SizeDsc);
    assert_eq!(press(&mut n, Key::Char('F')), KeyOutcome::Rescan);
    assert!(!n.disk_filter_system);
    press(&mut n, Key::Char('f'));
    assert!(n.disk_filter_system);
}

#[test]
fn enter_without_volumes() {
    let mut n = Nav::new();
    n.tab = 4;
    let empty: Vec<DiskInfo> = Vec::new();
    let none: Vec<FileEntry> = Vec::new();
    assert_eq!(handle_key(&mut n, Key::Enter, counts(0), &empty, &none), KeyOutcome::Stay);
    assert_eq!(n.disk_mode, DiskMode::Partitions);
    n.disk_mode = DiskMode::Files;
    n.disk_path = "/a/b".to_string();
    // No volume selected: the parent needs at least one byte.
    assert_eq!(handle_key(&mut n, Key::Left, counts(0), &empty, &none), KeyOutcome::Rescan);
    assert_eq!(n.disk_path, "/a");
    assert_eq!(handle_key(&mut n, Key::Left, counts(0), &empty, &none), KeyOutcome::Rescan);
    assert_eq!(n.disk_path, "/");
    assert_eq!(handle_key(&mut n, Key::Left, counts(0), &empty, &none), KeyOutcome::Stay);
    assert_eq!(n.disk_mode, DiskMode::Partitions);
}

#[test]
fn leaving_a_directory() {
    let disks = vec![disk("/Volumes/USB")];
    let mut n = Nav::new();
    n.tab = 4;
    n.disk_mode = DiskMode::Files;
    n.disk_path = "/Volumes/USB/a".to_string();
    n.disk_file_cursor = 3;
    assert_eq!(leave_dir(&mut n, "/Volumes/USB".to_string(), &disks), KeyOutcome::Rescan);
    assert_eq!(n.disk_path, "/Volumes/USB");
    assert_eq!(n.disk_file_cursor, 0);
    assert_eq!(leave_dir(&mut n, "/Volumes".to_string(), &disks), KeyOutcome::Stay);
    assert_eq!(n.disk_mode, DiskMode::Partitions);
    assert_eq!(n.disk_path, "/Volumes/USB");
    n.disk_mode = DiskMode::Files;
    assert_eq!(leave_dir(&mut n, String::new(), &disks), KeyOutcome::Stay);
    assert_eq!(n.disk_mode, DiskMode::Partitions);
}
