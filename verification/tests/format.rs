use terminaline::collectors::memory::{classify_region, classify_with, process_region};
use terminaline::types::{FileEntry, RegionType, SortMode, Tint};
use terminaline::display::type_label;
use terminaline::utils::{arrange_by_keys, arrange_listing, extract_json, hs, hsu, is_system_path, sysctl_val, trunc};

fn float_hs(b: u64) -> String {
    if b >= 1 << 30 {
        format!("{:.2} GB", b as f64 / (1u64 << 30) as f64)
    } else if b >= 1 << 20 {
        format!("{:.1} MB", b as f64 / (1u64 << 20) as f64)
    } else if b >= 1024 {
        format!("{:.1} KB", b as f64 / 1024.0)
    } else {
        format!("{} B", b)
    }
}

#[test]
fn hs_exact_values() {
    assert_eq!(hs(0), "0 B");
    assert_eq!(hs(1023), "1023 B");
    assert_eq!(hs(1024), "1.0 KB");
    assert_eq!(hs(1536), "1.5 KB");
    assert_eq!(hs(1048575), "1024.0 KB");
    assert_eq!(hs(1048576), "1.0 MB");
    assert_eq!(hs(1073741824), "1.00 GB");
    assert_eq!(hs(1610612736), "1.50 GB");
    assert_eq!(hsu(2048), "2.0 KB");
}

#[test]
fn hs_matches_float_formatting() {
    let samples: Vec<u64> = vec![
        1, 999, 1000, 1025, 1075, 1126, 10240, 123456, 999999, 1_000_000, 1_500_000, 5_242_880,
        12_345_678, 104_857_600, 987_654_321, 1_073_741_823, 1_073_741_825, 2_000_000_000,
        5_368_709_120, 34_816_000_000, 1 << 40, 1 << 50, 123_456_789_012_345, u64::MAX / 3,
        u64::MAX - 1, u64::MAX,
    ];
    for b in samples {
        assert_eq!(hs(b), float_hs(b), "bytes {}", b);
    }
    let mut x: u64 = 7;
    for _ in 0..2000 {
        x = x.wrapping_mul(6364136223846793005).wrapping_add(1442695040888963407);
        let b = x >> (x % 64);
        assert_eq!(hs(b), float_hs(b), "bytes {}", b);
    }
}

#[test]
fn sysctl_value_trimmed() {
    assert_eq!(sysctl_val("  Apple M1\n"), "Apple M1");
    assert_eq!(sysctl_val(""), "");
}

#[test]
fn trunc_keeps_the_end() {
    assert_eq!(trunc("short", 10), "short");
    assert_eq!(trunc("exactly10!", 10), "exactly10!");
    assert_eq!(trunc("/Users/me/Library/file.txt", 10), "…/file.txt");
    assert_eq!(trunc("abc", 1), "…");
}

#[test]
fn extract_json_values() {
    assert_eq!(extract_json("\"_name\" : \"FaceTime HD Camera\",", "\"_name\""), Some("FaceTime HD Camera".to_string()));
    assert_eq!(extract_json("\"url\" : \"http://x\"", "\"url\""), Some("http://x".to_string()));
    assert_eq!(extract_json("\"count\" : 3,", "\"count\""), Some("3".to_string()));
    assert_eq!(extract_json("\"empty\" : \"\",", "\"empty\""), None);
    assert_eq!(extract_json("\"other\" : 1", "\"_name\""), None);
    assert_eq!(extract_json("\"_name\"", "\"_name\""), None);
}

#[test]
fn system_paths() {
    assert!(is_system_path("/System/Library"));
    assert!(is_system_path("/usr/bin/env"));
    assert!(is_system_path("/private/var"));
    assert!(is_system_path("/.Trashes"));
    assert!(is_system_path("/tmp"));
    assert!(!is_system_path("/Users/me"));
    assert!(!is_system_path("/Applications/Safari.app"));
    assert!(!is_system_path("relative/usr"));
    assert!(!is_system_path(""));
}

fn entry(name: &str, size: u64, is_system: bool) -> FileEntry {
    FileEntry {
        name: name.to_string(),
        path: format!("/x/{}", name),
        size,
        is_dir: false,
        is_system,
    }
}

fn names(v: &[FileEntry]) -> Vec<&str> {
    v.iter().map(|e| e.name.as_str()).collect()
}

#[test]
fn listing_orders() {
    let es = vec![
        entry("beta", 20, false),
        entry("Alpha", 10, false),
        entry("gamma", 30, true),
        entry("delta", 10, false),
    ];
    assert_eq!(names(&arrange_listing(&es, SortMode::SizeDsc, false)), vec!["gamma", "beta", "Alpha", "delta"]);
    assert_eq!(names(&arrange_listing(&es, SortMode::SizeAsc, false)), vec!["Alpha", "delta", "beta", "gamma"]);
    assert_eq!(names(&arrange_listing(&es, SortMode::NameAsc, false)), vec!["Alpha", "beta", "delta", "gamma"]);
    assert_eq!(names(&arrange_listing(&es, SortMode::NameDsc, false)), vec!["gamma", "delta", "beta", "Alpha"]);
    assert_eq!(names(&arrange_listing(&es, SortMode::SizeDsc, true)), vec!["beta", "Alpha", "delta"]);
    assert!(arrange_listing(&Vec::new(), SortMode::NameAsc, true).is_empty());
}

#[test]
fn listing_names_compare_lowercased() {
    // Without lowercasing "Zeta" would come before "apple".
    let es = vec![entry("Zeta", 1, false), entry("apple", 2, false)];
    assert_eq!(names(&arrange_listing(&es, SortMode::NameAsc, false)), vec!["apple", "Zeta"]);
}

#[test]
fn regions_classified() {
    assert_eq!(classify_region("[stack]", false, true, 10).0, RegionType::Stack);
    // Only the lowercased name holds "stack".
    assert_eq!(classify_region("/tmp/MyStack.dat", false, false, 10), (RegionType::Stack, "/tmp/MyStack.dat".to_string()));
    assert_eq!(classify_region("/tmp/HEAP.bin", false, false, 10).0, RegionType::Heap);
    assert_eq!(classify_region("/usr/lib/libSystem.B.dylib", true, false, 10).0, RegionType::Dylib);
    assert_eq!(classify_region("/opt/lib/foo.so", true, false, 10).0, RegionType::Code);
    assert_eq!(classify_region("/Applications/App/__TEXT", false, false, 10).0, RegionType::Code);
    assert_eq!(classify_region("/data/file.db", false, true, 10).0, RegionType::MappedFile);
    assert_eq!(classify_region("", true, false, 10), (RegionType::Code, "[anon exec]".to_string()));
    assert_eq!(classify_region("", false, true, 2 * 1024 * 1024), (RegionType::Heap, "[anon heap]".to_string()));
    assert_eq!(classify_region("", false, true, 1024 * 1024), (RegionType::Anonymous, "[anon]".to_string()));
}

#[test]
fn region_records() {
    let r = process_region(0x1000, 0x2000, true, false, true, "");
    assert_eq!(r.start, 0x1000);
    assert_eq!(r.end, 0x3000);
    assert_eq!(r.size, 0x2000);
    assert_eq!(r.perms, "R-X");
    assert_eq!(r.region_type, RegionType::Code);
    assert_eq!(r.name, "[anon exec]");
    let r = process_region(0, 16, false, true, false, "/x/y.dylib");
    assert_eq!(r.perms, "-W-");
    assert_eq!(r.region_type, RegionType::Dylib);
}

#[test]
fn region_kind_looks() {
    assert_eq!(RegionType::Anonymous.label(), "Anon");
    assert_eq!(RegionType::MappedFile.label(), "File");
    assert_eq!(RegionType::Stack.color(), Tint::Red);
    assert_eq!(RegionType::Dylib.color(), Tint::Cyan);
    assert_eq!(RegionType::Heap.glyph(), '▓');
    assert_eq!(RegionType::MappedFile.glyph(), '▪');
}

#[test]
fn listing_by_given_keys() {
    let es = vec![entry("b", 1, false), entry("a", 2, true), entry("c", 3, false)];
    let keys = vec!["2".to_string(), "3".to_string(), "1".to_string()];
    assert_eq!(names(&arrange_by_keys(&es, &keys, SortMode::NameAsc, false)), vec!["c", "b", "a"]);
    assert_eq!(names(&arrange_by_keys(&es, &keys, SortMode::NameDsc, true)), vec!["b", "c"]);
    assert_eq!(names(&arrange_by_keys(&es, &keys, SortMode::SizeDsc, false)), vec!["c", "a", "b"]);
}

#[test]
fn classify_with_given_lowercase() {
    assert_eq!(classify_with("/x/MyStack", "/x/mystack", false, false, 1).0, RegionType::Stack);
    assert_eq!(classify_with("/x/MyStack", "/x/other", false, false, 1).0, RegionType::MappedFile);
    assert_eq!(classify_with("/x/[heap]", "", false, false, 1).0, RegionType::Heap);
    assert_eq!(classify_with("", "", false, false, 1).1, "[anon]");
}

#[test]
fn file_type_labels() {
    assert_eq!(type_label(&entry("photo.JPG", 1, false)), "JPG");
    assert_eq!(type_label(&entry("archive.tar.gz", 1, false)), "gz");
    assert_eq!(type_label(&entry("Makefile", 1, false)), "Makefile");
    assert_eq!(type_label(&entry(".bashrc", 1, false)), "bashrc");
    assert_eq!(type_label(&entry("name.", 1, false)), "");
    let mut d = entry("src.d", 1, false);
    d.is_dir = true;
    assert_eq!(type_label(&d), "DIR");
}
