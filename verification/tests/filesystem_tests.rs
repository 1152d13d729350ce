use dualpane::filesystem::{
    format_file_size, format_rwx, format_unix_permissions, join_path, parent_path, sort_entries,
    FileEntry, LocalFileSystem,
};

fn entry(name: &str, is_dir: bool) -> FileEntry {
    FileEntry {
        name: name.to_string(),
        path: format!("/tmp/{}", name),
        is_dir,
        size: 0,
        modified: None,
        permissions: 0o644,
    }
}

#[test]
fn test_format_file_size() {
    assert_eq!(format_file_size(0), "0B");
    assert_eq!(format_file_size(512), "512B");
    assert_eq!(format_file_size(1024), "1.0K");
    assert_eq!(format_file_size(1536), "1.5K");
    assert_eq!(format_file_size(1048576), "1.0M");
    assert_eq!(format_file_size(1073741824), "1.0G");
}

#[test]
fn test_format_file_size_rounding() {
    // 1280 bytes is exactly 1.25K: the tie rounds to the even tenth
    assert_eq!(format_file_size(1280), "1.2K");
    assert_eq!(format_file_size(1587), "1.5K");
    assert_eq!(format_file_size(1024 * 1024 - 1), "1024.0K");
}

#[test]
fn test_format_permissions() {
    assert_eq!(format_unix_permissions(0o755), "rwxr-xr-x");
    assert_eq!(format_unix_permissions(0o644), "rw-r--r--");
    assert_eq!(format_unix_permissions(0o777), "rwxrwxrwx");
    assert_eq!(format_unix_permissions(0o000), "---------");
}

#[test]
fn test_format_rwx_groups() {
    assert_eq!(format_rwx(0o7), "rwx");
    assert_eq!(format_rwx(0o5), "r-x");
    assert_eq!(format_rwx(0o0), "---");
}

#[test]
fn test_file_entry_format() {
    let entry = FileEntry {
        name: "test.txt".to_string(),
        path: "/tmp/test.txt".to_string(),
        is_dir: false,
        size: 2048,
        modified: None,
        permissions: 0o644,
    };

    assert_eq!(entry.format_size(), "2.0K");
    assert_eq!(entry.format_permissions(), "rw-r--r--");
}

#[test]
fn test_dir_entry_format() {
    let entry = FileEntry {
        name: "mydir".to_string(),
        path: "/tmp/mydir".to_string(),
        is_dir: true,
        size: 4096,
        modified: None,
        permissions: 0o755,
    };

    assert_eq!(entry.format_size(), "<DIR>");
}

#[test]
fn test_format_date_empty_without_timestamp() {
    assert_eq!(entry("a", false).format_date(), "");
}

#[test]
fn test_format_date_renders_timestamp() {
    let mut e = entry("a", false);
    e.modified = Some(0);
    let s = e.format_date();
    // `YYYY-MM-DD HH:MM` in some local zone near the epoch
    assert_eq!(s.len(), 16);
    assert!(s.starts_with("19"));
}

#[test]
fn test_sort_entries_order() {
    let mut entries = vec![
        entry("file2.txt", false),
        entry("dir_b", true),
        entry("..", true),
        entry("file1.txt", false),
        entry("dir_a", true),
    ];
    sort_entries(&mut entries);
    let names: Vec<&str> = entries.iter().map(|e| e.name.as_str()).collect();
    assert_eq!(names, vec!["..", "dir_a", "dir_b", "file1.txt", "file2.txt"]);
}

#[test]
fn test_sort_entries_case_insensitive() {
    // by raw code points `B.txt` would sort before `a.txt`; the order is
    // case-folded, so it must not
    let mut entries = vec![entry("B.txt", false), entry("a.txt", false)];
    sort_entries(&mut entries);
    assert_eq!(entries[0].name, "a.txt");
    assert_eq!(entries[1].name, "B.txt");
}

#[test]
fn test_join_path() {
    assert_eq!(join_path("/tmp", "a.txt"), "/tmp/a.txt");
    assert_eq!(join_path("/tmp/", "a.txt"), "/tmp/a.txt");
    assert_eq!(join_path("/", "etc"), "/etc");
}

#[test]
fn test_parent_path() {
    assert_eq!(parent_path("/tmp/a.txt"), Some("/tmp".to_string()));
    assert_eq!(parent_path("/tmp"), Some("/".to_string()));
    assert_eq!(parent_path("/"), None);
    assert_eq!(parent_path("plain"), None);
}

#[test]
fn test_local_filesystem_value() {
    let _fs = LocalFileSystem::new();
    let _fs2 = LocalFileSystem::default();
}

#[test]
fn test_entry_duplicate_is_equal() {
    let e = entry("file1.txt", false);
    let d = e.duplicate();
    assert_eq!(d.name, e.name);
    assert_eq!(d.path, e.path);
    assert_eq!(d.is_dir, e.is_dir);
    assert_eq!(d.size, e.size);
    assert_eq!(d.modified, e.modified);
    assert_eq!(d.permissions, e.permissions);
}
