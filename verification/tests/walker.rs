use omengrep::change::{classify, detect_changes, Change};
use omengrep::path_map::PathMap;
use omengrep::walker::{
    admit_content, binary_extension_list, is_binary, is_binary_extension, scan, scan_metadata,
    should_skip, skips_extension, skips_name, wants, EntryName, FileMetadata, WalkedFile,
    WalkedMeta, BINARY_CHECK_LEN, MAX_FILE_SIZE,
};

fn meta(size: u64, mtime: u64) -> FileMetadata {
    FileMetadata { size, mtime }
}

fn text(name: &str) -> EntryName {
    EntryName::Text(name.to_string())
}

fn walked_meta(path: &str, name: &str, is_file: bool, meta: Option<FileMetadata>) -> WalkedMeta {
    WalkedMeta { path: path.to_string(), name: text(name), is_file, meta }
}

fn walked_file(path: &str, name: &str, mtime: u64, raw: Option<Vec<u8>>) -> WalkedFile {
    WalkedFile { path: path.to_string(), name: text(name), is_file: true, mtime, raw }
}

#[test]
fn skips_dotfiles_and_lock_json() {
    assert!(should_skip(".gitignore"));
    assert!(should_skip(".env"));
    assert!(should_skip("."));
    assert!(should_skip("package-lock.json"));
    assert!(should_skip("-lock.json"));
    assert!(!should_skip("lock.json"));
    assert!(!should_skip("package-lock.json.bak"));
}

#[test]
fn skips_listed_extensions() {
    assert!(should_skip("b.png"));
    assert!(should_skip("archive.tar.gz"));
    assert!(should_skip("Cargo.lock"));
    assert!(should_skip("model.onnx"));
    assert!(should_skip("weights.safetensors"));
    assert!(should_skip("lib.a"));
    assert!(should_skip("x.7z"));
    assert!(!should_skip("a.py"));
    assert!(!should_skip("main.rs"));
    assert!(!should_skip("Makefile"));
    assert!(!should_skip("png"));
    assert!(!should_skip("notes.png.txt"));
    assert!(!should_skip("trailing."));
    assert!(!should_skip(""));
}

#[test]
fn extension_is_compared_in_lower_case() {
    assert!(should_skip("PHOTO.PNG"));
    assert!(should_skip("Report.Pdf"));
    assert!(should_skip("data.SQLite3"));
    // U+212A KELVIN SIGN lower-cases to the letter k.
    assert!(should_skip("clip.m\u{212A}v"));
    assert!(!should_skip("clip.m\u{212A}w"));
}

#[test]
fn extension_list_is_lower_case_without_dots() {
    let list = binary_extension_list();
    assert_eq!(list.len(), 53);
    assert_eq!(list[0], "pyc");
    assert_eq!(list[52], "lock");
    assert!(is_binary_extension("png"));
    assert!(is_binary_extension("whl"));
    assert!(!is_binary_extension("PNG"));
    assert!(!is_binary_extension(".png"));
    assert!(!is_binary_extension("rs"));
    assert!(!is_binary_extension(""));
}

#[test]
fn extension_is_lower_cased_before_lookup() {
    assert!(skips_extension("png"));
    assert!(skips_extension("PNG"));
    assert!(skips_extension("SafeTensors"));
    assert!(skips_extension("m\u{212A}v"));
    assert!(!skips_extension("py"));
    assert!(!skips_extension("PY"));
    assert!(!skips_extension(""));
    assert!(!skips_extension("pn\u{e9}"));
}

#[test]
fn name_that_is_not_text_is_judged_by_extension() {
    let image = EntryName::Other { extension: Some("PNG".to_string()) };
    let json = EntryName::Other { extension: Some("json".to_string()) };
    let bare = EntryName::Other { extension: None };
    assert!(skips_name(&image));
    assert!(!skips_name(&json));
    assert!(!skips_name(&bare));
    assert!(skips_name(&text(".hidden")));
    assert!(skips_name(&text("yarn-lock.json")));
    assert!(!skips_name(&text("a.py")));
    assert!(!wants(true, &image));
    assert!(wants(true, &json));
    assert!(wants(true, &bare));
    assert!(!wants(false, &bare));
    let entries = vec![
        WalkedMeta { path: "odd.png".to_string(), name: image, is_file: true, meta: Some(meta(1, 1)) },
        WalkedMeta { path: "odd.json".to_string(), name: json, is_file: true, meta: Some(meta(2, 2)) },
    ];
    let snapshot = scan_metadata(&entries);
    assert_eq!(snapshot.len(), 1);
    assert_eq!(snapshot.get("odd.json"), Some(&meta(2, 2)));
}

#[test]
fn wants_regular_files_only() {
    assert!(wants(true, &text("a.py")));
    assert!(!wants(false, &text("a.py")));
    assert!(!wants(true, &text("b.png")));
    assert!(!wants(false, &text("src")));
}

#[test]
fn binary_guard_looks_at_first_bytes_only() {
    assert_eq!(BINARY_CHECK_LEN, 8192);
    assert!(!is_binary(b""));
    assert!(!is_binary(b"plain text"));
    assert!(is_binary(b"\0"));
    assert!(is_binary(b"abc\0def"));
    let mut raw = vec![b'a'; 9000];
    raw[8191] = 0;
    assert!(is_binary(&raw));
    let mut raw = vec![b'a'; 9000];
    raw[8192] = 0;
    assert!(!is_binary(&raw));
}

#[test]
fn content_must_be_small_text() {
    assert_eq!(MAX_FILE_SIZE, 1_000_000);
    assert_eq!(admit_content(b"print(1)\n".to_vec()), Some("print(1)\n".to_string()));
    assert_eq!(admit_content(Vec::new()), Some(String::new()));
    assert_eq!(admit_content("héllo".as_bytes().to_vec()), Some("héllo".to_string()));
    assert_eq!(admit_content(vec![b'a', 0, b'b']), None);
    assert_eq!(admit_content(vec![0xff, 0xfe, b'a']), None);
    assert_eq!(admit_content(vec![0xc3]), None);
    assert_eq!(admit_content(vec![b'a'; 1_000_000]).map(|s| s.len()), Some(1_000_000));
    assert_eq!(admit_content(vec![b'a'; 1_000_001]), None);
    // A null byte past the guarded prefix is left to the decoder, which accepts it.
    let mut raw = vec![b'a'; 8200];
    raw[8199] = 0;
    assert_eq!(admit_content(raw).map(|s| s.len()), Some(8200));
}

#[test]
fn metadata_scan_keeps_eligible_files() {
    let entries = vec![
        walked_meta("root", "root", false, Some(meta(4096, 1))),
        walked_meta("root/a.py", "a.py", true, Some(meta(120, 1000))),
        walked_meta("root/b.png", "b.png", true, Some(meta(5, 1000))),
        walked_meta("root/.hidden", ".hidden", true, Some(meta(5, 1000))),
        walked_meta("root/gone.py", "gone.py", true, None),
        walked_meta("root/big.txt", "big.txt", true, Some(meta(1_000_001, 7))),
        walked_meta("root/edge.txt", "edge.txt", true, Some(meta(1_000_000, 8))),
    ];
    let snapshot = scan_metadata(&entries);
    assert_eq!(snapshot.len(), 2);
    assert_eq!(snapshot.get("root/a.py"), Some(&meta(120, 1000)));
    assert_eq!(snapshot.get("root/edge.txt"), Some(&meta(1_000_000, 8)));
    assert_eq!(snapshot.get("root/b.png"), None);
    assert_eq!(snapshot.get("root/big.txt"), None);
    assert!(!snapshot.contains_key("root"));
}

#[test]
fn later_entry_replaces_earlier_of_same_path() {
    let entries = vec![
        walked_meta("a.py", "a.py", true, Some(meta(1, 1))),
        walked_meta("a.py", "a.py", true, Some(meta(2, 2))),
    ];
    let snapshot = scan_metadata(&entries);
    assert_eq!(snapshot.len(), 1);
    assert_eq!(snapshot.get("a.py"), Some(&meta(2, 2)));
}

#[test]
fn full_scan_keeps_text_files_with_mtime() {
    let entries = vec![
        walked_file("root/a.py", "a.py", 1000, Some(b"x = 1\n".to_vec())),
        walked_file("root/b.png", "b.png", 1000, Some(b"plain text in disguise".to_vec())),
        walked_file("root/blob.dat", "blob.dat", 5, Some(vec![1, 0, 2])),
        walked_file("root/latin1.txt", "latin1.txt", 5, Some(vec![0xe9])),
        walked_file("root/unreadable.py", "unreadable.py", 5, None),
        WalkedFile {
            path: "root/dir.py".to_string(),
            name: text("dir.py"),
            is_file: false,
            mtime: 5,
            raw: Some(b"x".to_vec()),
        },
    ];
    let files = scan(entries);
    assert_eq!(files.len(), 1);
    let file = files.get("root/a.py").unwrap();
    assert_eq!(file.path, "root/a.py");
    assert_eq!(file.content, "x = 1\n");
    assert_eq!(file.mtime, 1000);
    assert!(files.get("root/b.png").is_none());
    assert!(files.get("root/blob.dat").is_none());
    assert!(files.get("root/latin1.txt").is_none());
    assert!(files.get("root/dir.py").is_none());
}

#[test]
fn classify_by_presence_and_fields() {
    assert_eq!(classify(Some(meta(1, 2)), Some(meta(1, 2))), Some(Change::Unchanged));
    assert_eq!(classify(Some(meta(1, 3)), Some(meta(1, 2))), Some(Change::Modified));
    assert_eq!(classify(Some(meta(2, 2)), Some(meta(1, 2))), Some(Change::Modified));
    assert_eq!(classify(Some(meta(2, 3)), Some(meta(1, 2))), Some(Change::Modified));
    assert_eq!(classify(Some(meta(1, 2)), None), Some(Change::Added));
    assert_eq!(classify(None, Some(meta(1, 2))), Some(Change::Removed));
    assert_eq!(classify(None, None), None);
}

#[test]
fn scan_then_rescan_of_untouched_tree_reports_no_work() {
    let entries = vec![
        walked_meta("root/a.py", "a.py", true, Some(meta(120, 1_700_000_000))),
        walked_meta("root/b.png", "b.png", true, Some(meta(9, 1_700_000_000))),
    ];
    let first = scan_metadata(&entries);
    assert_eq!(first.len(), 1);
    assert!(first.contains_key("root/a.py"));
    assert!(!first.contains_key("root/b.png"));
    let second = scan_metadata(&entries);
    let changes = detect_changes(&second, &first);
    assert_eq!(changes.unchanged, vec!["root/a.py".to_string()]);
    assert!(changes.modified.is_empty());
    assert!(changes.added.is_empty());
    assert!(changes.removed.is_empty());
}

#[test]
fn changes_are_sorted_by_class_in_scan_order() {
    let mut previous: PathMap<FileMetadata> = PathMap::new();
    previous.insert("same.rs".to_string(), meta(10, 100));
    previous.insert("touched.rs".to_string(), meta(10, 100));
    previous.insert("grown.rs".to_string(), meta(10, 100));
    previous.insert("gone.rs".to_string(), meta(10, 100));
    previous.insert("gone_too.rs".to_string(), meta(1, 1));
    let mut current: PathMap<FileMetadata> = PathMap::new();
    current.insert("new.rs".to_string(), meta(5, 200));
    current.insert("grown.rs".to_string(), meta(11, 100));
    current.insert("same.rs".to_string(), meta(10, 100));
    current.insert("touched.rs".to_string(), meta(10, 101));
    let changes = detect_changes(&current, &previous);
    assert_eq!(changes.unchanged, vec!["same.rs".to_string()]);
    assert_eq!(changes.modified, vec!["grown.rs".to_string(), "touched.rs".to_string()]);
    assert_eq!(changes.added, vec!["new.rs".to_string()]);
    assert_eq!(changes.removed, vec!["gone.rs".to_string(), "gone_too.rs".to_string()]);
}

#[test]
fn empty_snapshots_have_no_changes() {
    let current: PathMap<FileMetadata> = PathMap::new();
    let previous: PathMap<FileMetadata> = PathMap::new();
    let changes = detect_changes(&current, &previous);
    assert!(changes.unchanged.is_empty());
    assert!(changes.modified.is_empty());
    assert!(changes.added.is_empty());
    assert!(changes.removed.is_empty());
}

#[test]
fn path_map_keeps_insertion_order_and_replaces() {
    let mut map: PathMap<u32> = PathMap::new();
    assert_eq!(map.len(), 0);
    map.insert("b".to_string(), 1);
    map.insert("a".to_string(), 2);
    map.insert("b".to_string(), 3);
    assert_eq!(map.len(), 2);
    assert_eq!(map.key(0), "b");
    assert_eq!(map.value(0), &3);
    assert_eq!(map.key(1), "a");
    assert_eq!(map.position("a"), Some(1));
    assert_eq!(map.position("c"), None);
    assert_eq!(map.get("c"), None);
    map.remove("b");
    assert_eq!(map.len(), 1);
    assert_eq!(map.key(0), "a");
    assert_eq!(map.get("b"), None);
    map.remove("missing");
    assert_eq!(map.len(), 1);
    let (paths, values) = map.into_entries();
    assert_eq!(paths, vec!["a".to_string()]);
    assert_eq!(values, vec![2]);
}
