use fileaway::{scan, FileDetails, ScanError, WalkItem};

fn entry(path: &str, depth: usize) -> WalkItem {
    WalkItem::Entry { path: path.to_string(), depth }
}

fn unreadable(reason: &str) -> WalkItem {
    WalkItem::Unreadable { reason: reason.to_string() }
}

fn paths(entries: &[FileDetails]) -> Vec<&str> {
    entries.iter().map(|entry| entry.path.as_str()).collect()
}

#[test]
fn scan_lists_what_lies_below_the_root() {
    let walk = vec![
        entry("/data", 0),
        entry("/data/a.txt", 1),
        entry("/data/b", 1),
        entry("/data/b/c.txt", 2),
    ];
    let listing = scan(walk).unwrap();
    assert_eq!(paths(&listing), vec!["/data/a.txt", "/data/b", "/data/b/c.txt"]);
}

#[test]
fn scan_after_a_deletion_lists_what_is_left() {
    let walk = vec![entry("/data", 0), entry("/data/a.txt", 1), entry("/data/b", 1)];
    let listing = scan(walk).unwrap();
    assert_eq!(paths(&listing), vec!["/data/a.txt", "/data/b"]);
}

#[test]
fn scan_of_an_empty_root_lists_nothing() {
    let listing = scan(vec![entry("/data", 0)]).unwrap();
    assert!(listing.is_empty());
}

#[test]
fn scan_of_an_empty_walk_lists_nothing() {
    let listing = scan(Vec::new()).unwrap();
    assert!(listing.is_empty());
}

#[test]
fn scan_keeps_the_order_of_the_walk() {
    let walk = vec![
        entry("/r", 0),
        entry("/r/z", 1),
        entry("/r/z/y", 2),
        entry("/r/a", 1),
        entry("/r/m", 1),
        entry("/r/m/b", 2),
        entry("/r/m/b/c", 3),
    ];
    let listing = scan(walk).unwrap();
    assert_eq!(paths(&listing), vec!["/r/z", "/r/z/y", "/r/a", "/r/m", "/r/m/b", "/r/m/b/c"]);
}

#[test]
fn scan_leaves_out_nothing_and_adds_nothing() {
    let names: Vec<String> = (0..250).map(|i| format!("/r/file-{}", i)).collect();
    let mut walk = vec![entry("/r", 0)];
    for name in &names {
        walk.push(entry(name, 1));
    }
    let listing = scan(walk).unwrap();
    assert_eq!(listing.len(), names.len());
    for (found, name) in listing.iter().zip(names.iter()) {
        assert_eq!(&found.path, name);
    }
    let mut sorted: Vec<&str> = paths(&listing);
    sorted.sort();
    sorted.dedup();
    assert_eq!(sorted.len(), names.len());
}

#[test]
fn scan_drops_only_the_root() {
    let walk = vec![entry("/r/deep", 7), entry("/r", 0), entry("/r/x", 1), entry("/r", 0)];
    let listing = scan(walk).unwrap();
    assert_eq!(paths(&listing), vec!["/r/deep", "/r/x"]);
}

#[test]
fn scan_fails_at_the_first_unreadable_entry() {
    let walk = vec![
        entry("/data", 0),
        entry("/data/a.txt", 1),
        unreadable("permission denied: /data/b"),
        entry("/data/c", 1),
        unreadable("gone: /data/d"),
    ];
    let error = scan(walk).unwrap_err();
    assert_eq!(error, ScanError { index: 2, reason: "permission denied: /data/b".to_string() });
}

#[test]
fn scan_fails_when_the_root_is_unreadable() {
    let error = scan(vec![unreadable("no such directory")]).unwrap_err();
    assert_eq!(error.index, 0);
    assert_eq!(error.reason, "no such directory");
}

#[test]
fn scan_fails_when_only_the_last_entry_is_unreadable() {
    let walk = vec![entry("/r", 0), entry("/r/a", 1), entry("/r/b", 1), unreadable("vanished")];
    let error = scan(walk).unwrap_err();
    assert_eq!(error.index, 3);
    assert_eq!(error.reason, "vanished");
}

#[test]
fn scan_twice_gives_equal_but_separate_listings() {
    let walk = vec![entry("/r", 0), entry("/r/a", 1)];
    let first = scan(walk.clone()).unwrap();
    let mut second = scan(walk).unwrap();
    assert_eq!(first, second);
    second[0].path.push_str(".bak");
    assert_eq!(paths(&first), vec!["/r/a"]);
    assert_eq!(paths(&second), vec!["/r/a.bak"]);
}

/// The walk of a synthetic tree, parents before children, and the paths
/// that lie below its root.
fn grow(path: &str, depth: usize, levels: usize, walk: &mut Vec<WalkItem>, below: &mut Vec<String>) {
    walk.push(entry(path, depth));
    if depth > 0 {
        below.push(path.to_string());
    }
    if depth < levels {
        for child in ["x", "y", "z"] {
            grow(&format!("{}/{}", path, child), depth + 1, levels, walk, below);
        }
    }
}

#[test]
fn scan_of_a_nested_tree_lists_every_path_once() {
    for levels in 0..5 {
        let mut walk = Vec::new();
        let mut below = Vec::new();
        grow("/tree", 0, levels, &mut walk, &mut below);
        let listing = scan(walk).unwrap();
        assert_eq!(paths(&listing), below.iter().map(|path| path.as_str()).collect::<Vec<_>>());
        let mut once: Vec<&str> = paths(&listing);
        once.sort();
        once.dedup();
        assert_eq!(once.len(), listing.len());
        assert!(!once.contains(&"/tree"));
    }
}
