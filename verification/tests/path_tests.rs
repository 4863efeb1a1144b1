use vaultwalker::entry::VaultEntry;
use vaultwalker::path::VaultPath;

#[test]
fn test_vault_entry_display() {
    let entry = VaultEntry {
        name: "test".to_owned(),
        is_dir: false,
    };

    assert_eq!(entry.label(), "test");

    let entry = VaultEntry {
        name: "test".to_owned(),
        is_dir: true,
    };

    assert_eq!(entry.label(), "test/");
}

#[test]
fn test_vault_path() {
    let path = VaultPath::decode("test/dir");

    assert_eq!(path.entries.len(), 2);
    assert_eq!(path.entries[0].name, "test");
    assert!(path.entries[0].is_dir);
    assert_eq!(path.entries[1].name, "dir");
    assert!(!path.entries[1].is_dir);

    assert_eq!(path.len(), 9);
    assert_eq!(path.join(), "test/dir");
}

#[test]
fn decode_strips_separator_and_tags_directories() {
    let dir = VaultEntry::decode("dir/");
    assert_eq!(dir.name, "dir");
    assert!(dir.is_dir);
    assert!(!dir.name.contains('/'));

    let leaf = VaultEntry::decode("leaf");
    assert_eq!(leaf.name, "leaf");
    assert!(!leaf.is_dir);
    assert!(!leaf.name.contains('/'));

    let lone = VaultEntry::decode("/");
    assert_eq!(lone.name, "");
    assert!(lone.is_dir);
}

#[test]
fn decode_three_segments() {
    let p = VaultPath::decode("a/b/c");
    assert_eq!(p.entries.len(), 3);
    assert_eq!(p.entries[0].name, "a");
    assert!(p.entries[0].is_dir);
    assert_eq!(p.entries[1].name, "b");
    assert!(p.entries[1].is_dir);
    assert_eq!(p.entries[2].name, "c");
    assert!(!p.entries[2].is_dir);
    assert_eq!(p.join(), "a/b/c");
    assert_eq!(p.len(), 6);
}

#[test]
fn decode_drops_empty_segments() {
    let p = VaultPath::decode("//a//b/");
    assert_eq!(p.entries.len(), 2);
    assert_eq!(p.entries[0].name, "a");
    assert!(p.entries[0].is_dir);
    assert_eq!(p.entries[1].name, "b");
    assert!(p.entries[1].is_dir);
    assert_eq!(p.join(), "a/b/");
}

#[test]
fn push_join_decode_round_trip() {
    let mut p = VaultPath::decode("");
    assert!(p.push(VaultEntry {
        name: "alpha".to_owned(),
        is_dir: true,
    }));
    assert!(p.push(VaultEntry {
        name: "beta".to_owned(),
        is_dir: true,
    }));
    let joined = p.join();
    assert_eq!(joined, "alpha/beta/");

    let q = VaultPath::decode(&joined);
    assert_eq!(q.entries.len(), p.entries.len());
    for i in 0..p.entries.len() {
        assert_eq!(q.entries[i].name, p.entries[i].name);
        assert_eq!(q.entries[i].is_dir, p.entries[i].is_dir);
    }
}

#[test]
fn pop_refused_at_root_floor() {
    let mut p = VaultPath::decode("a/b/");
    assert_eq!(p.root_len, 2);

    // at the floor: a no-op reporting failure
    assert!(p.pop().is_none());
    assert_eq!(p.entries.len(), 2);
    assert_eq!(p.join(), "a/b/");

    // above the floor: pops the last entry
    assert!(p.push(VaultEntry {
        name: "c".to_owned(),
        is_dir: true,
    }));
    let popped = p.pop().unwrap();
    assert_eq!(popped.name, "c");
    assert_eq!(p.entries.len(), 2);

    // and back at the floor it is refused again
    assert!(p.pop().is_none());
}

#[test]
fn push_refused_past_depth_guard() {
    let mut p = VaultPath::decode("");
    for i in 0..32 {
        assert!(p.push(VaultEntry {
            name: format!("d{}", i),
            is_dir: true,
        }));
    }
    // already at the depth guard: refused
    assert!(!p.push(VaultEntry {
        name: "deep".to_owned(),
        is_dir: true,
    }));
    assert_eq!(p.entries.len(), 32);
}
