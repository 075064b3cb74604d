use ostree_helpers::tree::{mtree_lookup, mtree_lookup_file, MutableTree, PathError};

fn sample_tree() -> MutableTree {
    // /a/b/c is a file with checksum X; b is a directory under a.
    let mut b = MutableTree::new();
    b.put_file("c", "X");
    let mut a = MutableTree::new();
    a.put_subdir("b", b);
    let mut root = MutableTree::new();
    root.put_subdir("a", a);
    root
}

#[test]
fn lookup_file_finds_nested_file() {
    let root = sample_tree();
    let r = mtree_lookup_file(&root, &["a", "b", "c"]);
    assert_eq!(r.unwrap(), "X");
}

#[test]
fn lookup_file_missing_subdirectory() {
    let root = sample_tree();
    let r = mtree_lookup_file(&root, &["a", "z", "c"]);
    assert!(matches!(r, Err(PathError::SubdirectoryNotFound)));
}

#[test]
fn lookup_file_on_directory_is_file_not_found() {
    let root = sample_tree();
    let r = mtree_lookup_file(&root, &["a", "b"]);
    assert!(matches!(r, Err(PathError::FileNotFound)));
}

#[test]
fn lookup_on_directory_populates_subtree_slot() {
    let root = sample_tree();
    let (file, subtree) = mtree_lookup(&root, &["a", "b"]).unwrap();
    assert!(file.is_none());
    assert!(subtree.is_some());
}

#[test]
fn empty_path_is_rejected_by_both() {
    let root = sample_tree();
    assert!(matches!(mtree_lookup(&root, &[]), Err(PathError::EmptyPath)));
    assert!(matches!(mtree_lookup_file(&root, &[]), Err(PathError::EmptyPath)));
}

#[test]
fn nonterminal_file_is_subdirectory_not_found() {
    // /a is a file; descending through it must fail.
    let mut root = MutableTree::new();
    root.put_file("a", "F");
    let r = mtree_lookup(&root, &["a", "b"]);
    assert!(matches!(r, Err(PathError::SubdirectoryNotFound)));
    let rf = mtree_lookup_file(&root, &["a", "b"]);
    assert!(matches!(rf, Err(PathError::SubdirectoryNotFound)));
}

#[test]
fn single_segment_returns_entry_verbatim() {
    // An entry that exists as both a file and a subdirectory is handed back
    // as the underlying lookup reports it.
    let mut root = MutableTree::new();
    root.put_file("e", "C");
    root.put_subdir("e", MutableTree::new());
    let (file, subtree) = mtree_lookup(&root, &["e"]).unwrap();
    assert_eq!(file.unwrap(), "C");
    assert!(subtree.is_some());
}

#[test]
fn missing_terminal_entry_is_empty_result() {
    let root = sample_tree();
    let (file, subtree) = mtree_lookup(&root, &["a", "nope"]).unwrap();
    assert!(file.is_none());
    assert!(subtree.is_none());
    let rf = mtree_lookup_file(&root, &["a", "nope"]);
    assert!(matches!(rf, Err(PathError::FileNotFound)));
}

#[test]
fn put_file_replaces_existing_entry() {
    let mut root = MutableTree::new();
    root.put_file("f", "old");
    root.put_file("f", "new");
    let r = mtree_lookup_file(&root, &["f"]);
    assert_eq!(r.unwrap(), "new");
}

#[test]
fn deep_nesting_resolves() {
    let mut d = MutableTree::new();
    d.put_file("leaf", "deep");
    for name in ["w", "x", "y", "z"] {
        let mut parent = MutableTree::new();
        parent.put_subdir(name, d);
        d = parent;
    }
    let r = mtree_lookup_file(&d, &["z", "y", "x", "w", "leaf"]);
    assert_eq!(r.unwrap(), "deep");
}
