//! Store behavior: bare commits, tags, worktrees, union patches.

use stratum::commit::Worktree;
use stratum::errors::StratumError;
use stratum::fstree::{FsEntry, FsMeta, FsNode, SpecialKind};
use stratum::refs::{is_sha256_hash, parse_label, StratumRef};
use stratum::store::{commit_id_from_link_target, tag_link_target, Store};
use tempfile::TempDir;

fn meta() -> FsMeta {
    FsMeta { mode: 0o100644, uid: 1000, gid: 1000 }
}

fn dir_meta() -> FsMeta {
    FsMeta { mode: 0o40755, uid: 1000, gid: 1000 }
}

fn file(name: &str, content: &str) -> FsEntry {
    FsEntry {
        name: name.as_bytes().to_vec(),
        node: FsNode::File { meta: meta(), content: content.as_bytes().to_vec() },
    }
}

fn dir(name: &str, entries: Vec<FsEntry>) -> FsEntry {
    FsEntry { name: name.as_bytes().to_vec(), node: FsNode::Dir { meta: dir_meta(), entries } }
}

/// `D1 = {a.txt="hi", b/c.txt="ok"}` from the import scenario.
fn sample_tree() -> FsNode {
    FsNode::Dir {
        meta: dir_meta(),
        entries: vec![file("a.txt", "hi"), dir("b", vec![file("c.txt", "ok")])],
    }
}

fn new_store(tmp: &TempDir, name: &str) -> Store {
    let path = tmp.path().join(name);
    Store::new(path.to_string_lossy().to_string()).unwrap()
}

#[test]
fn test_store_creation() {
    let temp_dir = TempDir::new().unwrap();
    let store_path = temp_dir.path().join("test_store");
    let store = Store::new(store_path.to_string_lossy().to_string()).unwrap();

    assert!(store_path.exists());
    assert_eq!(store.base_path(), store_path.to_string_lossy());
}

#[test]
fn tests_test_store_creation() {
    let temp_dir = TempDir::new().unwrap();
    let store_path = temp_dir.path().join("test_store");
    let store = Store::new(store_path.to_string_lossy().to_string()).unwrap();

    assert!(store_path.exists());
    assert_eq!(store.base_path(), store_path.to_string_lossy());
}

#[test]
fn test_worktree_paths() {
    let temp_dir = TempDir::new().unwrap();
    let store_path = temp_dir.path().join("test_store");
    let store = Store::new(store_path.to_string_lossy().to_string()).unwrap();

    // Test worktree path methods
    let worktrees_path = store.worktrees_path("myapp");
    let main_worktree_path = store.worktree_path("myapp", "main");
    let upperdir_path = store.worktree_upperdir("myapp", "main");
    let workdir_path = store.worktree_workdir("myapp", "main");
    let meta_path = store.worktree_meta_path("myapp", "main");

    // Verify path structure
    assert!(worktrees_path.contains("refs/myapp/worktrees"));
    assert!(main_worktree_path.contains("refs/myapp/worktrees/main"));
    assert!(upperdir_path.contains("refs/myapp/worktrees/main/upperdir"));
    assert!(workdir_path.contains("refs/myapp/worktrees/main/workdir"));
    assert!(meta_path.contains("refs/myapp/worktrees/main/meta.toml"));
}

#[test]
fn tests_test_worktree_paths() {
    let temp_dir = TempDir::new().unwrap();
    let store_path = temp_dir.path().join("test_store");
    let store = Store::new(store_path.to_string_lossy().to_string()).unwrap();

    let worktrees_path = store.worktrees_path("myapp");
    let main_worktree_path = store.worktree_path("myapp", "main");
    let upperdir_path = store.worktree_upperdir("myapp", "main");
    let workdir_path = store.worktree_workdir("myapp", "main");
    let meta_path = store.worktree_meta_path("myapp", "main");

    assert!(worktrees_path.contains("refs/myapp/worktrees"));
    assert!(main_worktree_path.contains("refs/myapp/worktrees/main"));
    assert!(upperdir_path.contains("refs/myapp/worktrees/main/upperdir"));
    assert!(workdir_path.contains("refs/myapp/worktrees/main/workdir"));
    assert!(meta_path.contains("refs/myapp/worktrees/main/meta.toml"));
}

#[test]
fn test_oci_style_commit_and_tagging() {
    let temp_dir = TempDir::new().unwrap();
    let mut store = new_store(&temp_dir, "test_store");

    let source = FsNode::Dir {
        meta: dir_meta(),
        entries: vec![file("file1.txt", "content1"), file("file2.txt", "content2")],
    };

    // Import creates a commit
    let commit_id = store.commit_directory_bare("myapp", &source, None, false).unwrap();

    assert!(!commit_id.is_empty());
    assert!(is_sha256_hash(&commit_id));

    // Tag the commit
    store.tag_commit("myapp", &commit_id, "v1.0").unwrap();
    store.tag_commit("myapp", &commit_id, "latest").unwrap();

    // Resolve tags
    let resolved_v1 = store.resolve_tag("myapp", "v1.0").unwrap();
    let resolved_latest = store.resolve_tag("myapp", "latest").unwrap();
    assert_eq!(resolved_v1, commit_id);
    assert_eq!(resolved_latest, commit_id);

    // List tags: sorted by name
    let tags = store.list_tags("myapp").unwrap();
    assert_eq!(tags.len(), 2);
    assert!(tags.contains(&"v1.0".to_owned()));
    assert!(tags.contains(&"latest".to_owned()));
    assert_eq!(tags, vec!["latest".to_owned(), "v1.0".to_owned()]);
}

#[test]
fn bare_commit_id_is_deterministic() {
    // Importing the same tree twice, and into a fresh store, yields the
    // same commit id.
    let t1 = TempDir::new().unwrap();
    let t2 = TempDir::new().unwrap();
    let mut s1 = new_store(&t1, "one");
    let mut s2 = new_store(&t2, "two");

    let id_a = s1.commit_directory_bare("app", &sample_tree(), None, false).unwrap();
    let id_b = s1.commit_directory_bare("app", &sample_tree(), None, false).unwrap();
    let id_c = s2.commit_directory_bare("other", &sample_tree(), None, true).unwrap();
    assert_eq!(id_a, id_b);
    assert_eq!(id_a, id_c);

    // a different tree yields a different id
    let other = FsNode::Dir { meta: dir_meta(), entries: vec![file("a.txt", "HI")] };
    let id_d = s1.commit_directory_bare("app", &other, None, false).unwrap();
    assert_ne!(id_a, id_d);
}

#[test]
fn commit_metadata_fields() {
    let tmp = TempDir::new().unwrap();
    let mut store = new_store(&tmp, "s");
    let id = store.commit_directory_bare("app", &sample_tree(), None, false).unwrap();
    let commit = store.load_commit(&id).unwrap();
    assert_eq!(commit.id(), id);
    assert_eq!(commit.files.count, 2); // a.txt and b/c.txt
    assert_eq!(commit.files.total_size, 4); // "hi" + "ok"
    assert_eq!(commit.merkle.leaf_count, 2);
    assert_eq!(commit.merkle.tree_depth, 1);
    assert!(commit.commit.parent_commit.is_none());
    assert_eq!(commit.metadata_hash_bytes().unwrap().len(), 32);
    assert_eq!(commit.merkle_root_bytes().unwrap().len(), 32);
}

#[test]
fn non_directory_root_is_invalid_input() {
    let tmp = TempDir::new().unwrap();
    let mut store = new_store(&tmp, "s");
    let not_a_dir = FsNode::File { meta: meta(), content: vec![] };
    let err = store.commit_directory_bare("app", &not_a_dir, None, false).unwrap_err();
    assert!(matches!(err, StratumError::InvalidInput(_)));
}

#[test]
fn symlink_cycle_hashes_in_bounded_time() {
    // Two symlinks pointing at each other: the tree holds only targets,
    // so hashing terminates and succeeds.
    let tree = FsNode::Dir {
        meta: dir_meta(),
        entries: vec![
            FsEntry {
                name: b"one".to_vec(),
                node: FsNode::Symlink { meta: meta(), target: b"two".to_vec() },
            },
            FsEntry {
                name: b"two".to_vec(),
                node: FsNode::Symlink { meta: meta(), target: b"one".to_vec() },
            },
        ],
    };
    let digest = stratum::fstree::hash_directory_tree(&tree).unwrap();
    assert_eq!(digest.len(), 32);
}

#[test]
fn device_files_hash_without_content() {
    // A character device like the zero device, a FIFO, and a dangling
    // symlink: all hash from metadata alone; the tree cannot even carry
    // device contents.
    let tree = FsNode::Dir {
        meta: dir_meta(),
        entries: vec![
            FsEntry {
                name: b"dangling".to_vec(),
                node: FsNode::Symlink { meta: meta(), target: b"no-such-target".to_vec() },
            },
            FsEntry {
                name: b"p".to_vec(),
                node: FsNode::Special {
                    kind: SpecialKind::Fifo,
                    meta: meta(),
                    size: 0,
                    rdev: 0,
                },
            },
            FsEntry {
                name: b"zero".to_vec(),
                node: FsNode::Special {
                    kind: SpecialKind::CharDevice,
                    meta: meta(),
                    size: 0,
                    rdev: 0x0105,
                },
            },
        ],
    };
    let tmp = TempDir::new().unwrap();
    let mut store = new_store(&tmp, "s");
    let id = store.commit_directory_bare("dev", &tree, None, false).unwrap();
    assert!(is_sha256_hash(&id));
    let commit = store.load_commit(&id).unwrap();
    assert_eq!(commit.files.count, 3);
    // device contents are not counted in the size
    assert_eq!(commit.files.total_size, "no-such-target".len() as u64);
}

#[test]
fn tag_round_trip_and_retag() {
    let tmp = TempDir::new().unwrap();
    let mut store = new_store(&tmp, "s");
    let c1 = store.commit_directory_bare("app", &sample_tree(), None, false).unwrap();
    let other = FsNode::Dir { meta: dir_meta(), entries: vec![file("a.txt", "HI")] };
    let c2 = store.commit_directory_bare("app", &other, None, false).unwrap();

    store.tag_commit("app", &c1, "v1").unwrap();
    assert_eq!(store.resolve_tag("app", "v1").unwrap(), c1);
    // retagging replaces the target
    store.tag_commit("app", &c2, "v1").unwrap();
    assert_eq!(store.resolve_tag("app", "v1").unwrap(), c2);
    // tagging a missing commit is refused
    let missing = "0".repeat(64);
    assert!(matches!(
        store.tag_commit("app", &missing, "bad"),
        Err(StratumError::NotFound(_))
    ));
    // untag removes it
    store.untag("app", "v1").unwrap();
    assert!(matches!(store.resolve_tag("app", "v1"), Err(StratumError::NotFound(_))));
    assert!(matches!(store.untag("app", "v1"), Err(StratumError::NotFound(_))));
}

#[test]
fn tag_link_target_round_trip() {
    let target = tag_link_target("abc123");
    assert_eq!(target, "../../../commits/abc123");
    assert_eq!(commit_id_from_link_target(&target), "abc123");
}

#[test]
fn union_patch_commit_is_deterministic() {
    // The derived id depends only on the base commit's identity and the
    // patch tree, not on which store or scratch performed the work.
    let t1 = TempDir::new().unwrap();
    let t2 = TempDir::new().unwrap();
    let mut s1 = new_store(&t1, "one");
    let mut s2 = new_store(&t2, "two");

    let base1 = s1.commit_directory_bare("app", &sample_tree(), None, false).unwrap();
    let base2 = s2.commit_directory_bare("app", &sample_tree(), None, false).unwrap();
    assert_eq!(base1, base2);

    let patch = FsNode::Dir { meta: dir_meta(), entries: vec![file("a.txt", "HI")] };
    let u1 = s1.union_patch_commit("app", &patch, &base1, false, 6).unwrap();
    let u2 = s2.union_patch_commit("app", &patch, &base2, false, 6).unwrap();
    assert_eq!(u1, u2);
    assert_ne!(u1, base1);

    // the derived commit records its parent
    let derived = s1.load_commit(&u1).unwrap();
    assert_eq!(derived.commit.parent_commit.as_deref(), Some(base1.as_str()));
    assert_eq!(derived.files.count, 3); // two base chunks + one patch chunk

    // a missing base is refused
    let missing = "f".repeat(64);
    assert!(matches!(
        s1.union_patch_commit("app", &patch, &missing, false, 0),
        Err(StratumError::NotFound(_))
    ));
}

#[test]
fn test_worktree_creation() {
    let worktree = Worktree::new(
        "main".to_owned(),
        "abc123".to_owned(),
        Some("Main development branch".to_owned()),
    );

    assert_eq!(worktree.name(), "main");
    assert_eq!(worktree.base_commit(), "abc123");
    assert_eq!(
        worktree.worktree.description,
        Some("Main development branch".to_owned())
    );
}

#[test]
fn worktree_lifecycle() {
    let tmp = TempDir::new().unwrap();
    let mut store = new_store(&tmp, "s");
    let c1 = store.commit_directory_bare("app", &sample_tree(), None, false).unwrap();

    // creation demands an existing base
    let missing = "1".repeat(64);
    assert!(matches!(
        store.create_worktree("app", "feat", &missing, None),
        Err(StratumError::NotFound(_))
    ));
    store.create_worktree("app", "feat", &c1, Some("feature work".to_owned())).unwrap();
    // occupied names are refused
    assert!(matches!(
        store.create_worktree("app", "feat", &c1, None),
        Err(StratumError::Exists(_))
    ));

    let wt = store.load_worktree("app", "feat").unwrap();
    assert_eq!(wt.name(), "feat");
    assert_eq!(wt.base_commit(), c1);
    assert!(wt.worktree.last_committed.is_none());

    store.mark_worktree_committed("app", "feat").unwrap();
    assert!(store.load_worktree("app", "feat").unwrap().worktree.last_committed.is_some());

    // rebase onto another commit
    let other = FsNode::Dir { meta: dir_meta(), entries: vec![file("x", "y")] };
    let c2 = store.commit_directory_bare("app", &other, None, false).unwrap();
    let new_base = store
        .rebase_worktree("app", "feat", &StratumRef::Commit(c2.clone()))
        .unwrap();
    assert_eq!(new_base, c2);
    assert_eq!(store.load_worktree("app", "feat").unwrap().base_commit(), c2);

    // removal
    store.remove_worktree("app", "feat").unwrap();
    assert!(!store.worktree_exists("app", "feat"));
    assert!(matches!(
        store.remove_worktree("app", "feat"),
        Err(StratumError::NotFound(_))
    ));
}

#[test]
fn worktree_change_probe() {
    let worktree = Worktree::new("test".to_owned(), "xyz789".to_owned(), None);
    // a missing upper directory means no changes
    assert!(!worktree.has_uncommitted_changes(false, false));
    // an empty upper directory means no changes
    assert!(!worktree.has_uncommitted_changes(true, false));
    // an upper directory with entries means changes
    assert!(worktree.has_uncommitted_changes(true, true));
}

#[test]
fn label_and_ref_parsing() {
    assert_eq!(parse_label("app:v1").unwrap(), ("app".to_owned(), Some("v1".to_owned())));
    assert_eq!(parse_label("app").unwrap(), ("app".to_owned(), None));
    assert_eq!(parse_label("a:b:c").unwrap(), ("a".to_owned(), Some("b:c".to_owned())));

    let hex_id = "a".repeat(64);
    assert!(is_sha256_hash(&hex_id));
    assert!(!is_sha256_hash("A".repeat(64).as_str())); // upper case is not an id
    assert!(!is_sha256_hash("abc"));

    assert!(matches!(StratumRef::parse(&hex_id), StratumRef::Commit(_)));
    assert!(matches!(StratumRef::parse("app:v1"), StratumRef::Tag(_)));
    match StratumRef::parse("app+feat") {
        StratumRef::Worktree { label, worktree } => {
            assert_eq!(label, "app");
            assert_eq!(worktree, "feat");
        },
        _ => panic!("expected a worktree reference"),
    }
    assert_eq!(StratumRef::parse("app+feat").to_ref_string(), "app+feat");
}

#[test]
fn resolve_commit_id_dispatch() {
    let tmp = TempDir::new().unwrap();
    let mut store = new_store(&tmp, "s");
    let c1 = store.commit_directory_bare("app", &sample_tree(), None, false).unwrap();
    store.tag_commit("app", &c1, "v1").unwrap();
    store.tag_commit("app", &c1, "latest").unwrap();
    store.create_worktree("app", "feat", &c1, None).unwrap();

    // a commit id resolves to itself
    let r = StratumRef::Commit(c1.clone());
    assert_eq!(r.resolve_commit_id(&store).unwrap(), c1);
    // a tag resolves through the tag table; a bare label uses `latest`
    assert_eq!(StratumRef::Tag("app:v1".to_owned()).resolve_commit_id(&store).unwrap(), c1);
    assert_eq!(StratumRef::Tag("app".to_owned()).resolve_commit_id(&store).unwrap(), c1);
    // a worktree resolves to its base commit
    let wr = StratumRef::Worktree { label: "app".to_owned(), worktree: "feat".to_owned() };
    assert_eq!(wr.resolve_commit_id(&store).unwrap(), c1);
    // unknown tags fail
    assert!(StratumRef::Tag("app:nope".to_owned()).resolve_commit_id(&store).is_err());
}
