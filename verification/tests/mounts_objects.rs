//! Mount registry guards, object refcounts and mount configuration.

use stratum::errors::StratumError;
use stratum::fstree::{FsEntry, FsMeta, FsNode};
use stratum::mountcfg::{
    fallback_key, mount_line_names, mount_point_of_line, next_fd_attempt,
    overlay_string_options, ComposeFsConfig, DigestStore, EphemeralMount, FdOptionAttempt,
    FdOptionStep, TempOvlMount,
};
use stratum::patchset::Patchset;
use stratum::refs::StratumRef;
use stratum::state::{decode_state_file, encode_state_file, MountedStratum, StratumMountRef};
use stratum::store::{MountAction, Store};
use tempfile::TempDir;

fn dir_meta() -> FsMeta {
    FsMeta { mode: 0o40755, uid: 0, gid: 0 }
}

fn sample_tree() -> FsNode {
    FsNode::Dir {
        meta: dir_meta(),
        entries: vec![FsEntry {
            name: b"a.txt".to_vec(),
            node: FsNode::File {
                meta: FsMeta { mode: 0o100644, uid: 0, gid: 0 },
                content: b"hi".to_vec(),
            },
        }],
    }
}

fn new_store(tmp: &TempDir, name: &str) -> Store {
    let path = tmp.path().join(name);
    Store::new(path.to_string_lossy().to_string()).unwrap()
}

fn plan_of(action: MountAction) -> stratum::store::MountPlan {
    match action {
        MountAction::Mount(plan) => plan,
        MountAction::AlreadyMounted => panic!("expected a fresh mount plan"),
    }
}

#[test]
fn mount_registry_integrity() {
    let tmp = TempDir::new().unwrap();
    let mut store = new_store(&tmp, "s");
    let c1 = store.commit_directory_bare("app", &sample_tree(), None, false).unwrap();
    store.tag_commit("app", &c1, "v1").unwrap();

    let sref = StratumRef::Tag("app:v1".to_owned());
    let plan = plan_of(store.prepare_mount_ref(&sref, "/mnt/x", None).unwrap());
    assert_eq!(plan.commit_id, c1);
    assert!(plan.read_only);
    assert_eq!(plan.source_name, "stratum:app:v1");
    store.record_mount(&plan).unwrap();

    // the registry now names the mount, and planning again is a no-op
    assert!(store.get_commit_mounted(&c1).unwrap());
    assert!(matches!(
        store.prepare_mount_ref(&sref, "/mnt/x", None).unwrap(),
        MountAction::AlreadyMounted
    ));

    // unmounting an untracked path fails whatever the system reports;
    // a tracked one proceeds, detaching only where something is mounted
    assert!(matches!(
        store.prepare_unmount("/mnt/other", true),
        Err(StratumError::NotFound(_))
    ));
    assert!(matches!(
        store.prepare_unmount("/mnt/other", false),
        Err(StratumError::NotFound(_))
    ));
    assert!(store.prepare_unmount("/mnt/x", true).unwrap());
    assert!(!store.prepare_unmount("/mnt/x", false).unwrap());
    store.record_unmount("/mnt/x").unwrap();
    assert!(!store.get_commit_mounted(&c1).unwrap());
}

#[test]
fn delete_guard_busy_while_mounted() {
    let tmp = TempDir::new().unwrap();
    let mut store = new_store(&tmp, "s");
    let c1 = store.commit_directory_bare("app", &sample_tree(), None, false).unwrap();
    let sref = StratumRef::Commit(c1.clone());
    let plan = plan_of(store.prepare_mount_ref(&sref, "/mnt/x", None).unwrap());
    store.record_mount(&plan).unwrap();

    // deletion is refused while the mount record pins the commit
    assert!(matches!(store.delete_commit(&c1), Err(StratumError::Busy(_))));
    store.record_unmount("/mnt/x").unwrap();
    store.delete_commit(&c1).unwrap();
    assert!(!store.commit_exists(&c1));
}

#[test]
fn worktree_exclusion_second_writable_mount_fails() {
    let tmp = TempDir::new().unwrap();
    let mut store = new_store(&tmp, "s");
    let c1 = store.commit_directory_bare("app", &sample_tree(), None, false).unwrap();
    store.create_worktree("app", "feat", &c1, None).unwrap();

    let sref = StratumRef::Worktree { label: "app".to_owned(), worktree: "feat".to_owned() };
    let plan = plan_of(store.prepare_mount_ref(&sref, "/mnt/y", Some("feat")).unwrap());
    assert!(!plan.read_only);
    assert_eq!(plan.source_name, "stratum:app+feat");
    store.record_mount(&plan).unwrap();

    // a second writable mount of the same worktree on another path is busy
    assert!(matches!(
        store.prepare_mount_ref(&sref, "/mnt/z", Some("feat")),
        Err(StratumError::Busy(_))
    ));
    // the worktree cannot be removed while mounted
    assert!(matches!(
        store.remove_worktree("app", "feat"),
        Err(StratumError::Busy(_))
    ));
    // after unmounting, both are allowed again
    store.record_unmount("/mnt/y").unwrap();
    let again = store.prepare_mount_ref(&sref, "/mnt/z", Some("feat")).unwrap();
    assert!(matches!(again, MountAction::Mount(_)));
    store.remove_worktree("app", "feat").unwrap();
}

#[test]
fn mounting_unknown_worktree_fails() {
    let tmp = TempDir::new().unwrap();
    let mut store = new_store(&tmp, "s");
    let c1 = store.commit_directory_bare("app", &sample_tree(), None, false).unwrap();
    store.create_worktree("app", "feat", &c1, None).unwrap();
    let sref = StratumRef::Worktree { label: "app".to_owned(), worktree: "nope".to_owned() };
    assert!(matches!(
        store.prepare_mount_ref(&sref, "/mnt/y", Some("nope")),
        Err(StratumError::NotFound(_))
    ));
}

#[test]
fn object_refcounts_follow_registration() {
    let tmp = TempDir::new().unwrap();
    let mut store = new_store(&tmp, "s");
    let c1 = store.commit_directory_bare("app", &sample_tree(), None, false).unwrap();

    let objects = vec![("aa/bb0011".to_owned(), 42u64), ("cc/dd2233".to_owned(), 7u64)];
    store.register_objects(&c1, &objects).unwrap();

    let meta = store.get_object_metadata("aa/bb0011").unwrap().unwrap();
    assert_eq!(meta.size, 42);
    assert_eq!(meta.commit_refs, vec![c1.clone()]);

    // registering for a second commit widens the refcount set
    store.register_object("another-commit", "aa/bb0011", 42).unwrap();
    let meta = store.get_object_metadata("aa/bb0011").unwrap().unwrap();
    assert_eq!(meta.commit_refs.len(), 2);

    // dropping the first commit's references removes only exhausted records
    let names: Vec<String> = objects.iter().map(|o| o.0.clone()).collect();
    store.unregister_objects(&c1, &names).unwrap();
    let survivor = store.get_object_metadata("aa/bb0011").unwrap().unwrap();
    assert_eq!(survivor.commit_refs, vec!["another-commit".to_owned()]);
    assert!(store.get_object_metadata("cc/dd2233").unwrap().is_none());
}

#[test]
fn composefs_config_builders() {
    let config = ComposeFsConfig::read_only("test".to_owned());
    assert!(config.upperdir.is_none());
    assert!(config.verity_required);
    assert!(!config.is_writable());

    let config = ComposeFsConfig::writable("test".to_owned(), "/up".to_owned(), None);
    assert!(config.upperdir.is_some());
    assert!(config.verity_required);
    assert!(config.is_writable());

    let config = config
        .with_basedir("/objects".to_owned())
        .with_source_name("stratum:app".to_owned())
        .with_metacopy(false)
        .with_redirect_dir(true)
        .with_verity(false);
    assert_eq!(config.basedir.as_deref(), Some("/objects"));
    assert!(!config.verity_required);

    let options = overlay_string_options(&config);
    assert_eq!(
        options,
        vec![
            ("source".to_owned(), "stratum:app".to_owned()),
            ("redirect_dir".to_owned(), "on".to_owned()),
            ("upperdir".to_owned(), "/up".to_owned()),
        ]
    );

    // without a custom source the mount is named after the config
    let plain = ComposeFsConfig::read_only("app".to_owned()).with_metacopy(false)
        .with_redirect_dir(false);
    let options = overlay_string_options(&plain);
    assert_eq!(options, vec![("source".to_owned(), "composefs-app".to_owned())]);
}

#[test]
fn fd_option_fallback_ladder() {
    // an invalid-argument rejection walks the ladder
    assert_eq!(
        next_fd_attempt("lowerdir+", FdOptionAttempt::Direct, true),
        FdOptionStep::Retry(FdOptionAttempt::Reopened)
    );
    assert_eq!(
        next_fd_attempt("lowerdir+", FdOptionAttempt::Reopened, true),
        FdOptionStep::Retry(FdOptionAttempt::StringPath)
    );
    assert_eq!(
        next_fd_attempt("lowerdir+", FdOptionAttempt::StringPath, true),
        FdOptionStep::GiveUp
    );
    // the upper and work directories never fall back to path strings
    assert_eq!(
        next_fd_attempt("upperdir+", FdOptionAttempt::Reopened, true),
        FdOptionStep::GiveUp
    );
    assert_eq!(
        next_fd_attempt("workdir+", FdOptionAttempt::Reopened, true),
        FdOptionStep::GiveUp
    );
    // any other error is fatal immediately
    assert_eq!(
        next_fd_attempt("lowerdir+", FdOptionAttempt::Direct, false),
        FdOptionStep::GiveUp
    );
    assert_eq!(fallback_key("lowerdir+"), "lowerdir");
    assert_eq!(fallback_key("datadir+"), "datadir");
    assert_eq!(fallback_key("source"), "source");
}

#[test]
fn temp_overlay_lowerdir_order() {
    let mount = TempOvlMount::new(
        "/mnt/ovl".to_owned(),
        vec!["/lower/base".to_owned(), "/lower/top".to_owned()],
        "/upper".to_owned(),
        Some("/work".to_owned()),
    );
    // the last listed directory becomes the topmost layer
    assert_eq!(mount.lowerdir_option(), "/lower/top:/lower/base");
    assert_eq!(mount.get_mountpoint(), "/mnt/ovl");

    let single = TempOvlMount::new("/m".to_owned(), vec!["/only".to_owned()], "/u".to_owned(), None);
    assert_eq!(single.lowerdir_option(), "/only");

    let store = DigestStore::new("/objects".to_owned());
    assert_eq!(store.path, "/objects");
}

#[test]
fn mount_table_line_parsing() {
    let line = "overlay /mnt/x overlay rw,metacopy=on 0 0";
    assert_eq!(mount_point_of_line(line).as_deref(), Some("/mnt/x"));
    assert!(mount_line_names(line, "/mnt/x"));
    assert!(!mount_line_names(line, "/mnt"));
    assert!(!mount_line_names(line, "overlay"));
    assert_eq!(mount_point_of_line("   spaced\tentry here"), Some("entry".to_owned()));
    assert!(mount_point_of_line("onefield").is_none());
    assert!(mount_point_of_line("").is_none());
}

#[test]
fn state_file_codec_round_trip() {
    let rows = vec![
        (
            "/mnt/x".to_owned(),
            MountedStratum {
                stratum_ref: StratumMountRef::Snapshot(StratumRef::Tag("app:v1".to_owned())),
                mount_point: "/mnt/x".to_owned(),
                read_only: true,
                base_commit: "a".repeat(64),
            },
        ),
        (
            "/mnt/y".to_owned(),
            MountedStratum {
                stratum_ref: StratumMountRef::Worktree {
                    label: "app".to_owned(),
                    worktree: "feat".to_owned(),
                },
                mount_point: "/mnt/y".to_owned(),
                read_only: false,
                base_commit: "b".repeat(64),
            },
        ),
    ];
    let bytes = encode_state_file(&rows);
    let parsed = decode_state_file(&bytes).unwrap();
    assert_eq!(parsed.len(), 2);
    assert_eq!(parsed[0].0, "/mnt/x");
    assert_eq!(parsed[1].0, "/mnt/y");
    assert!(parsed[0].1.read_only);
    assert!(!parsed[1].1.read_only);
    assert_eq!(parsed[1].1.base_commit, "b".repeat(64));
    assert!(matches!(
        &parsed[1].1.stratum_ref,
        StratumMountRef::Worktree { label, worktree } if label == "app" && worktree == "feat"
    ));
    // parsing reproduces the canonical bytes
    assert_eq!(encode_state_file(&parsed), bytes);
    // the empty registry encodes to a bare count
    let empty: Vec<(String, MountedStratum)> = vec![];
    let bytes = encode_state_file(&empty);
    assert_eq!(bytes, vec![0u8; 8]);
    assert!(decode_state_file(&bytes).unwrap().is_empty());
    // malformed inputs are rejected
    assert!(decode_state_file(&vec![1u8, 2, 3]).is_err());
    assert!(decode_state_file(&vec![1u8, 0, 0, 0, 0, 0, 0, 0]).is_err());
}

#[test]
fn patchset_parses_references() {
    let ps = Patchset::new(
        Some("a".repeat(64)),
        vec!["app:v1".to_owned(), "app+feat".to_owned()],
    );
    assert!(matches!(ps.base_commit(), Some(StratumRef::Commit(_))));
    let patches = ps.patches();
    assert_eq!(patches.len(), 2);
    assert!(matches!(&patches[0], StratumRef::Tag(t) if t == "app:v1"));
    assert!(matches!(
        &patches[1],
        StratumRef::Worktree { label, worktree } if label == "app" && worktree == "feat"
    ));

    let empty = Patchset::new(None, vec![]);
    assert!(empty.base_commit().is_none());
    assert!(empty.patches().is_empty());
}
