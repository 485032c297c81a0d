use std::path::PathBuf;

use easyto_init::fs::{
    after_create, descending_dirs, next_write_stage, residue_on_failure, tmp_name, CreateOutcome,
    CreateStep, JoinRelative, Mount, MountFlags, MountOutcome, WriteResidue, WriteStage,
};

#[test]
fn test_descending_dirs() {
    struct Case<'a> {
        path: &'a str,
        expected: Vec<String>,
    }
    let cases = [
        Case {
            path: "",
            expected: vec![],
        },
        Case {
            path: "a",
            expected: ["a"].iter().map(|s| s.to_string()).collect(),
        },
        Case {
            path: "/a",
            expected: ["/a"].iter().map(|s| s.to_string()).collect(),
        },
        Case {
            path: "/a/b",
            expected: ["/a", "/a/b"].iter().map(|s| s.to_string()).collect(),
        },
        Case {
            path: "/a/b/",
            expected: ["/a", "/a/b", "/a/b/"]
                .iter()
                .map(|s| s.to_string())
                .collect(),
        },
        Case {
            path: "/a/b/c/d",
            expected: ["/a", "/a/b", "/a/b/c", "/a/b/c/d"]
                .iter()
                .map(|s| s.to_string())
                .collect(),
        },
    ];
    for case in cases {
        let result = descending_dirs(case.path);
        assert_eq!(case.expected, result);
    }
}

#[test]
fn test_path_ext_join_relative() {
    struct Case<'a> {
        base: &'a str,
        join: &'a str,
        expected: PathBuf,
    }
    let cases = [
        Case {
            base: "/a",
            join: "",
            expected: PathBuf::from("/a/"),
        },
        Case {
            base: "/a",
            join: "b",
            expected: PathBuf::from("/a/b"),
        },
        Case {
            base: "/a",
            join: "/b",
            expected: PathBuf::from("/a/b"),
        },
    ];
    for case in cases {
        let joined = case.base.join_relative(case.join);
        assert_eq!(case.expected, PathBuf::from(joined));
    }
}

#[test]
fn join_relative_gives_the_exact_text() {
    assert_eq!("/a".join_relative(""), "/a/");
    assert_eq!("/a".join_relative("b"), "/a/b");
    assert_eq!("/a".join_relative("/b"), "/a/b");
    assert_eq!("/a/".join_relative("b/c"), "/a/b/c");
    assert_eq!("/a".join_relative("//b"), "/a/b");
    assert_eq!("".join_relative("b"), "b");
    assert_eq!("".join_relative("/b"), "b");
}

#[test]
fn descending_dirs_keeps_doubled_separators() {
    assert_eq!(descending_dirs("//a"), vec!["/".to_string(), "//a".to_string()]);
    assert_eq!(descending_dirs("/"), vec!["/".to_string()]);
    assert_eq!(descending_dirs("a/b"), vec!["a".to_string(), "a/b".to_string()]);
}

#[test]
fn busy_mount_point_counts_as_mounted() {
    let m = Mount {
        source: "proc",
        flags: MountFlags::empty(),
        fs_type: "proc",
        mode: 0o555,
        options: None,
        target: "/proc",
    };
    assert_eq!(m.settle(MountOutcome::Mounted), Ok(()));
    assert_eq!(m.settle(MountOutcome::Busy), Ok(()));
    assert_eq!(m.settle(MountOutcome::Failed(13)), Err(13));
}

#[test]
fn existing_directory_is_left_alone() {
    assert_eq!(after_create(CreateOutcome::Created), CreateStep::ApplyModeAndOwner);
    assert_eq!(after_create(CreateOutcome::AlreadyExists), CreateStep::Continue);
    assert_eq!(after_create(CreateOutcome::Failed), CreateStep::Abort);
}

#[test]
fn atomic_write_goes_through_a_hidden_tmp_file() {
    assert_eq!(tmp_name("resolv.conf"), ".resolv.conf.tmp");
    assert_eq!(next_write_stage(WriteStage::CreateTmp), WriteStage::WriteContents);
    assert_eq!(next_write_stage(WriteStage::WriteContents), WriteStage::SyncFile);
    assert_eq!(next_write_stage(WriteStage::SyncFile), WriteStage::Rename);
    assert_eq!(next_write_stage(WriteStage::Rename), WriteStage::SyncDir);
    assert_eq!(next_write_stage(WriteStage::SyncDir), WriteStage::Done);
    assert_eq!(residue_on_failure(WriteStage::CreateTmp), WriteResidue::OldTarget);
    assert_eq!(residue_on_failure(WriteStage::Rename), WriteResidue::OldTargetAndTmp);
    assert_eq!(residue_on_failure(WriteStage::SyncDir), WriteResidue::NewTarget);
}
