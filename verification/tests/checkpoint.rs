use raiden::checkpoint::{fingerprint, record, resume_start, Checkpoint, ResumeError};

fn saved(scope: &str) -> Checkpoint {
    Checkpoint {
        operation: "replace".into(),
        config_hash: "abc".into(),
        scope: scope.into(),
        phase: 2,
        step: 0,
        phase_name: "partition".into(),
    }
}

// resume must refuse a changed destructive scope (eg. different replace
// --disks/--parts), since the checkpoint cursor is meaningless against a
// different plan -- the bug that silently skipped the wrong replace steps.
#[test]
fn resume_refuses_a_changed_scope() {
    let orig = "disks=nvme0n1,nvme1n1 esp=true boot=true root=true";
    let cp = saved(orig);
    // same op + config hash but a different target must not resume.
    assert!(resume_start(
        "replace",
        "abc",
        "disks=nvme1n1 esp=false boot=false root=true",
        true,
        Some(&cp)
    )
    .is_err());
    // the exact original scope resumes from the next step.
    assert_eq!(
        resume_start("replace", "abc", orig, true, Some(&cp)).unwrap(),
        (2, 1)
    );
}

#[test]
fn each_mismatch_has_its_error() {
    let cp = saved("s");
    let e = |op: &str, hash: &str, scope: &str, c: Option<&Checkpoint>| {
        resume_start(op, hash, scope, true, c).err().unwrap()
    };
    assert!(matches!(e("replace", "abc", "s", None), ResumeError::NoCheckpoint));
    assert!(matches!(e("install", "abc", "s", Some(&cp)), ResumeError::OtherOperation(o) if o == "replace"));
    assert!(matches!(e("replace", "def", "s", Some(&cp)), ResumeError::ConfigChanged));
    assert!(matches!(e("replace", "abc", "t", Some(&cp)), ResumeError::TargetChanged(s) if s == "s"));
}

#[test]
fn a_fresh_run_starts_at_the_beginning() {
    assert_eq!(
        resume_start("install", "x", "", false, Some(&saved("s"))).unwrap(),
        (0, 0)
    );
}

#[test]
fn a_recorded_step_is_resumed_behind() {
    let cp = record("install", "h", "", 1, 4, "format");
    assert_eq!(
        resume_start("install", "h", "", true, Some(&cp)).unwrap(),
        (1, 5)
    );
    assert_eq!(cp.phase_name, "format");
}

#[test]
fn fingerprints_have_sixteen_digits() {
    assert_eq!(fingerprint(0xdead_beef), "00000000deadbeef");
    assert_eq!(fingerprint(u64::MAX), "ffffffffffffffff");
}

#[test]
fn a_refused_resume_is_explained() {
    assert_eq!(
        ResumeError::NoCheckpoint.message("install", ""),
        "no checkpoint to resume; run without --resume"
    );
    assert_eq!(
        ResumeError::OtherOperation("replace".into()).message("install", ""),
        "checkpoint is for \"replace\", not \"install\""
    );
    assert_eq!(
        ResumeError::ConfigChanged.message("install", ""),
        "config changed since the checkpoint; cannot resume safely"
    );
    assert_eq!(
        ResumeError::TargetChanged("disks=a".into()).message("replace", "disks=b"),
        "the replace target changed since the checkpoint (was [disks=a], now [disks=b]); \
         run without --resume to start fresh, or --resume with the original arguments"
    );
}
