use raiden::cli::SyncTarget;
use raiden::config::Config;
use raiden::layout::Layout;
use raiden::sync::{
    boot_mirror_set, check_boot_files, check_efi_files, check_fsck, drift, drift_argv,
    efi_mirror_set, findmnt_source, initrd_has_cryptsetup, is_same_device, mirror_failed, mount_template,
    mount_transient, open_sync, resolve, run_rsync, source_refused, sync_result, verify_boot,
    verify_boot_files, verify_efi, BootTree, Device, Fsck, Listing, Opening, SyncError,
};

fn words(v: &[&str]) -> Vec<String> {
    v.iter().map(|s| s.to_string()).collect()
}

fn device(path: &str) -> Device {
    Device {
        path: path.into(),
        resolved: None,
    }
}

fn complete() -> BootTree {
    BootTree {
        grub_cfg: Some(
            "menuentry 'debian' {\n search --no-floppy --fs-uuid --set=root abc\n linux /vmlinuz-x\n}\n"
                .into(),
        ),
        entries: words(&["grub", "vmlinuz-6.1", "initrd.img-6.1"]),
        listing: Listing::Files("usr/sbin/cryptsetup\n".into()),
    }
}

#[test]
fn check_boot_files_passes_a_complete_boot() {
    assert!(check_boot_files("/boot", &complete()).is_empty());
}

#[test]
fn check_boot_files_flags_missing_and_empty_grub_cfg() {
    let tree = BootTree {
        grub_cfg: Some("  \n".into()), // empty
        entries: words(&["grub"]),     // no vmlinuz-*, no initrd.img-*
        listing: Listing::Unavailable,
    };
    let fails = check_boot_files("/boot", &tree);
    assert!(fails.iter().any(|f| f.contains("empty")));
    assert!(fails.iter().any(|f| f.contains("menuentry")));
    assert!(fails.iter().any(|f| f.contains("fs-uuid")));
    assert!(fails.iter().any(|f| f.contains("kernel")));
    assert!(fails.iter().any(|f| f.contains("initrd")));
}

#[test]
fn check_efi_files_passes_when_shim_and_grub_present() {
    assert!(check_efi_files("/boot/efi", true, true).is_empty());
}

#[test]
fn check_efi_files_flags_missing_bootloader_files() {
    // only shim, no grubx64
    let fails = check_efi_files("/boot/efi", true, false);
    assert!(fails.iter().any(|f| f.contains("grubx64")));
    assert!(!fails.iter().any(|f| f.contains("shimx64")));
}

#[test]
fn a_missing_grub_cfg_is_named() {
    let mut tree = complete();
    tree.grub_cfg = None;
    assert_eq!(
        check_boot_files("/mnt", &tree),
        ["grub.cfg missing at /mnt/grub/grub.cfg"]
    );
}

#[test]
fn the_initrd_must_contain_cryptsetup() {
    assert!(verify_boot_files("/boot", &complete()).is_ok());
    let mut tree = complete();
    tree.listing = Listing::Files("usr/bin/true\n".into());
    assert_eq!(
        verify_boot_files("/boot", &tree),
        Err(words(&[
            "initrd /boot/initrd.img-6.1 does not contain cryptsetup (encrypted root would not unlock)"
        ]))
    );
    assert_eq!(
        initrd_has_cryptsetup("/i", &Listing::Failed),
        Err("lsinitramfs failed on /i".to_string())
    );
    assert_eq!(
        initrd_has_cryptsetup("/i", &Listing::Unavailable),
        Err("lsinitramfs unavailable; cannot verify /i".to_string())
    );
}

#[test]
fn every_failure_of_the_source_is_listed() {
    let mut tree = complete();
    tree.entries = words(&["initrd.img-6.1"]);
    let found = Fsck::Errors(" dirty \n".into());
    assert_eq!(
        verify_boot("/dev/vda2", "/boot", &found, &tree),
        Err(words(&[
            "e2fsck reported errors on /dev/vda2: dirty",
            "no kernel (vmlinuz-*) found on /boot"
        ]))
    );
    assert!(verify_boot("/dev/vda2", "/boot", &Fsck::Clean, &complete()).is_ok());
    assert_eq!(
        check_fsck("/dev/vda2", &Fsck::NotRun("gone".into())),
        ["could not run e2fsck on /dev/vda2: gone"]
    );
    assert!(verify_efi("/boot/efi", true, true).is_ok());
    assert_eq!(
        verify_efi("/boot/efi", false, true),
        Err(words(&[
            "shimx64.efi missing at /boot/efi/EFI/debian/shimx64.efi (grub-install has not run on this esp?)"
        ]))
    );
}

fn layout(raid: bool) -> Layout {
    let mut c = Config::default();
    c.disks.members = words(&["vda", "vdb", "vdc"]);
    c.boot.raid = raid;
    Layout::derive(&c)
}

#[test]
fn the_source_is_never_a_mirror() {
    let src = Some(device("/dev/vdb2"));
    assert_eq!(
        boot_mirror_set(&layout(false), &src, &vec![]),
        ["/dev/vda2", "/dev/vdc2"]
    );
    // by what the paths lead to, where that can be told.
    let src = Some(Device {
        path: "/dev/disk/by-uuid/x".into(),
        resolved: Some("/dev/vda2".into()),
    });
    let leads = vec![Some("/dev/vda2".into()), Some("/dev/vdb2".into()), None];
    assert_eq!(
        boot_mirror_set(&layout(false), &src, &leads),
        ["/dev/vdb2", "/dev/vdc2"]
    );
    // with nothing mounted, no device is skipped.
    assert_eq!(
        boot_mirror_set(&layout(false), &None, &vec![]),
        ["/dev/vda2", "/dev/vdb2", "/dev/vdc2"]
    );
    assert_eq!(
        efi_mirror_set(&layout(false), &None, &vec![]),
        ["/dev/vda1", "/dev/vdb1", "/dev/vdc1"]
    );
    assert!(is_same_device(&device("/dev/a"), &device("/dev/a")));
    assert!(!is_same_device(&device("/dev/a"), &device("/dev/b")));
}

#[test]
fn each_target_resolves_its_own_set() {
    let src = Some(device("/dev/vda1"));
    let set = resolve(&SyncTarget::Efi { force: false }, &layout(true), &src, &vec![]);
    assert_eq!(set.mount, "/boot/efi");
    assert_eq!(set.mirrors, ["/dev/vdb1", "/dev/vdc1"]);
    assert!(!set.one_file_system);
    // md replicates a raid /boot.
    let set = resolve(&SyncTarget::Boot { force: false }, &layout(true), &src, &vec![]);
    assert!(set.src.is_none() && set.mirrors.is_empty());
}

#[test]
fn a_sync_opens_by_what_is_there() {
    let target = SyncTarget::Boot { force: false };
    let l = layout(false);
    let set = resolve(&target, &l, &None, &vec![]);
    assert!(matches!(open_sync(&set, false), Opening::Nothing(s) if s == "/boot is not mounted; nothing to sync"));
    let set = resolve(&target, &l, &Some(device("/dev/vda2")), &vec![]);
    assert!(matches!(open_sync(&set, false), Opening::Proceed(v)
        if v == ["source:  /dev/vda2", "mirrors: /dev/vdb2, /dev/vdc2"]));
    assert!(matches!(open_sync(&set, true), Opening::Preview(v)
        if v[2] == "  rsync --one-file-system --times --recursive --delete /boot/ <mount of /dev/vdb2>/"));
    let one = l.subset(&words(&["vda"]));
    let set = resolve(&target, &one, &Some(device("/dev/vda2")), &vec![]);
    assert!(matches!(open_sync(&set, false), Opening::Nothing(s) if s.starts_with("no /boot mirrors")));
}

#[test]
fn a_broken_source_is_refused_unless_forced() {
    let set = resolve(
        &SyncTarget::Boot { force: false },
        &layout(false),
        &Some(device("/dev/vda2")),
        &vec![],
    );
    let broken = Err(words(&["grub.cfg is empty"]));
    assert_eq!(
        source_refused(&set, false, &broken),
        Some(words(&[
            "/boot pre-sync verification failed:",
            "  - grub.cfg is empty"
        ]))
    );
    assert!(source_refused(&set, true, &broken).is_none());
    assert!(source_refused(&set, false, &Ok(())).is_none());
    assert_eq!(
        SyncError::Broken("/boot".into()).message(),
        "refusing to mirror a broken /boot"
    );
    assert_eq!(SyncError::Aborted.message(), "aborted");
}

#[test]
fn a_sync_fails_exactly_where_a_mirror_did() {
    let set = resolve(
        &SyncTarget::Boot { force: false },
        &layout(false),
        &Some(device("/dev/vda2")),
        &vec![],
    );
    assert!(sync_result(&set, &vec![true, true]).is_ok());
    let e = sync_result(&set, &vec![false, true, false]).err().unwrap();
    assert_eq!(e.message(), "2 /boot mirror(s) failed");
    assert_eq!(
        mirror_failed(&set, "/dev/vdb2", "busy"),
        "/boot: mirror /dev/vdb2 failed: busy"
    );
}

#[test]
fn the_commands_of_a_sync() {
    assert_eq!(
        run_rsync("/boot", "/run/raiden/boot.x", true, false),
        [
            "rsync",
            "--times",
            "--recursive",
            "--delete",
            "--one-file-system",
            "/boot/",
            "/run/raiden/boot.x/"
        ]
    );
    assert_eq!(run_rsync("/a", "/b", false, true)[4], "--itemize-changes");
    assert_eq!(
        drift_argv("/a", "/b", false),
        [
            "rsync",
            "--dry-run",
            "--itemize-changes",
            "--out-format=%n",
            "--recursive",
            "--delete",
            "/a/",
            "/b/"
        ]
    );
    assert_eq!(mount_transient("/dev/x", "/t", true), ["mount", "-o", "ro", "/dev/x", "/t"]);
    assert_eq!(mount_transient("/dev/x", "/t", false), ["mount", "/dev/x", "/t"]);
    assert_eq!(mount_template("boot"), "/run/raiden/boot.XXXXXX");
}

#[test]
fn drift_is_what_rsync_would_change() {
    assert_eq!(drift(true, "a\n\nb\n"), Some(words(&["a", "b"])));
    assert_eq!(drift(true, ""), Some(vec![]));
    assert_eq!(drift(false, ""), Some(vec![]));
    assert_eq!(drift(false, "a\n"), None);
}

#[test]
fn findmnt_names_the_source() {
    assert_eq!(findmnt_source(true, "/dev/vda2\n"), Some("/dev/vda2".to_string()));
    assert_eq!(findmnt_source(true, "\n"), None);
    assert_eq!(findmnt_source(false, "/dev/vda2"), None);
}

#[test]
fn a_raid_boot_has_nothing_to_sync() {
    for force in [false, true] {
        let set = resolve(
            &SyncTarget::Boot { force },
            &layout(true),
            &Some(device("/dev/md0")),
            &vec![],
        );
        assert!(matches!(open_sync(&set, false), Opening::Nothing(_)));
        assert!(matches!(open_sync(&set, true), Opening::Nothing(_)));
    }
}
