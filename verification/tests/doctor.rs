use raiden::config::{Config, Family};
use raiden::doctor::check::{
    first_line, summary, table_lines, Check, Fix, Status, UuidKind, FIXED, OK, WARN,
};
use raiden::doctor::layers::{
    check_array_status, check_boot_drift, check_crypttab, check_efi_hook, check_esp_bootloader,
    check_executable_hook, check_grub, check_initrd, check_luks_backup, check_luks_headers,
    crypttab_source, efi_hook_path, first_state, hook_path, judge_crypttab, member_of,
    missing_initrd_binaries, ArrayView, Drift, Dump, HookState, Verified,
};
use raiden::doctor::nvram::{
    check_debconf, check_efibootmgr, debconf_commands, debconf_mismatches, efibootmgr_commands,
    efibootmgr_plan, entry_parts, judge_entries, parse_boot_entries, BootEntry, EspId,
};
use raiden::doctor::probes::{
    check_boot_mount, check_disk_presence, check_fstab, check_mount_consistency, fstab_uuid,
    uuid_divergences, uuid_set_result, Report,
};
use raiden::doctor::repair::{
    fix_commands, preview_fixes, question, repair, restamp_argv, restamp_targets, settle,
    FixOutcome, Live, MirrorView, Repair,
};
use raiden::doctor::{diagnose, Observed};
use raiden::efi;
use raiden::layout::Layout;
use raiden::stack;
use raiden::step::Action;
use raiden::sync::{Device, Listing};

#[test]
fn ok_passes_warn_and_fail_do_not() {
    assert!(Check::ok("x", "d").passed());
    assert!(!Check::warn("x", "d").passed());
    assert!(!Check::fail("x", "d").passed());
    // a fixed check passes too.
    let mut c = Check::warn("x", "d");
    c.status = FIXED;
    assert!(c.passed());
}

#[test]
fn with_fix_attaches_a_fix() {
    let c = Check::warn("x", "missing").with_fix(Fix::EfiHook);
    assert_eq!(c.status, WARN);
    assert!(matches!(c.fix, Some(Fix::EfiHook)));
}

#[test]
fn hook_path_and_efi_hook_path_use_the_constants() {
    assert_eq!(
        hook_path("postinst.d"),
        format!("/etc/kernel/postinst.d/{}", stack::BOOT_MIRROR_HOOK_NAME)
    );
    assert_eq!(
        efi_hook_path(),
        format!("/etc/grub.d/{}", stack::EFI_MIRROR_HOOK_NAME)
    );
}

// a hook is only ok when it is present, executable, AND its content is the current text.
#[test]
fn executable_hook_warns_unless_present_executable_and_current() {
    let expected = "#!/bin/sh\ncanonical\n";
    let judge = |state: HookState| {
        check_executable_hook("esp hook", "/etc/hook", expected, Fix::EfiHook, &state)
    };

    // missing -> warn + fix.
    let c = judge(HookState::Missing);
    assert_eq!(c.status, WARN);
    assert!(c.fix.is_some());

    // present but not executable -> warn + fix (run-parts would skip it).
    let c = judge(HookState::Installed(0o644, Some(expected.into())));
    assert_eq!(c.status, WARN);
    assert!(c.fix.is_some());

    // present + executable but STALE content -> warn + fix (the regression).
    let stale = "#!/bin/sh\nexec raiden sync efi --yes \"$@\"\n";
    let c = judge(HookState::Installed(0o755, Some(stale.into())));
    assert_eq!(c.status, WARN);
    assert!(c.fix.is_some());

    // present, executable, content matches the canonical text -> ok, no fix.
    let c = judge(HookState::Installed(0o755, Some(expected.into())));
    assert_eq!(c.status, OK);
    assert!(c.fix.is_none());

    // what cannot be read cannot be judged current.
    let c = judge(HookState::Installed(0o755, None));
    assert_eq!(c.status, WARN);
    assert_eq!(c.detail, "/etc/hook unreadable");
}

#[test]
fn first_state_extracts_the_md_state_line() {
    assert_eq!(
        first_state("foo\n       State : active\nbar"),
        "State : active"
    );
    assert_eq!(first_state("no state here"), "state unknown");
}

#[test]
fn uuid_divergences_flags_only_the_odd_ones_out() {
    let shared = "1111-1111";
    let all_match: Vec<(String, String)> = vec![
        ("/dev/vda1".into(), shared.into()),
        ("/dev/vdb1".into(), shared.into()),
    ];
    assert!(uuid_divergences(&all_match, shared).is_empty());

    let one_off: Vec<(String, String)> = vec![
        ("/dev/vda1".into(), shared.into()),
        ("/dev/vdb1".into(), "2222-2222".into()),
    ];
    let d = uuid_divergences(&one_off, shared);
    assert_eq!(d, vec!["/dev/vdb1=2222-2222".to_string()]);
}

#[test]
fn uuid_set_result_warns_with_a_fix_only_when_a_member_diverges() {
    let shared = "1111-1111";
    let pair = |a: &str, b: &str| {
        vec![
            ("/dev/vda1".to_string(), a.to_string()),
            ("/dev/vdb1".to_string(), b.to_string()),
        ]
    };

    // fewer than two present: nothing to compare, ok, no fix.
    let c = uuid_set_result("esp uuid", UuidKind::Esp, &[], Some(shared));
    assert!(c.passed() && c.fix.is_none());

    // all share the expected uuid: ok, no fix.
    let c = uuid_set_result(
        "esp uuid",
        UuidKind::Esp,
        &pair(shared, shared),
        Some(shared),
    );
    assert!(c.passed() && c.fix.is_none());

    // one diverges: warn, with the re-stamp fix attached.
    let c = uuid_set_result(
        "esp uuid",
        UuidKind::Esp,
        &pair(shared, "2222-2222"),
        Some(shared),
    );
    assert_eq!(c.status, WARN);
    assert!(matches!(c.fix, Some(Fix::RestampUuid(UuidKind::Esp))));
}

fn layout_with(members: &[&str]) -> Layout {
    let mut c = Config::default();
    c.disks.members = members.iter().map(|s| s.to_string()).collect();
    Layout::derive(&c)
}

fn device(path: &str) -> Device {
    Device {
        path: path.into(),
        resolved: None,
    }
}

fn view(src: Option<&str>, uuids: &[Option<&str>]) -> MirrorView {
    MirrorView {
        src: src.map(device),
        src_uuid: src.map(|_| "aaaa-bbbb".to_string()),
        leads: vec![],
        present: uuids.iter().map(|_| true).collect(),
        uuids: uuids.iter().map(|u| u.map(String::from)).collect(),
    }
}

fn live() -> Live {
    Live {
        boot: view(None, &[]),
        esp: view(None, &[]),
        nvram: None,
        ids: vec![],
    }
}

#[test]
fn fix_commands_preview_the_exact_operations() {
    let layout = layout_with(&["vda", "vdb"]);
    let live = live();
    // hooks preview a single file write; sync previews the sync command.
    assert_eq!(
        fix_commands(&Fix::BootHook("postinst.d"), &layout, &live),
        vec![format!(
            "write /etc/kernel/postinst.d/{} (mode 0755)",
            stack::BOOT_MIRROR_HOOK_NAME
        )]
    );
    assert_eq!(
        fix_commands(&Fix::SyncEfi, &layout, &live),
        vec!["raiden sync efi --yes".to_string()]
    );
    // the recover-bundle fix INSTALLS the raiden initramfs hook (no stock hook
    // bakes raiden) and then rebuilds -- a plain rebuild alone cannot add it. the
    // rebuild is the same -k all update install runs (shared update_initramfs_u).
    let recover = fix_commands(&Fix::RecoverBundle, &layout, &live);
    assert!(recover[0].contains(stack::RAIDEN_RECOVERY_HOOK));
    assert!(recover.iter().any(|c| c == "update-initramfs -u -k all"));
}

#[test]
fn parse_boot_entries_skips_headers_and_lowercases() {
    let out = "BootCurrent: 0003\nTimeout: 1 seconds\nBootOrder: 0003,0001\n\
        Boot0000* debian-nvme3n1\tHD(1,GPT,3C491BB4-6487-49FF-BA29-D7120BE8D80C,0x800)/\\EFI\\DEBIAN\\SHIMX64.EFI\n\
        Boot0009* UEFI OS\tHD(1,GPT,70f606da-f086-41a3-8d52-a767a5f3304a,0x800)/\\EFI\\BOOT\\BOOTX64.EFI\n";
    let entries = parse_boot_entries(out);
    // the three header lines are skipped; the two BootNNNN lines parse.
    assert_eq!(entries.len(), 2);
    assert_eq!(entries[0].num, "0000");
    // lowercased, so a member partuuid + the debian shim path both match.
    assert!(entries[0]
        .desc
        .contains("3c491bb4-6487-49ff-ba29-d7120be8d80c"));
    assert!(entries[0].desc.contains(r"\efi\debian\shimx64.efi"));
    // the removable fallback is a debian-free path, so the fix leaves it alone.
    assert!(!entries[1].desc.contains(r"\efi\debian\"));
}

#[test]
fn debconf_mismatches_flags_only_wrong_values() {
    // debconf-show format: "* key: value" (asked) or "  key: value".
    let good = "* grub2/force_efi_extra_removable: true\n  grub2/update_nvram: false\n";
    assert!(debconf_mismatches(good).is_empty());

    let bad = "* grub2/force_efi_extra_removable: true\n  grub2/update_nvram: true\n";
    let m = debconf_mismatches(bad);
    assert_eq!(m.len(), 1);
    assert!(m[0].contains("update_nvram=true (want false)"));

    // an unset key is a mismatch too (so a fresh/reconfigured db is repaired).
    let m = debconf_mismatches("");
    assert_eq!(m.len(), efi::GRUB_DEBCONF.len());
    assert!(m.iter().any(|s| s.contains("unset")));
}

fn words(v: &[&str]) -> Vec<String> {
    v.iter().map(|s| s.to_string()).collect()
}

#[test]
fn missing_initrd_binaries_matches_by_basename() {
    let listing = "usr/sbin/cryptsetup\nusr/bin/keyctl\n\
        usr/lib/cryptsetup/scripts/decrypt_keyctl\nusr/bin/btrfs\n";
    // present (incl. keyctl vs decrypt_keyctl distinguished by basename).
    assert!(missing_initrd_binaries(
        listing,
        &words(&["cryptsetup", "keyctl", "decrypt_keyctl", "btrfs"])
    )
    .is_empty());
    // a substring of a present path is NOT a false positive, and a real gap is flagged.
    let m = missing_initrd_binaries(listing, &words(&["keyctl", "mdadm"]));
    assert_eq!(m, vec!["mdadm".to_string()]);
}

// ------------------------------------------------------------------ more checks

#[test]
fn missing_disks_fail_their_own_check() {
    let c = check_disk_presence(&layout_with(&["vda", "vdb"]), &vec![true, false]);
    assert_eq!(c[0].status, Status::Pass);
    assert_eq!(c[1].detail, "/dev/vdb missing");
    assert_eq!(c[1].status, Status::Fail);
}

#[test]
fn boot_may_be_mounted_from_a_stranger() {
    let l = layout_with(&["vda", "vdb"]);
    let c = check_boot_mount(&l, &Some(device("/dev/vdb2")), &vec![]);
    assert_eq!(c[0].detail, "/boot mounted from /dev/vdb2");
    let c = check_boot_mount(&l, &Some(device("/dev/sdz9")), &vec![]);
    assert_eq!(c[0].status, Status::Warn);
    let c = check_boot_mount(&l, &None, &vec![]);
    assert_eq!(c[0].status, Status::Fail);
}

#[test]
fn symbolic_links_are_followed() {
    let l = layout_with(&["vda"]);
    let src = Device {
        path: "/dev/disk/by-uuid/abc".into(),
        resolved: Some("/dev/vda2".into()),
    };
    let c = check_boot_mount(&l, &Some(src), &vec![Some("/dev/vda2".into())]);
    assert_eq!(c[0].status, Status::Pass);
}

#[test]
fn boot_and_esp_may_sit_on_different_disks() {
    let l = layout_with(&["vda", "vdb"]);
    let c = check_mount_consistency(
        &l,
        &Some(device("/dev/vda2")),
        &Some(device("/dev/vda1")),
        &vec![],
        &vec![],
    );
    assert_eq!(c[0].detail, "/boot and /boot/efi on the same disk (/dev/vda2)");
    let c = check_mount_consistency(
        &l,
        &Some(device("/dev/vda2")),
        &Some(device("/dev/vdb1")),
        &vec![],
        &vec![],
    );
    assert_eq!(c[0].detail, "/boot on /dev/vda2, /boot/efi on /dev/vdb1");
    assert!(check_mount_consistency(&l, &None, &None, &vec![], &vec![]).is_empty());
}

#[test]
fn fstab_entries_are_found_by_mount_point() {
    let text = "# comment\n/dev/vg0/root / ext4 defaults 0 1\nUUID=1234 /boot ext4 nofail 0 2\n";
    let fstab = Some(text.to_string());
    assert_eq!(fstab_uuid(&fstab, "/boot"), Some("1234".to_string()));
    assert_eq!(fstab_uuid(&fstab, "/"), None);
    assert_eq!(fstab_uuid(&None, "/boot"), None);
    let c = check_fstab(&fstab, true);
    assert_eq!(c[0].detail, "/boot entry present");
    assert_eq!(c[1].detail, "no /boot/efi entry in /etc/fstab");
    assert!(matches!(c[1].fix, Some(Fix::Fstab)));
}

#[test]
fn crypttab_must_name_the_luks_uuid() {
    let tab = "# name source\nvda3_crypt UUID=abc none luks\nvdb3_crypt UUID=old none luks\n";
    let l = layout_with(&["vda", "vdb", "vdc"]);
    let uuids = vec![Some("abc".to_string()), Some("new".to_string()), None];
    let c = check_crypttab(&l, tab, &uuids);
    assert_eq!(c[0].detail, "vda3_crypt: uuid matches");
    assert_eq!(c[1].detail, "vdb3_crypt: crypttab old != disk Some(\"new\")");
    assert!(matches!(c[1].fix, Some(Fix::Crypttab)));
    assert_eq!(c[2].detail, "no entry for vdc3_crypt");
    assert_eq!(crypttab_source(tab, "vda3_crypt"), Some("abc".to_string()));
    let c = judge_crypttab("n", &Some("a".to_string()), &None, "None");
    assert_eq!(c.detail, "n: crypttab a != disk None");
}

#[test]
fn luks_headers_and_their_backups() {
    let l = layout_with(&["vda", "vdb", "vdc"]);
    let dumps = vec![
        Dump::Valid,
        Dump::Failed(" no header \n".into()),
        Dump::NotRun("not found".into()),
    ];
    let c = check_luks_headers(&l, &dumps);
    assert_eq!(c[0].detail, "/dev/vda3: header valid");
    assert_eq!(c[1].detail, "/dev/vdb3: luksDump failed: no header");
    assert_eq!(c[2].detail, "/dev/vdc3: not found");
    let c = check_luks_backup(&l, &vec![true, false, true]);
    assert_eq!(c[0].detail, "missing: vdb3-headers.bin");
    let c = check_luks_backup(&l, &vec![true, true, true]);
    assert_eq!(c[0].detail, "3 header backup(s) on /boot");
}

fn printed(s: &str) -> Report {
    Report::Printed(s.into())
}

#[test]
fn array_health_by_family() {
    let l = layout_with(&["vda", "vdb"]);
    let look = |family: Family, root: Report| {
        check_array_status(
            &l,
            family,
            &ArrayView {
                boot: Report::Failed,
                root,
            },
        )
    };
    let c = look(Family::Md, printed("   State : clean\n"));
    assert_eq!(c[0].detail, "not used (independent boot)");
    assert_eq!(c[1].detail, "/dev/md/root: active");
    assert_eq!(
        look(Family::Md, printed("State : x, degraded"))[1].detail,
        "/dev/md/root: degraded"
    );
    assert_eq!(
        look(Family::Md, printed(" State : inactive "))[1].detail,
        "/dev/md/root: State : inactive"
    );
    assert_eq!(look(Family::Md, Report::Failed)[1].status, Status::Fail);
    assert_eq!(look(Family::Zfs, printed("DEGRADED"))[0].status, Status::Warn);
    assert_eq!(look(Family::Zfs, printed("FAULTED"))[0].status, Status::Fail);
    assert_eq!(look(Family::Zfs, printed("ONLINE"))[0].detail, "pool online");
    assert_eq!(
        look(Family::Btrfs, printed("a [*] 1\nb\nc [*] 2"))[0].detail,
        "2 device error(s)"
    );
    assert_eq!(look(Family::Bcachefs, Report::Failed)[0].name, "fs status");
}

#[test]
fn grub_is_looked_for_on_the_live_esp() {
    let l = layout_with(&["vda", "vdb"]);
    let c = check_grub(&l, true, &Some(device("/dev/vdb1")), &vec![], true, &Report::Failed);
    assert_eq!(c[0].detail, "/dev/vda1: mirror (cold)");
    assert_eq!(c[1].detail, "/dev/vdb1: shimx64.efi present (live esp)");
    // with none mounted the primary is looked at.
    let c = check_grub(&l, true, &None, &vec![], false, &Report::Failed);
    assert_eq!(
        c[0].detail,
        "/boot/efi/EFI/debian/shimx64.efi missing (grub-install?)"
    );
    assert!(matches!(c[0].fix, Some(Fix::GrubInstall)));
    let c = check_grub(&l, false, &None, &vec![], false, &printed("install ok installed"));
    assert_eq!(c[0].detail, "grub-pc installed");
    assert_eq!(member_of("/dev/vdb3", &l), "vdb");
    assert_eq!(member_of("/dev/sdz3", &l), "");
}

#[test]
fn the_initrd_must_carry_its_binaries() {
    let entries = words(&["vmlinuz-6.1", "initrd.img-6.1"]);
    let files = "usr/sbin/cryptsetup\nsbin/raiden\netc/raiden/manifest.toml\n";
    let look = |listing: &Listing, bundle: bool| {
        check_initrd(
            &words(&["cryptsetup", "mdadm"]),
            &entries,
            listing,
            bundle,
            &HookState::Missing,
        )
    };
    let c = look(&Listing::Files(files.into()), true);
    assert_eq!(c[0].detail, "/boot/initrd.img-6.1: missing mdadm");
    assert_eq!(c[1].name, "recover hook");
    assert_eq!(c[2].detail, "raiden + manifest baked into the initrd");
    assert_eq!(look(&Listing::Failed, true)[0].status, Status::Warn);
    let c = check_initrd(
        &vec![],
        &vec![],
        &Listing::Unavailable,
        false,
        &HookState::Missing,
    );
    assert_eq!(c[0].detail, "no initrd.img-* on /boot");
}

#[test]
fn drift_is_a_warning_with_a_resync() {
    let m = words(&["/dev/vdb2", "/dev/vdc2"]);
    let c = check_boot_drift(true, &m, &vec![Drift::Changed(0), Drift::Absent]);
    assert_eq!(c[0].detail, "2 mirror(s) in sync");
    let c = check_boot_drift(
        true,
        &m,
        &vec![Drift::Changed(3), Drift::Failed("busy".into())],
    );
    assert_eq!(
        c[0].detail,
        "/dev/vdb2: 3 changed; /dev/vdc2: could not compare (busy)"
    );
    assert_eq!(c[0].status, Status::Warn);
    assert!(matches!(c[0].fix, Some(Fix::SyncBoot)));
    assert_eq!(
        check_boot_drift(false, &m, &vec![])[0].detail,
        "/boot not mounted, skipped"
    );
}

#[test]
fn every_member_carries_its_own_bootloader() {
    let l = layout_with(&["vda", "vdb"]);
    let c = check_esp_bootloader(&l, &vec![Verified::Done(Ok(())), Verified::Absent]);
    assert_eq!(c[0].detail, "1 member(s) carry the bootloader");
    let c = check_esp_bootloader(
        &l,
        &vec![
            Verified::Unmountable("busy".into()),
            Verified::Done(Err(words(&["no shim", "no grub"]))),
        ],
    );
    assert_eq!(
        c[0].detail,
        "/dev/vda1: cannot mount (busy); /dev/vdb1: no shim, no grub"
    );
    let c = check_esp_bootloader(&l, &vec![Verified::Absent, Verified::Absent]);
    assert_eq!(c[0].detail, "no member partitions present to check");
}

// ---------------------------------------------------------------------- nvram

const NVRAM: &str = "Boot0000* debian-vda\tHD(1,GPT,AAAA,0x800)/\\EFI\\DEBIAN\\SHIMX64.EFI\n\
    Boot0001* debian\tHD(1,GPT,aaaa,0x800)/\\EFI\\DEBIAN\\GRUBX64.EFI\n\
    Boot0002* Windows\tHD(1,GPT,ffff,0x800)/\\EFI\\MICROSOFT\\BOOT.EFI\n\
    Boot0003* UEFI OS\tHD(1,GPT,aaaa,0x800)/\\EFI\\BOOT\\BOOTX64.EFI\n";

fn ids() -> Vec<EspId> {
    vec![
        EspId::Partuuid("AAAA".into()),
        EspId::Unknown,
        EspId::Absent,
        EspId::Partuuid("bbbb".into()),
    ]
}

#[test]
fn each_member_has_one_shim_entry() {
    let l = layout_with(&["vda", "vdb", "vdc", "vdd"]);
    let c = check_efibootmgr(&l, &Some(NVRAM.into()), &ids());
    assert_eq!(
        c[0].detail,
        "vda: 2 duplicate/grub entries; vdb: no partuuid for /dev/vdb1; vdd: no shim boot entry"
    );
    assert!(matches!(c[0].fix, Some(Fix::EfiBootEntries)));
    let one = "Boot0000* d HD(AAAA)/\\EFI\\debian\\shimx64.efi\n";
    let c = check_efibootmgr(
        &layout_with(&["vda"]),
        &Some(one.into()),
        &vec![EspId::Partuuid("aaaa".into())],
    );
    assert_eq!(c[0].detail, "1 member(s) have a clean shim boot entry");
    assert_eq!(check_efibootmgr(&l, &None, &ids())[0].status, Status::Warn);
}

#[test]
fn only_stale_entries_are_pruned() {
    let l = layout_with(&["vda", "vdb", "vdc", "vdd"]);
    let plan = efibootmgr_plan(&l, &Some(NVRAM.into()), &ids()).unwrap();
    assert_eq!(plan.delete, ["0000", "0001"]);
    assert_eq!(plan.register, ["vda", "vdd"]);
    let commands = efibootmgr_commands(&plan);
    assert_eq!(commands[0], ["efibootmgr", "-b", "0000", "-B"]);
    // registered in reverse, so the first member comes first in the boot order.
    assert_eq!(commands[2], efi::register_argv("vdd"));
    assert_eq!(commands[3], efi::register_argv("vda"));
    assert!(efibootmgr_plan(&l, &None, &ids()).is_none());
}

#[test]
fn an_entry_is_a_number_and_a_description() {
    assert_eq!(
        entry_parts("Boot00aF* UEFI OS  "),
        Some(("00aF".to_string(), "UEFI OS".to_string()))
    );
    assert_eq!(entry_parts("BootOrder: 0001"), None);
    assert_eq!(entry_parts("Boot12"), None);
    let shim = |desc: &str| BootEntry {
        num: "0000".into(),
        desc: desc.into(),
    };
    let v = vec![shim(r"g1 \efi\debian\shimx64.efi")];
    assert_eq!(judge_entries("vda", &v, "g1"), None);
    assert_eq!(
        judge_entries("vda", &v, "g2"),
        Some("vda: no shim boot entry".to_string())
    );
}

#[test]
fn debconf_is_set_as_owned() {
    assert_eq!(check_debconf(&Report::Failed)[0].status, Status::Warn);
    assert_eq!(
        debconf_commands()[1],
        "echo 'grub-efi-amd64 grub2/update_nvram boolean false' | debconf-set-selections"
    );
}

// --------------------------------------------------------------------- repair

#[test]
fn a_stamp_touches_only_what_differs() {
    let l = layout_with(&["vda", "vdb", "vdc", "vdd"]);
    let mut v = view(
        Some("/dev/vda2"),
        &[
            Some("aaaa-bbbb"),
            Some("aaaa-bbbb"),
            Some("other"),
            None,
        ],
    );
    v.present[3] = false;
    let p = restamp_targets(UuidKind::Boot, &l, &v).ok().unwrap();
    assert_eq!(p.targets, ["/dev/vdc2"]);
    assert_eq!(
        restamp_argv(UuidKind::Boot, "/dev/vdc2", "aaaa-bbbb"),
        ["tune2fs", "-U", "aaaa-bbbb", "/dev/vdc2"]
    );
    assert_eq!(
        restamp_argv(UuidKind::Esp, "/dev/vdc1", "aaaa-bbbb"),
        efi::mkfs_esp_argv("/dev/vdc1", Some("aaaabbbb"))
    );
    let e = restamp_targets(UuidKind::Esp, &l, &view(None, &[])).err().unwrap();
    assert_eq!(
        e,
        "/boot/efi is not mounted; mount it first, then re-run --fix"
    );
    v.src_uuid = None;
    assert_eq!(
        restamp_targets(UuidKind::Boot, &l, &v).err().unwrap(),
        "cannot read the live /boot uuid from /dev/vda2"
    );
}

#[test]
fn a_repair_settles_its_check() {
    let c = || Check::warn("grub", "missing\nmore").with_fix(Fix::GrubInstall);
    let done = settle(c(), FixOutcome::Done("re-ran".into()));
    assert!(done.passed() && done.fix.is_none() && done.detail == "re-ran");
    let skipped = settle(c(), FixOutcome::Declined);
    assert_eq!(skipped.detail, "missing\nmore (fix skipped)");
    assert_eq!(skipped.status, WARN);
    let failed = settle(c(), FixOutcome::Failed("boom".into()));
    assert_eq!(failed.detail, "missing\nmore (fix failed: boom)");
    assert!(failed.fix.is_some());
    assert_eq!(
        question(&c(), &Fix::GrubInstall),
        "grub (missing): re-run grub-install on the primary esp?"
    );
}

#[test]
fn repairs_build_the_steps_of_install() {
    let l = layout_with(&["vda"]);
    let s = stack::select(raiden::config::STACK_MD_LVM_EXT4).ok().unwrap();
    let of = |f: Fix| repair(&f, &l, &s, &live());
    assert!(matches!(of(Fix::GrubInstall), Ok(Repair::Steps(v, _)) if v.len() == 2));
    assert!(matches!(of(Fix::EfiHook), Ok(Repair::Steps(v, _)) if v.len() == 2));
    assert!(matches!(of(Fix::SyncBoot), Ok(Repair::Sync(UuidKind::Boot, _))));
    assert!(matches!(of(Fix::Crypttab), Ok(Repair::Steps(v, _)) if v.len() == 1));
    assert!(matches!(of(Fix::LuksBackup), Ok(Repair::Steps(v, _)) if v.len() == 3));
    assert!(matches!(of(Fix::Debconf), Ok(Repair::Debconf(i, _)) if i == efi::grub_debconf_selections()));
    assert!(matches!(of(Fix::EfiBootEntries), Err(e) if e == "could not read efibootmgr -v"));
    assert!(matches!(of(Fix::RecoverBundle), Ok(Repair::Bundle(_, _, _))));
    let i = stack::select(raiden::config::STACK_MD_INTEGRITY).ok().unwrap();
    assert!(matches!(repair(&Fix::Crypttab, &l, &i, &live()), Ok(Repair::Steps(v, _)) if v.is_empty()));
}

#[test]
fn the_preview_lists_the_repairs_in_order() {
    let l = layout_with(&["vda", "vdb"]);
    let v = vec![
        Check::ok("manifest", "loads"),
        Check::warn("boot drift", "x: 1 changed\ny").with_fix(Fix::SyncBoot),
    ];
    let p = preview_fixes(&v, &l, &live(), false).unwrap();
    assert_eq!(
        p.body,
        [
            "[1] boot drift: re-sync the /boot mirrors",
            "    # x: 1 changed",
            "    raiden sync boot --yes",
            ""
        ]
    );
    assert!(p.intro.contains("without --yes each step prompts first"));
    assert_eq!(p.outro, "re-run without --dry-run to apply.");
    assert!(preview_fixes(&vec![Check::ok("a", "b")], &l, &live(), true).is_none());
}

// ------------------------------------------------------------------ the whole

#[test]
fn the_table_shows_each_check_once() {
    let v = vec![Check::ok("fstab", "fine"), Check::fail("boot mount", "no\nmore")];
    assert_eq!(
        table_lines(&v, false),
        [
            "            status  detail",
            "fstab       ok      fine",
            "boot mount  fail    no"
        ]
    );
    assert_eq!(table_lines(&v, true)[2], "boot mount  fail    no\nmore");
    assert_eq!(summary(&v), ("\ndoctor: one or more checks failed", false));
    let v = vec![Check::warn("a", "b")];
    assert_eq!(summary(&v), ("\ndoctor: all checks passed with warnings", true));
    assert_eq!(summary(&vec![]), ("\ndoctor: all checks passed", true));
    assert_eq!(first_line("a\nb"), "a");
    assert_eq!(first_line(""), "");
}

fn healthy() -> Observed {
    let hook = |text: &str| HookState::Installed(0o755, Some(text.into()));
    let tab = "vda3_crypt UUID=r1 none luks\nvdb3_crypt UUID=r2 none luks\n";
    Observed {
        live: Live {
            boot: view(Some("/dev/vda2"), &[Some("b"), Some("b")]),
            esp: view(Some("/dev/vda1"), &[Some("e"), Some("e")]),
            nvram: Some(
                "Boot0000* a HD(g1)/\\EFI\\debian\\shimx64.efi\nBoot0001* b HD(g2)/\\EFI\\debian\\shimx64.efi\n"
                    .into(),
            ),
            ids: vec![EspId::Partuuid("g1".into()), EspId::Partuuid("g2".into())],
        },
        disks: vec![true, true],
        fstab: Some("UUID=b /boot ext4\nUUID=e /boot/efi vfat\n".into()),
        crypttab: tab.into(),
        root_uuids: vec![Some("r1".into()), Some("r2".into())],
        dumps: vec![Dump::Valid, Dump::Valid],
        backups: vec![true, true],
        array: ArrayView {
            boot: Report::Failed,
            root: printed("State : active"),
        },
        boot_drift: vec![Drift::Changed(0)],
        esp_drift: vec![Drift::Changed(0)],
        boot_loaders: vec![Verified::Done(Ok(())), Verified::Done(Ok(()))],
        esp_loaders: vec![Verified::Done(Ok(())), Verified::Done(Ok(()))],
        shim: true,
        grub_pc: Report::Failed,
        boot_entries: words(&["initrd.img-6.1"]),
        listing: Listing::Files(
            "cryptsetup\nkeyctl\ndecrypt_keyctl\nmdadm\nlvm\nsbin/raiden\nmanifest.toml\n".into(),
        ),
        recover_hook: hook(stack::INITRAMFS_HOOK_RAIDEN),
        postinst_hook: hook(stack::BOOT_MIRROR_HOOK_CONTENT),
        postrm_hook: hook(stack::BOOT_MIRROR_HOOK_CONTENT),
        efi_hook: hook(stack::EFI_MIRROR_WRAPPER),
        debconf: printed("* grub2/force_efi_extra_removable: true\n  grub2/update_nvram: false\n"),
        manifest_error: None,
    }
}

#[test]
fn a_healthy_system_passes_every_check() {
    let mut cfg = Config::default();
    cfg.disks.members = words(&["vda", "vdb"]);
    let l = Layout::derive(&cfg);
    let s = stack::select(&cfg.raid.stack).ok().unwrap();
    let v = diagnose(&cfg, &l, &s, &healthy());
    for c in &v {
        assert!(c.passed(), "{}: {}", c.name, c.detail);
        assert!(c.fix.is_none());
    }
    assert_eq!(v[0].name, "disk presence");
    assert_eq!(v[v.len() - 1].name, "manifest");
}

#[test]
fn a_dead_disk_fails_its_own_check_and_the_rest_are_made() {
    let mut cfg = Config::default();
    cfg.disks.members = words(&["vda", "vdb"]);
    let l = Layout::derive(&cfg);
    let s = stack::select(&cfg.raid.stack).ok().unwrap();
    let all = diagnose(&cfg, &l, &s, &healthy()).len();
    let mut o = healthy();
    o.disks[1] = false;
    o.manifest_error = Some("no such file".into());
    let v = diagnose(&cfg, &l, &s, &o);
    assert_eq!(v.len(), all);
    assert_eq!(v[1].detail, "/dev/vdb missing");
    assert_eq!(v[v.len() - 1].detail, "cannot load: no such file");
    assert!(!summary(&v).1);
}

#[test]
fn an_installed_hook_passes_its_check() {
    let l = layout_with(&["vda"]);
    let s = stack::select(raiden::config::STACK_MD_LVM_EXT4).ok().unwrap();
    let Ok(Repair::Steps(v, _)) = repair(&Fix::EfiHook, &l, &s, &live()) else {
        panic!("no steps");
    };
    let Action::Write { path, content, mode } = &v[1].action else {
        panic!("not a write");
    };
    assert_eq!(path, &efi_hook_path());
    assert_eq!(*mode, Some(0o755));
    assert_eq!(stack::EFI_MIRROR_HOOK_PATH, format!("/mnt{path}"));
    let state = HookState::Installed(0o100755, Some(content.clone()));
    assert!(check_efi_hook(&state)[0].passed());
}

#[test]
fn a_stamped_set_needs_no_stamp() {
    let l = layout_with(&["vda", "vdb"]);
    let v = view(Some("/dev/vda2"), &[None, Some("aaaa-bbbb")]);
    let p = restamp_targets(UuidKind::Boot, &l, &v).ok().unwrap();
    assert!(p.targets.is_empty());
}

#[test]
fn a_reconciled_member_has_a_clean_entry() {
    let l = layout_with(&["vda"]);
    let ids = vec![EspId::Partuuid("aaaa".into())];
    let before = "Boot0000* d HD(aaaa)/\\EFI\\debian\\shimx64.efi\n\
        Boot0001* d HD(aaaa)/\\EFI\\debian\\grubx64.efi\n";
    let plan = efibootmgr_plan(&l, &Some(before.into()), &ids).unwrap();
    assert_eq!(plan.delete, ["0000", "0001"]);
    let after = "Boot0000* debian-vda HD(aaaa)/\\EFI\\debian\\shimx64.efi\n";
    assert!(check_efibootmgr(&l, &Some(after.into()), &ids)[0].passed());
}
