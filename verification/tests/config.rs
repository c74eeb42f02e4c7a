use raiden::config::{
    family_levels, split_disks, Config, ConfigError, Family, Overrides, STACK_BCACHEFS,
    STACK_BTRFS, STACK_MD_INTEGRITY, STACK_MD_LVM_EXT4, STACK_MD_LVM_XFS, STACK_ZFS,
};

fn md_config() -> Config {
    let mut c = Config::default();
    c.disks.members = vec!["vda".into(), "vdb".into(), "vdc".into(), "vdd".into()];
    c
}

#[test]
fn default_md_config_validates() {
    assert!(md_config().validate().is_ok());
}

#[test]
fn empty_members_rejected() {
    assert!(Config::default().validate().is_err());
}

#[test]
fn duplicate_members_rejected() {
    let mut c = md_config();
    c.disks.members.push("vda".into());
    assert!(c.validate().is_err());
}

#[test]
fn wrong_level_for_family_rejected() {
    let mut c = md_config();
    c.raid.stack = STACK_ZFS.into();
    c.raid.level = "6".into();
    assert!(c.validate().is_err());
    c.raid.level = "raidz2".into();
    assert!(c.validate().is_ok());
}

#[test]
fn metadata_level_defaults_to_level() {
    let mut c = md_config();
    c.raid.level = "raid6".into();
    assert_eq!(c.metadata_level(), "raid6");
    c.raid.metadata_level = "raid1c3".into();
    assert_eq!(c.metadata_level(), "raid1c3");
}

#[test]
fn flags_override_file() {
    let mut c = md_config();
    c.apply(&Overrides {
        level: Some("10".into()),
        ..Default::default()
    });
    assert_eq!(c.raid.level, "10");
}

#[test]
fn boot_raid_defaults_off() {
    assert!(!Config::default().boot.raid);
}

#[test]
fn the_built_in_config_has_the_documented_values() {
    let c = Config::default();
    assert_eq!(c.raid.stack, STACK_MD_LVM_EXT4);
    assert_eq!(c.raid.level, "6");
    assert_eq!(c.install.boot_mode, "efi");
    assert!(c.install.initramfs_recovery);
    assert_eq!(c.crypt.sector_size, 4096);
    assert_eq!((c.benchmark.passes, c.benchmark.rndwr_events), (3, 5000));
}

#[test]
fn flags_win_over_the_environment() {
    let mut c = md_config();
    let env = Overrides {
        level: Some("5".into()),
        release: Some("trixie".into()),
        ..Default::default()
    };
    let flags = Overrides {
        level: Some("10".into()),
        ..Default::default()
    };
    c.merge(&env, &flags);
    assert_eq!(c.raid.level, "10");
    assert_eq!(c.install.release, "trixie");
}

#[test]
fn a_list_of_disks_is_cut_at_its_commas() {
    assert_eq!(split_disks("vda, vdb,,vdc "), ["vda", "vdb", "vdc"]);
    assert!(split_disks("").is_empty());
}

#[test]
fn every_stack_has_its_family() {
    let mut c = md_config();
    for (id, family) in [
        (STACK_MD_LVM_EXT4, Family::Md),
        (STACK_MD_LVM_XFS, Family::Md),
        (STACK_MD_INTEGRITY, Family::Md),
        (STACK_BTRFS, Family::Btrfs),
        (STACK_ZFS, Family::Zfs),
        (STACK_BCACHEFS, Family::Bcachefs),
    ] {
        c.raid.stack = id.into();
        assert!(c.family().is_ok_and(|f| f == family), "{id}");
    }
    c.raid.stack = "ext2".into();
    assert!(matches!(c.family(), Err(ConfigError::UnknownStack(s)) if s == "ext2"));
    assert_eq!(family_levels(Family::Zfs), ["raidz1", "raidz2", "raidz3"]);
}

#[test]
fn a_copy_is_equal_in_every_part() {
    let mut c = md_config();
    c.raid.level = "10".into();
    c.crypt.extra_args = vec!["--pbkdf=pbkdf2".into()];
    let d = c.copy();
    assert_eq!(format!("{c:?}"), format!("{d:?}"));
}

#[test]
fn a_joined_list_of_disks_splits_back() {
    let v: Vec<String> = ["sda", "nvme0n1", "sda", "my disk"].map(String::from).into();
    let s = v.join(",");
    assert_eq!(split_disks(&s), v);
    assert_eq!(split_disks(&format!(" {s} , ,")), v);
    for d in split_disks(" a ,, b\t,c d ,\u{3000}") {
        assert!(!d.is_empty() && d == d.trim() && !d.contains(','));
    }
}

#[test]
fn config_errors_are_explained() {
    assert_eq!(
        ConfigError::UnknownStack("zfs".into()).message(),
        "unknown stack \"zfs\"; valid stacks: dm-crypt~md~lvm~ext4, dm-crypt~md~lvm~xfs, \
         dm-crypt~btrfs, dm-crypt~bcachefs, dm-crypt~zfs, dm-integrity~md~dm-crypt~lvm~ext4"
    );
    assert_eq!(
        ConfigError::NoMembers.message(),
        "disks.members is empty; list at least one member disk"
    );
    assert_eq!(
        ConfigError::DuplicateMember("vda".into()).message(),
        "disks.members contains duplicate \"vda\""
    );
    assert_eq!(
        ConfigError::BadBootMode("uefi".into()).message(),
        "install.boot_mode must be \"efi\" or \"bios\", got \"uefi\""
    );
    assert_eq!(
        ConfigError::BadIntegrity("".into()).message(),
        "crypt.integrity must be \"aead\" or \"none\", got \"\""
    );
    assert_eq!(
        ConfigError::BadLevel("7".into(), Family::Zfs).message(),
        "raid.level \"7\" invalid for zfs stack; valid: raidz1, raidz2, raidz3"
    );
    assert_eq!(
        ConfigError::NoPasses.message(),
        "benchmark.passes must be at least 1"
    );
    assert_eq!(
        ConfigError::NoEvents.message(),
        "benchmark.rndwr_events and benchmark.seqwr_events must be non-zero"
    );
}
