use raiden::config::{
    Config, STACKS, STACK_BTRFS, STACK_MD_INTEGRITY, STACK_MD_LVM_EXT4, STACK_ZFS,
};
use raiden::layout::Layout;
use raiden::pipeline::{install, Staging, PHASES};
use raiden::stack;
use raiden::step::{needs_password, plan_lines, Phase};

fn config(id: &str, level: &str) -> Config {
    let mut c = Config::default();
    c.raid.stack = id.into();
    c.raid.level = level.into();
    c.disks.members = vec!["vda".into(), "vdb".into(), "vdc".into()];
    c
}

fn plan(c: &Config) -> Vec<Phase> {
    let staging = Staging {
        auto_root_password: true,
        raiden_bin: Some("/tmp/raiden".into()),
        manifest: "the manifest\n".into(),
    };
    let l = Layout::derive(c);
    let s = stack::select(&c.raid.stack).ok().unwrap();
    install(c, &l, &s, &staging)
}

fn lines(p: &[Phase], name: &str) -> Vec<String> {
    let p = p.iter().find(|p| p.name == name).unwrap();
    p.steps.iter().flat_map(|s| s.describe()).collect()
}

#[test]
fn an_install_goes_through_its_phases_in_order() {
    for id in STACKS {
        let p = plan(&config(id, "1"));
        let names: Vec<&str> = p.iter().map(|p| p.name.as_str()).collect();
        assert_eq!(names, PHASES, "{id}");
        assert!(needs_password(&p), "{id}");
    }
}

#[test]
fn the_members_are_wiped_and_partitioned() {
    let p = plan(&config(STACK_MD_LVM_EXT4, "5"));
    let l = lines(&p, "partition");
    assert_eq!(l[0], "wipefs -a /dev/vda /dev/vdb /dev/vdc");
    assert_eq!(l[1], "sgdisk --zap-all /dev/vda");
    assert_eq!(l[2], "sgdisk -n1:1M:+512M -t1:EF00 /dev/vda");
    assert_eq!(l[3], "sgdisk -n2:0:+512M -t2:8301 /dev/vda");
    assert!(l.iter().any(|s| s.contains("cryptsetup") && s.contains("luksFormat")
        && s.ends_with("/dev/vdc3")));
}

#[test]
fn a_bios_install_has_no_esp() {
    let mut c = config(STACK_MD_LVM_EXT4, "5");
    c.install.boot_mode = "bios".into();
    let l = lines(&plan(&c), "partition");
    assert_eq!(l[2], "sgdisk -n1:1M:+16M -t1:EF02 /dev/vda");
    assert!(!plan_lines(&plan(&c)).iter().any(|s| s.contains("/boot/efi")));
}

#[test]
fn the_finish_phase_writes_the_manifest_and_then_syncs() {
    let p = plan(&config(STACK_ZFS, "raidz1"));
    let l = lines(&p, "finish");
    let at = |needle: &str| l.iter().position(|s| s.contains(needle)).unwrap();
    assert!(at("write /mnt/boot/raiden/manifest.toml") < at("write /mnt/etc/raiden/manifest.toml"));
    assert!(at("update-initramfs -u -k all") < at("raiden sync boot --yes"));
    // only the verification of every member comes behind the syncs.
    let synced = at("raiden sync efi --yes");
    assert_eq!(l.len() - synced - 1, 6);
    assert!(l[synced + 1].contains("mount /dev/vda1 \"$x\""));
    assert!(l[synced + 1].contains(
        "test -e \"$x\"/EFI/debian/shimx64.efi && test -e \"$x\"/EFI/debian/grubx64.efi"
    ));
    assert!(l[l.len() - 1].contains("/dev/vdc2"));
    assert!(l[l.len() - 1].contains("test -e \"$x\"/grub/grub.cfg"));
}

#[test]
fn an_array_is_built_over_the_crypt_devices() {
    let l = lines(&plan(&config(STACK_MD_LVM_EXT4, "5")), "format");
    assert!(l.iter().any(|s| s.contains("mdadm --create") && s.contains("--level=5")
        && s.ends_with("/dev/mapper/vda3_crypt /dev/mapper/vdb3_crypt /dev/mapper/vdc3_crypt")),
        "{l:?}");
    let l = lines(&plan(&config(STACK_MD_INTEGRITY, "5")), "format");
    assert!(l.iter().any(|s| s.contains("/dev/mapper/vda3_int")), "{l:?}");
    let l = lines(&plan(&config(STACK_BTRFS, "raid1")), "format");
    assert!(l.iter().any(|s| s.contains("mkfs.btrfs") && s.contains("-m raid1 -d raid1")), "{l:?}");
}

#[test]
fn a_fresh_install_first_tears_down_what_is_left() {
    let p = plan(&config(STACK_MD_LVM_EXT4, "5"));
    let names: Vec<&str> = p.iter().map(|p| p.name.as_str()).collect();
    let at = |n: &str| names.iter().position(|x| *x == n).unwrap();
    assert!(at("reset") < at("partition"));
    assert!(lines(&p, "reset").iter().any(|s| s.contains("mdadm --stop")));
}

#[test]
fn an_install_erases_only_its_members() {
    for id in STACKS {
        for line in lines(&plan(&config(id, "1")), "partition") {
            if line.starts_with("wipefs") || line.starts_with("sgdisk") {
                for disk in line.split_whitespace().filter(|w| w.starts_with("/dev/")) {
                    assert!(["/dev/vda", "/dev/vdb", "/dev/vdc"].contains(&disk), "{id}: {line}");
                }
            }
        }
    }
}

#[test]
fn the_reset_is_a_close_and_a_settle() {
    for id in STACKS {
        let p = plan(&config(id, "1"));
        let mut want = lines(&p, "close");
        want.push("udevadm settle    # best-effort".to_string());
        assert_eq!(lines(&p, "reset"), want, "{id}");
    }
}
