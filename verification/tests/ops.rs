use raiden::config::{Config, STACKS, STACK_MD_LVM_EXT4, STACK_ZFS};
use raiden::layout::Layout;
use raiden::ops::{
    close, mount, remove, replace, rescue, scrub, status_steps, verify_bootloaders, OpsError,
    ReplaceParts,
};
use raiden::stack::{self, Stack};
use raiden::step::{needs_password, Phase};

fn words(v: &[&str]) -> Vec<String> {
    v.iter().map(|s| s.to_string()).collect()
}

fn config(id: &str) -> Config {
    let mut c = Config::default();
    c.raid.stack = id.into();
    c.disks.members = words(&["vda", "vdb", "vdc"]);
    c
}

fn lines(p: &[Phase]) -> Vec<String> {
    p.iter()
        .flat_map(|p| p.steps.iter())
        .flat_map(|s| s.describe())
        .collect()
}

#[test]
fn maintenance_never_needs_the_password() {
    for id in STACKS {
        let c = config(id);
        let l = Layout::derive(&c);
        let s = stack::select(id).ok().unwrap();
        assert!(!needs_password(&close(&c, &l, &s)), "{id}");
        assert!(!needs_password(&scrub(&c, &l, &s)), "{id}");
        assert!(!needs_password(&mount(&c, &l, &s, true, "/")), "{id}");
        assert!(!needs_password(&remove(&c, &l, &s, &words(&["vdb"])).ok().unwrap()), "{id}");
        assert!(!needs_password(&[Phase::new("status", status_steps(&c, &l, &s))]), "{id}");
        assert!(needs_password(&rescue(&c, &l, &s)), "{id}");
        assert!(needs_password(&mount(&c, &l, &s, false, "/mnt")), "{id}");
    }
}

#[test]
fn a_replace_wipes_only_the_rebuilt_disks() {
    for id in STACKS {
        let c = config(id);
        let l = Layout::derive(&c);
        let s = stack::select(id).ok().unwrap();
        let all = ReplaceParts::from_flags(false, false, false);
        let p = replace(&c, &l, &s, &words(&["vdb"]), &all, None).ok().unwrap();
        for line in lines(&p) {
            if line.starts_with("wipefs") || line.starts_with("sgdisk") {
                assert!(line.contains("/dev/vdb"), "{id}: {line}");
            }
        }
    }
}

#[test]
fn the_old_disk_of_a_swap_is_only_detached() {
    let mut c = config(STACK_MD_LVM_EXT4);
    c.disks.members = words(&["vda", "vde", "vdc"]);
    let l = Layout::derive(&c);
    let s = stack::select(STACK_MD_LVM_EXT4).ok().unwrap();
    let all = ReplaceParts::from_flags(false, false, false);
    let p = replace(&c, &l, &s, &words(&["vde"]), &all, Some(&words(&["vdb"]))).ok().unwrap();
    let all_lines = lines(&p);
    assert!(all_lines.iter().any(|x| x.starts_with("mdadm --fail /dev/md/root /dev/mapper/vdb3_crypt")));
    assert!(!all_lines.iter().any(|x| x.contains("/dev/vdb") && (x.contains("wipefs") || x.contains("sgdisk"))));
    assert!(all_lines.iter().any(|x| x == "sgdisk --zap-all /dev/vde"));
    // the crypttab names the new members.
    assert!(all_lines.iter().any(|x| x.contains("/etc/crypttab") && x.contains("vde3_crypt")));
}

#[test]
fn a_boot_replace_leaves_the_root_alone() {
    let c = config(STACK_MD_LVM_EXT4);
    let l = Layout::derive(&c);
    let s = stack::select(STACK_MD_LVM_EXT4).ok().unwrap();
    let z = stack::select(STACK_ZFS).ok().unwrap();
    let parts = ReplaceParts::from_flags(true, true, false);
    let p = replace(&c, &l, &s, &words(&["vdb"]), &parts, None).ok().unwrap();
    assert!(!needs_password(&p));
    assert!(!lines(&p).iter().any(|x| x.contains("vdb3")));
    let q = replace(&c, &l, &z, &words(&["vdb"]), &parts, None).ok().unwrap();
    assert_eq!(lines(&p), lines(&q));
}

#[test]
fn disks_that_cannot_be_replaced_are_refused() {
    let c = config(STACK_MD_LVM_EXT4);
    let l = Layout::derive(&c);
    let s = stack::select(STACK_MD_LVM_EXT4).ok().unwrap();
    let all = ReplaceParts::from_flags(false, false, false);
    let r = |d: &[&str]| replace(&c, &l, &s, &words(d), &all, None).err();
    assert!(matches!(r(&[]), Some(OpsError::NoDisks)));
    assert!(matches!(r(&["vda", "sdz"]), Some(OpsError::NotAMember(d)) if d == "sdz"));
    assert!(matches!(r(&["vda", "vdb", "vdc"]), Some(OpsError::NoSurvivor)));
    assert!(matches!(remove(&c, &l, &s, &words(&["sdz"])).err(), Some(OpsError::NotAMember(_))));
}

#[test]
fn no_flag_means_the_whole_disk() {
    assert!(ReplaceParts::from_flags(false, false, false).full());
    let p = ReplaceParts::from_flags(true, false, false);
    assert!(p.esp && !p.boot && !p.root && !p.full());
}

#[test]
fn a_scrub_covers_a_raid_boot() {
    let mut c = config(STACK_MD_LVM_EXT4);
    c.boot.raid = true;
    let l = Layout::derive(&c);
    let s = stack::select(STACK_MD_LVM_EXT4).ok().unwrap();
    assert!(lines(&scrub(&c, &l, &s))[0].starts_with("mdadm --action=check /dev/md/boot"));
}

#[test]
fn detaching_writes_to_no_disk() {
    for id in STACKS {
        let c = config(id);
        let l = Layout::derive(&c);
        let s = stack::select(id).ok().unwrap();
        let p = remove(&c, &l, &s, &words(&["vdb"])).ok().unwrap();
        assert!(!p[0].steps.is_empty(), "{id}");
        for line in lines(&p) {
            for tool in ["wipefs", "sgdisk", "mkfs", "luksFormat"] {
                assert!(!line.contains(tool), "{id}: {line}");
            }
        }
    }
}

#[test]
fn recovery_needs_no_password() {
    for id in STACKS {
        let c = config(id);
        let l = Layout::derive(&c);
        let s = stack::select(id).ok().unwrap();
        for a in s.recover_actions(&c, &l, "/root") {
            assert!(a.steps.iter().all(|s| !s.is_secret()), "{id}: {}", a.label);
        }
    }
}

fn replaced(raid: bool, parts: ReplaceParts) -> Vec<Phase> {
    let mut c = config(STACK_MD_LVM_EXT4);
    c.boot.raid = raid;
    let l = Layout::derive(&c);
    let s = stack::select(STACK_MD_LVM_EXT4).ok().unwrap();
    replace(&c, &l, &s, &words(&["vdb"]), &parts, None).ok().unwrap()
}

#[test]
fn a_rebuilt_boot_keeps_the_shared_uuid() {
    let p = replaced(false, ReplaceParts::from_flags(true, true, false));
    let line = lines(&p)
        .into_iter()
        .find(|s| s.contains("mkfs.ext4"))
        .unwrap();
    assert_eq!(
        line,
        "sh -c uuid=$(awk '$2==\"/boot\" {print $1}' /etc/fstab | sed 's/^UUID=//'); \
         for d in /dev/vda2 /dev/vdc2; do [ -n \"$uuid\" ] && break; \
         uuid=$(blkid -s UUID -o value \"$d\" 2>/dev/null); done; \
         if [ -n \"$uuid\" ]; then mkfs.ext4 -m 0 -F -U \"$uuid\" -L boot /dev/vdb2; \
         else mkfs.ext4 -m 0 -F -L boot /dev/vdb2; fi"
    );
}

#[test]
fn a_clone_deletes_nothing_for_an_empty_source() {
    let p = replaced(false, ReplaceParts::from_flags(true, true, false));
    let steps = &p[3].steps;
    let of = |note: &str| {
        steps
            .iter()
            .find(|s| s.note == note)
            .unwrap()
            .describe()
            .remove(0)
    };
    assert_eq!(
        of("clone esp from /dev/vda1 to /dev/vdb1"),
        "sh -c x=$(mktemp -d); y=$(mktemp -d); \
         { mount -o ro /dev/vda1 \"$x\" 2>/dev/null || mount /dev/vda1 \"$x\"; } \
         && test -e \"$x\"/EFI/debian/shimx64.efi && mount /dev/vdb1 \"$y\" \
         && rsync --times --recursive --delete \"$x\"/ \"$y\"/ \
         && test -e \"$y\"/EFI/debian/shimx64.efi; ok=$?; \
         umount \"$y\" || ok=1; rmdir \"$y\"; umount \"$x\" || ok=1; rmdir \"$x\"; exit $ok"
    );
    assert_eq!(
        of("clone /boot to /dev/vdb2"),
        "sh -c y=$(mktemp -d); mountpoint -q /boot && test -e /boot/grub/grub.cfg \
         && mount /dev/vdb2 \"$y\" \
         && rsync --one-file-system --times --recursive --delete /boot/ \"$y\"/ \
         && test -e \"$y\"/grub/grub.cfg; ok=$?; umount \"$y\" || ok=1; rmdir \"$y\"; exit $ok"
    );
}

#[test]
fn a_replace_ends_with_the_verification_of_every_member() {
    let notes = |p: &[Phase]| -> Vec<String> {
        p.last()
            .unwrap()
            .steps
            .iter()
            .map(|s| s.note.clone())
            .filter(|n| n.starts_with("verify the bootloader on "))
            .map(|n| n.rsplit(' ').next().unwrap().to_string())
            .collect()
    };
    let all = ReplaceParts::from_flags(false, false, false);
    assert_eq!(
        notes(&replaced(false, all)),
        ["/dev/vda1", "/dev/vdb1", "/dev/vdc1", "/dev/vda2", "/dev/vdb2", "/dev/vdc2"]
    );
    // md replicates a raid /boot.
    assert_eq!(notes(&replaced(true, all)), ["/dev/vda1", "/dev/vdb1", "/dev/vdc1"]);
    let boot = ReplaceParts::from_flags(false, true, false);
    assert_eq!(notes(&replaced(false, boot)), ["/dev/vda2", "/dev/vdb2", "/dev/vdc2"]);
    let root = ReplaceParts::from_flags(false, false, true);
    assert!(notes(&replaced(false, root)).is_empty());
    let l = Layout::derive(&config(STACK_MD_LVM_EXT4));
    assert_eq!(
        verify_bootloaders(&l, false, true)[0].describe(),
        ["sh -c x=$(mktemp -d); \
          { mount -o ro /dev/vda2 \"$x\" 2>/dev/null || mount /dev/vda2 \"$x\"; } \
          && test -e \"$x\"/grub/grub.cfg; ok=$?; umount \"$x\" || ok=1; rmdir \"$x\"; \
          [ $ok = 0 ] || echo '/dev/vda2 does not carry its bootloader' >&2; exit $ok"]
    );
}

#[test]
fn refusals_are_explained() {
    assert_eq!(OpsError::NoDisks.message(), "no disks specified");
    assert_eq!(
        OpsError::NotAMember("a\"b".into()).message(),
        "\"a\\\"b\" is not a configured member disk"
    );
    assert_eq!(
        OpsError::NoSurvivor.message(),
        "cannot replace every disk at once; at least one member must survive to clone from"
    );
}
