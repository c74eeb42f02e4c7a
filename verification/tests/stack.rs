use raiden::config::{Config, STACKS, STACK_MD_INTEGRITY};
use raiden::layout::Layout;
use raiden::stack::{self, Stack, BOOT_MIRROR_HOOK_CONTENT, EFI_MIRROR_WRAPPER};

// the kernel postinst.d/postrm.d hooks are run by run-parts with the kernel
// version and bootdir as positional args ($1, $2). `raiden sync boot` takes no
// positional, so a hook that forwards "$@" makes clap reject the call (exit 2);
// because the boot hook propagates its exit code, that fails the hook and
// blocks every kernel/initramfs upgrade. the hook must invoke sync without
// forwarding those args (sync always mirrors the whole /boot regardless).
#[test]
fn boot_mirror_hook_does_not_forward_runparts_args() {
    assert!(BOOT_MIRROR_HOOK_CONTENT.contains("raiden sync boot --yes"));
    assert!(
        !BOOT_MIRROR_HOOK_CONTENT.contains("$@"),
        "boot hook must not forward run-parts positional args to `raiden sync boot`"
    );
}

#[test]
fn the_esp_hook_swallows_its_exit_code() {
    assert!(EFI_MIRROR_WRAPPER.contains("raiden sync efi --yes"));
    assert!(EFI_MIRROR_WRAPPER.contains("|| true"));
}

#[test]
fn every_stack_is_selected_by_its_identifier() {
    for id in STACKS {
        let s = stack::select(id).ok().unwrap();
        assert_eq!(s.id(), id);
    }
    assert!(matches!(stack::select("ext2"), Err(e) if e.0 == "ext2"));
}

#[test]
fn only_the_integrity_stack_keeps_its_crypttab() {
    let mut c = Config::default();
    c.disks.members = vec!["vda".into()];
    let l = Layout::derive(&c);
    for id in STACKS {
        let s = stack::select(id).ok().unwrap();
        assert_eq!(s.crypttab_regen(&l).is_none(), id == STACK_MD_INTEGRITY, "{id}");
    }
}

#[test]
fn every_initrd_carries_the_unlock_tools() {
    for id in STACKS {
        let v = stack::select(id).ok().unwrap().initramfs_binaries();
        for b in ["cryptsetup", "keyctl", "decrypt_keyctl"] {
            assert!(v.contains(&b.to_string()), "{id}: {b}");
        }
    }
}

#[test]
fn a_stack_is_selected_where_its_family_is_known() {
    for id in STACKS.iter().copied().chain(["", "zfs", "dm-crypt~"]) {
        let mut c = Config::default();
        c.raid.stack = id.into();
        assert_eq!(stack::select(id).is_ok(), c.family().is_ok(), "{id}");
    }
}
