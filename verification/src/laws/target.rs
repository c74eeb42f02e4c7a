//! What an install puts into the target.
use vstd::prelude::*;
use vstd::string::*;

use crate::config::ConfigModel;
use crate::efi::{grub_installs, register_words, GRUB_FILE, SHIM_FILE};
use crate::laws::building::the_phases_hold;
use crate::laws::effects::{
    command, group_some_steps, runs, runs_to, script, some_of_both, some_of_push, some_step, words,
};
use crate::laws::rebuilding::{booting_holds, partitions, registers};
use crate::laws::replacing::{a_replace_removes_before_it_rebuilds, parts_are_held};
use crate::laws::{ends_with, forgiving};
use crate::layout::LayoutModel;
use crate::ops::{
    mount_steps_plan, replace_plan, survivors, swap_crypttab_plan, tests_of,
    verify_marker_step_plan, BOOT_MARKER, ReplaceParts,
};
use crate::pipeline::{
    apt_install_plan, apt_phase_plan, bind_phase_plan, boot_fstab_step_plan,
    boot_mirror_install_steps_plan, boot_mirror_sync_step_plan, boot_mount_steps_plan,
    boot_packages_list, bootloader_bios_disk, bootloader_bios_plan, bootloader_efi_plan,
    bootloader_phase_plan, efi_mirror_sync_step_plan, esp_fstab_step_plan, finish_phase_plan,
    install_base_phase_plan, install_plan, register_disk, serial_console_steps_plan,
    stage_binary_plan, EFI_OPTS, GRUB_SERIAL_CFG, Staging,
};
use crate::stack::md_integrity::udev_rules_text;
use crate::stack::{
    backup_luks_header, backup_luks_headers_plan, crypttab_lines, crypttab_step_plan,
    raiden_recovery_hook_step_plan, update_initramfs_plan, update_initramfs_u_plan,
    EFI_MIRROR_HOOK_PATH, EFI_MIRROR_WRAPPER, INITRAMFS_HOOK_AEAD, INITRAMFS_HOOK_INTEGRITY,
    INITRAMFS_HOOK_RAIDEN, AnyStack, Stack,
};
use crate::step::{each, write_mode_step, write_step, ActionModel, StepModel};
use crate::text::{has_prefix, has_suffix, holds, joined, opt_text, stands_at};

verus! {

/// Whether a step runs inside the target.
pub open spec fn in_target(s: StepModel) -> bool {
    s.action is Run && s.action->Run_0.chroot
}

/// The base system is the configured release, at the mount point of the target.
pub proof fn the_release_is_strapped(
    cfg: ConfigModel,
    layout: LayoutModel,
    stack: AnyStack,
    staging: Staging,
)
    ensures
        ({
            let v = install_plan(cfg, layout, stack, staging)[6].steps;
            &&& v.len() == 1 && !forgiving(v[0]) && !in_target(v[0])
            &&& command(v[0]) == seq!["debootstrap"@, cfg.install.release, "/mnt"@]
        }),
{
    the_phases_hold(cfg, layout, stack, staging);
    assert(seq!["debootstrap"@].push(cfg.install.release).push("/mnt"@) =~= seq![
        "debootstrap"@,
        cfg.install.release,
        "/mnt"@,
    ]);
}

/// Whether a step binds a directory of the host into the target.
pub open spec fn binds(s: StepModel, from: Seq<char>, to: Seq<char>) -> bool {
    command(s) == seq!["mount"@, "--rbind"@, from, to] && !forgiving(s)
}

/// The devices and kernel filesystems of the host are bound into the target, and its
/// /boot and esp are mounted there as `mount` mounts them.
pub proof fn the_target_is_bound(
    cfg: ConfigModel,
    layout: LayoutModel,
    stack: AnyStack,
    staging: Staging,
)
    ensures
        ({
            let v = install_plan(cfg, layout, stack, staging)[7].steps;
            &&& v.len() >= 5
            &&& binds(v[1], "/dev"@, "/mnt/dev"@)
            &&& binds(v[2], "/proc"@, "/mnt/proc"@)
            &&& binds(v[3], "/sys"@, "/mnt/sys"@)
            &&& binds(v[4], "/run"@, "/mnt/run"@)
            &&& ends_with(v, mount_steps_plan(cfg, layout, stack, true, "/mnt"@))
        }),
{
    the_phases_hold(cfg, layout, stack, staging);
    let v = bind_phase_plan(cfg, layout).steps;
    let boot = boot_mount_steps_plan(layout, "/mnt"@, cfg.efi());
    assert(mount_steps_plan(cfg, layout, stack, true, "/mnt"@) =~= boot);
    assert(v.skip(5) =~= boot);
    assert(seq!["mount"@].push("--rbind"@).push("/dev"@).push("/mnt/dev"@) =~= seq![
        "mount"@,
        "--rbind"@,
        "/dev"@,
        "/mnt/dev"@,
    ]);
    assert(seq!["mount"@].push("--rbind"@).push("/proc"@).push("/mnt/proc"@) =~= seq![
        "mount"@,
        "--rbind"@,
        "/proc"@,
        "/mnt/proc"@,
    ]);
    assert(seq!["mount"@].push("--rbind"@).push("/sys"@).push("/mnt/sys"@) =~= seq![
        "mount"@,
        "--rbind"@,
        "/sys"@,
        "/mnt/sys"@,
    ]);
    assert(seq!["mount"@].push("--rbind"@).push("/run"@).push("/mnt/run"@) =~= seq![
        "mount"@,
        "--rbind"@,
        "/run"@,
        "/mnt/run"@,
    ]);
}

/// Whether a step mounts the first of these devices that can be, unless something is
/// mounted there.
pub open spec fn mounts_first(s: StepModel, devices: Seq<Seq<char>>, point: Seq<char>) -> bool {
    script(s) == "mountpoint -q "@ + point + " || for d in "@ + joined(devices, " "@)
        + "; do mount \"$d\" "@ + point + " 2>/dev/null && break; done; mountpoint -q "@ + point
        && !forgiving(s)
}

/// Mounting /boot mounts the boot array, or whichever member's independent /boot can be
/// mounted; then, on an efi system and on no other, whichever member's esp can be.
pub proof fn boot_is_mounted_from_any_member(
    cfg: ConfigModel,
    layout: LayoutModel,
    stack: AnyStack,
    at: Seq<char>,
)
    ensures
        ({
            let v = mount_steps_plan(cfg, layout, stack, true, at);
            let base = if at == "/"@ {
                Seq::empty()
            } else {
                at
            };
            let efi = cfg.install.boot_mode == "efi"@;
            &&& v.len() == (if efi {
                4
            } else {
                2int
            })
            &&& command(v[0]) == seq!["mkdir"@, "-p"@, base + "/boot"@]
            &&& layout.boot_mode is Raid ==> script(v[1]) == "mountpoint -q "@ + base
                + "/boot || mount "@ + "/dev/md/boot"@ + " "@ + base + "/boot"@ && !forgiving(v[1])
            &&& layout.boot_mode is Independent ==> mounts_first(
                v[1],
                partitions(layout, layout.members, 2),
                base + "/boot"@,
            )
            &&& efi ==> command(v[2]) == seq!["mkdir"@, "-p"@, base + "/boot/efi"@]
                && mounts_first(
                v[3],
                partitions(layout, layout.members, 1),
                base + "/boot/efi"@,
            )
        }),
{
    let v = mount_steps_plan(cfg, layout, stack, true, at);
    let base = crate::pipeline::below(at);
    assert(v =~= boot_mount_steps_plan(layout, at, cfg.efi()));
    assert(layout.boot_devices() =~= partitions(layout, layout.members, 2));
    assert(layout.esp_devices() =~= partitions(layout, layout.members, 1));
    assert(seq!["mkdir"@].push("-p"@).push(base + "/boot"@) =~= seq![
        "mkdir"@,
        "-p"@,
        base + "/boot"@,
    ]);
    assert(seq!["mkdir"@].push("-p"@).push(base + "/boot/efi"@) =~= seq![
        "mkdir"@,
        "-p"@,
        base + "/boot/efi"@,
    ]);
}

// ----------------------------------------------------------------- packages

/// Whether a step installs a package.
pub open spec fn installs(s: StepModel, package: Seq<char>) -> bool {
    let w = command(s);
    &&& runs(s, "env"@) && w.len() > 5 && w[2] == "apt-get"@ && w[3] == "install"@ && w[4] == "-y"@
    &&& w.skip(5).contains(package)
    &&& !forgiving(s)
}

proof fn installing_installs(note: Seq<char>, packages: Seq<Seq<char>>, k: int)
    requires
        0 <= k < packages.len(),
    ensures
        installs(apt_install_plan(note, packages), packages[k]),
        installs(apt_install_plan(note, packages).chroot(), packages[k]),
{
    let w = command(apt_install_plan(note, packages));
    assert(w.skip(5) =~= packages);
    assert(packages.contains(packages[k]));
}

/// The packages that a stack cannot do without.
pub open spec fn needed(stack: AnyStack) -> Seq<Seq<char>> {
    match stack {
        AnyStack::MdLvm(s) => if s.fs is Xfs {
            seq!["cryptsetup"@, "cryptsetup-initramfs"@, "mdadm"@, "lvm2"@, "xfsprogs"@]
        } else {
            seq!["cryptsetup"@, "cryptsetup-initramfs"@, "mdadm"@, "lvm2"@]
        },
        AnyStack::MdIntegrity(_) => seq!["cryptsetup"@, "cryptsetup-initramfs"@, "mdadm"@, "lvm2"@],
        AnyStack::Btrfs(_) => seq!["cryptsetup"@, "cryptsetup-initramfs"@, "btrfs-progs"@],
        AnyStack::Bcachefs(_) => seq!["cryptsetup"@, "cryptsetup-initramfs"@, "bcachefs-tools"@],
        AnyStack::Zfs(_) => seq![
            "cryptsetup"@,
            "cryptsetup-initramfs"@,
            "zfs-dkms"@,
            "zfsutils-linux"@,
        ],
    }
}

proof fn a_needed_package_is_listed(stack: AnyStack, k: int)
    requires
        0 <= k < needed(stack).len(),
    ensures
        stack.packages_list().contains(needed(stack)[k]),
        stack.host_packages_list().contains(needed(stack)[k]),
{
    let a = stack.packages_list();
    let b = stack.host_packages_list();
    let x = needed(stack)[k];
    match stack {
        AnyStack::MdLvm(_) => {
            assert(a[k] == x && b[k] == x);
        },
        AnyStack::MdIntegrity(_) => {
            assert(a[k] == x && b[k] == x);
        },
        AnyStack::Btrfs(_) => {
            assert(a[k] == x && b[k] == x);
        },
        AnyStack::Bcachefs(_) => {
            assert(a[k] == x && b[k] == x);
        },
        AnyStack::Zfs(_) => {
            assert(b[k] == x);
            if k < 2 {
                assert(a[k] == x);
            } else {
                assert(a[k + 1] == x);
            }
        },
    }
}

/// What the stack needs is installed on the host, before anything else is done, and in
/// the target.
pub proof fn needed_packages_are_installed(
    cfg: ConfigModel,
    layout: LayoutModel,
    stack: AnyStack,
    staging: Staging,
    k: int,
)
    requires
        0 <= k < needed(stack).len(),
    ensures
        ({
            let plan = install_plan(cfg, layout, stack, staging);
            let x = needed(stack)[k];
            &&& some_step(plan[0].steps, |s: StepModel| installs(s, x) && !in_target(s))
            &&& some_step(plan[8].steps, |s: StepModel| installs(s, x) && in_target(s))
        }),
{
    the_phases_hold(cfg, layout, stack, staging);
    a_needed_package_is_listed(stack, k);
    let x = needed(stack)[k];
    let a = stack.packages_list();
    let b = stack.host_packages_list();
    let i = choose|i: int| 0 <= i < a.len() && a[i] == x;
    let j = choose|j: int| 0 <= j < b.len() && b[j] == x;
    let base = seq!["gdisk"@].push("dosfstools"@).push("mdadm"@);
    assert((base + a)[3 + i] == x);
    installing_installs("install raid packages in target"@, base + a, 3 + i);
    installing_installs("install stack packages on host"@, b, j);
    let p = |s: StepModel| installs(s, x) && !in_target(s);
    let q = |s: StepModel| installs(s, x) && in_target(s);
    assert(p(apt_install_plan("install stack packages on host"@, b)));
    assert(q(apt_install_plan("install raid packages in target"@, base + a).chroot()));
    tooling_holds(cfg, stack, p);
    basing_holds(cfg, stack, staging.auto_root_password, q);
}

proof fn tooling_holds(cfg: ConfigModel, stack: AnyStack, p: spec_fn(StepModel) -> bool)
    ensures
        ({
            let v = apt_phase_plan(cfg, stack).steps;
            &&& p(
                apt_install_plan("install stack packages on host"@, stack.host_packages_list()),
            ) ==> some_step(v, p)
            &&& cfg.install.extra_packages.len() > 0 && p(
                apt_install_plan("install extra packages on host"@, cfg.install.extra_packages),
            ) ==> some_step(v, p)
        }),
{
    broadcast use {some_of_push, some_of_both};

}

proof fn basing_holds(
    cfg: ConfigModel,
    stack: AnyStack,
    auto: bool,
    p: spec_fn(StepModel) -> bool,
)
    ensures
        ({
            let v = install_base_phase_plan(cfg, stack, auto).steps;
            &&& p(
                apt_install_plan(
                    "install raid packages in target"@,
                    seq!["gdisk"@].push("dosfstools"@).push("mdadm"@) + stack.packages_list(),
                ).chroot(),
            ) ==> some_step(v, p)
            &&& p(
                apt_install_plan(
                    "install the kernel in target"@,
                    seq!["linux-image-amd64"@],
                ).chroot(),
            ) ==> some_step(v, p)
            &&& cfg.install.extra_packages.len() > 0 && p(
                apt_install_plan(
                    "install extra packages in target"@,
                    cfg.install.extra_packages,
                ).chroot(),
            ) ==> some_step(v, p)
        }),
{
    broadcast use {some_of_push, some_of_both};

}

/// The kernel and every package that the configuration adds are installed in the target.
pub proof fn the_kernel_and_extras_are_installed(
    cfg: ConfigModel,
    layout: LayoutModel,
    stack: AnyStack,
    staging: Staging,
    k: int,
)
    ensures
        ({
            let plan = install_plan(cfg, layout, stack, staging);
            &&& some_step(
                plan[8].steps,
                |s: StepModel| installs(s, "linux-image-amd64"@) && in_target(s),
            )
            &&& 0 <= k < cfg.install.extra_packages.len() ==> some_step(
                plan[8].steps,
                |s: StepModel| installs(s, cfg.install.extra_packages[k]) && in_target(s),
            ) && some_step(
                plan[0].steps,
                |s: StepModel| installs(s, cfg.install.extra_packages[k]) && !in_target(s),
            )
        }),
{
    the_phases_hold(cfg, layout, stack, staging);
    let auto = staging.auto_root_password;
    let kernel = seq!["linux-image-amd64"@];
    installing_installs("install the kernel in target"@, kernel, 0);
    let p = |s: StepModel| installs(s, "linux-image-amd64"@) && in_target(s);
    assert(p(apt_install_plan("install the kernel in target"@, kernel).chroot()));
    basing_holds(cfg, stack, auto, p);
    let extra = cfg.install.extra_packages;
    if 0 <= k < extra.len() {
        installing_installs("install extra packages in target"@, extra, k);
        installing_installs("install extra packages on host"@, extra, k);
        let q = |s: StepModel| installs(s, cfg.install.extra_packages[k]) && in_target(s);
        let r = |s: StepModel| installs(s, cfg.install.extra_packages[k]) && !in_target(s);
        assert(q(apt_install_plan("install extra packages in target"@, extra).chroot()));
        assert(r(apt_install_plan("install extra packages on host"@, extra)));
        basing_holds(cfg, stack, auto, q);
        tooling_holds(cfg, stack, r);
    }
}

/// The root password is set last: to the one of the disks, handed to `chpasswd`, where
/// that was asked for, and else typed to `passwd`.
pub proof fn the_root_password_is_set(
    cfg: ConfigModel,
    layout: LayoutModel,
    stack: AnyStack,
    staging: Staging,
)
    ensures
        ({
            let s = install_plan(cfg, layout, stack, staging)[8].steps.last();
            &&& in_target(s) && !forgiving(s)
            &&& staging.auto_root_password ==> command(s) == seq!["chpasswd"@] && s.is_secret()
                && s.action->Run_0.secret_prefix == "root:"@
            &&& !staging.auto_root_password ==> command(s) == seq!["passwd"@] && !s.is_secret()
        }),
{
    the_phases_hold(cfg, layout, stack, staging);
}

// --------------------------------------------------------------- bootloader

/// Whether a step writes a file of this text.
pub open spec fn puts(s: StepModel, path: Seq<char>, content: Seq<char>) -> bool {
    s.action matches ActionModel::Write { path: p, content: c, mode: m } && p == path && c
        == content
}

/// Whether a step writes a file of this text that can be run.
pub open spec fn puts_runnable(s: StepModel, path: Seq<char>, content: Seq<char>) -> bool {
    puts(s, path, content) && s.action->mode == Some(0o755u32)
}

/// Whether a step installs grub to the esp, with the removable fallback or without, and
/// leaves the boot entries alone.
pub open spec fn grub_to_esp(s: StepModel, removable: bool) -> bool {
    let w = command(s);
    &&& runs_to(s, "grub-install"@, "--target=x86_64-efi"@)
    &&& w.contains("--efi-directory=/boot/efi"@) && w.contains("--no-nvram"@)
    &&& removable ==> w.contains("--removable"@)
    &&& !removable ==> w.contains("--bootloader-id=debian"@)
    &&& in_target(s) && !forgiving(s)
}

proof fn grub_goes_to_the_esp()
    ensures
        some_step(grub_installs(true), |s: StepModel| grub_to_esp(s, false)),
        some_step(grub_installs(true), |s: StepModel| grub_to_esp(s, true)),
{
    broadcast use group_some_steps;

    let v = grub_installs(true);
    let a = command(v[0]);
    let b = command(v[1]);
    assert(a[2] == "--bootloader-id=debian"@ && a[3] == "--efi-directory=/boot/efi"@ && a[4]
        == "--no-nvram"@);
    assert(b[2] == "--efi-directory=/boot/efi"@ && b[3] == "--no-nvram"@ && b[6]
        == "--removable"@);
    let p = |s: StepModel| grub_to_esp(s, false);
    let q = |s: StepModel| grub_to_esp(s, true);
    assert(p(v[0]));
    assert(q(v[1]));
}

proof fn efi_holds(layout: LayoutModel, p: spec_fn(StepModel) -> bool)
    ensures
        ({
            let v = bootloader_efi_plan(layout);
            &&& some_step(grub_installs(true), p) ==> some_step(v, p)
            &&& some_step(
                each(layout.members.reverse(), |d: Seq<char>| register_disk(d)),
                p,
            ) ==> some_step(v, p)
            &&& p(esp_fstab_step_plan(layout)) ==> some_step(v, p)
            &&& p(
                write_mode_step(
                    "install the esp mirror grub.d hook"@,
                    EFI_MIRROR_HOOK_PATH@,
                    EFI_MIRROR_WRAPPER@,
                    0o755,
                ),
            ) ==> some_step(v, p)
        }),
{
    broadcast use {some_of_push, some_of_both};

}

proof fn loading_holds(cfg: ConfigModel, layout: LayoutModel, p: spec_fn(StepModel) -> bool)
    ensures
        ({
            let v = bootloader_phase_plan(cfg, layout).steps;
            &&& cfg.efi() && some_step(bootloader_efi_plan(layout), p) ==> some_step(v, p)
            &&& !cfg.efi() && some_step(bootloader_bios_plan(layout), p) ==> some_step(v, p)
            &&& !layout.boot_raid() && some_step(boot_mirror_install_steps_plan(), p)
                ==> some_step(v, p)
            &&& cfg.install.serial_console && some_step(serial_console_steps_plan(), p)
                ==> some_step(v, p)
            &&& p(boot_fstab_step_plan(layout)) ==> some_step(v, p)
            &&& p(
                apt_install_plan(
                    "install grub + mirror packages in target"@,
                    boot_packages_list(cfg.efi(), layout.boot_raid()),
                ).chroot(),
            ) ==> some_step(v, p)
        }),
{
    broadcast use {some_of_push, some_of_both};

    let v = bootloader_phase_plan(cfg, layout).steps;
    let head = seq![v[0], v[1], v[2]];
    assert(v[1] == apt_install_plan(
        "install grub + mirror packages in target"@,
        boot_packages_list(cfg.efi(), layout.boot_raid()),
    ).chroot());
    assert(v[2] == boot_fstab_step_plan(layout));
}

/// Every member boots: on an efi system grub is on the esp, with the removable fallback,
/// and every member has a boot entry of its own; on a bios system grub is installed to
/// every member.
pub proof fn every_member_boots(
    cfg: ConfigModel,
    layout: LayoutModel,
    stack: AnyStack,
    staging: Staging,
    k: int,
)
    requires
        0 <= k < layout.members.len(),
    ensures
        ({
            let v = install_plan(cfg, layout, stack, staging)[9].steps;
            let d = layout.members[k];
            let efi = cfg.install.boot_mode == "efi"@;
            &&& efi ==> some_step(v, |s: StepModel| grub_to_esp(s, false)) && some_step(
                v,
                |s: StepModel| grub_to_esp(s, true),
            ) && some_step(v, |s: StepModel| registers(s, d) && in_target(s) && !forgiving(s))
            &&& !efi ==> some_step(
                v,
                |s: StepModel|
                    command(s) == seq!["grub-install"@, "/dev/"@ + d] && in_target(s)
                        && !forgiving(s),
            )
            &&& command(v.last()) == seq!["update-grub"@] && in_target(
                v.last(),
            ) && !forgiving(v.last())
        }),
{
    the_phases_hold(cfg, layout, stack, staging);
    let d = layout.members[k];
    let p = |s: StepModel| grub_to_esp(s, false);
    let q = |s: StepModel| grub_to_esp(s, true);
    let r = |s: StepModel| registers(s, d) && in_target(s) && !forgiving(s);
    let b = |s: StepModel|
        command(s) == seq!["grub-install"@, "/dev/"@ + d] && in_target(s) && !forgiving(s);
    grub_goes_to_the_esp();
    a_member_is_registered(layout, k);
    a_member_gets_grub(layout, k);
    efi_holds(layout, p);
    efi_holds(layout, q);
    efi_holds(layout, r);
    loading_holds(cfg, layout, p);
    loading_holds(cfg, layout, q);
    loading_holds(cfg, layout, r);
    loading_holds(cfg, layout, b);
}

proof fn a_member_is_registered(layout: LayoutModel, k: int)
    requires
        0 <= k < layout.members.len(),
    ensures
        some_step(
            each(layout.members.reverse(), |d: Seq<char>| register_disk(d)),
            |s: StepModel| registers(s, layout.members[k]) && in_target(s) && !forgiving(s),
        ),
{
    broadcast use group_some_steps;

    let d = layout.members[k];
    let back = layout.members.reverse();
    assert(back[back.len() - 1 - k] == d);
    let f = |d: Seq<char>| register_disk(d);
    let p = |s: StepModel| registers(s, layout.members[k]) && in_target(s) && !forgiving(s);
    assert(command(register_disk(d)[0]) == register_words(d));
    assert(p(register_disk(d)[0]));
    assert(some_step(f(back[back.len() - 1 - k]), p));
}

proof fn a_member_gets_grub(layout: LayoutModel, k: int)
    requires
        0 <= k < layout.members.len(),
    ensures
        some_step(
            bootloader_bios_plan(layout),
            |s: StepModel|
                command(s) == seq!["grub-install"@, "/dev/"@ + layout.members[k]] && in_target(s)
                    && !forgiving(s),
        ),
{
    broadcast use group_some_steps;

    let d = layout.members[k];
    let p = |s: StepModel|
        command(s) == seq!["grub-install"@, "/dev/"@ + layout.members[k]] && in_target(s)
            && !forgiving(s);
    let s = bootloader_bios_disk(d)[0];
    assert(command(s) =~= seq!["grub-install"@, "/dev/"@ + d]);
    assert(p(s));
}

/// The entry of the first member is registered behind the others, so that the firmware
/// tries it first.
pub proof fn the_first_member_is_tried_first(layout: LayoutModel)
    requires
        layout.members.len() > 0,
    ensures
        ({
            let v = bootloader_efi_plan(layout);
            let n = layout.members.len() as int;
            forall|k: int|
                0 <= k < n ==> registers(
                    #[trigger] v[v.len() - 3 - k],
                    layout.members[k],
                )
        }),
{
    let v = bootloader_efi_plan(layout);
    let n = layout.members.len() as int;
    let f = |d: Seq<char>| register_disk(d);
    let back = layout.members.reverse();
    let entries = each(back, f);
    one_step_for_each(back, f);
    assert(v.len() == 3 + n + 2);
    assert forall|k: int| 0 <= k < n implies registers(
        #[trigger] v[v.len() - 3 - k],
        layout.members[k],
    ) by {
        let i = n - 1 - k;
        assert(back[i] == layout.members[k]);
        assert(seq![entries[i]] == f(back[i]));
        assert(seq![entries[i]][0] == register_disk(layout.members[k])[0]);
        assert(v[v.len() - 3 - k] == entries[i]);
        assert(command(entries[i]) == register_words(layout.members[k]));
    }
}

proof fn one_step_for_each(disks: Seq<Seq<char>>, f: spec_fn(Seq<char>) -> Seq<StepModel>)
    requires
        forall|d: Seq<char>| (#[trigger] f(d)).len() == 1,
    ensures
        each(disks, f).len() == disks.len(),
        forall|i: int| 0 <= i < disks.len() ==> seq![#[trigger] each(disks, f)[i]] == f(disks[i]),
    decreases disks.len(),
{
    if disks.len() > 0 {
        let rest = disks.drop_last();
        one_step_for_each(rest, f);
        let all = each(disks, f);
        assert forall|i: int| 0 <= i < disks.len() implies seq![#[trigger] all[i]] == f(
            disks[i],
        ) by {
            if i < rest.len() {
                assert(all[i] == each(rest, f)[i]);
                assert(rest[i] == disks[i]);
            } else {
                assert(all[i] == f(disks.last())[0]);
                assert(seq![all[i]] =~= f(disks[i]));
            }
        }
    }
}

/// The target mounts its /boot and its esp by what all members share: the array, or the
/// uuid. What keeps the mirrors in step is hooked into the kernel and into grub.
pub proof fn the_mirrors_are_hooked_in(
    cfg: ConfigModel,
    layout: LayoutModel,
    stack: AnyStack,
    staging: Staging,
)
    requires
        layout.members.len() > 0,
    ensures
        ({
            let v = install_plan(cfg, layout, stack, staging)[9].steps;
            let efi = cfg.install.boot_mode == "efi"@;
            let first = layout.members[0];
            &&& layout.boot_mode is Raid ==> some_step(
                v,
                |s: StepModel|
                    puts(
                        s,
                        "/mnt/etc/fstab"@,
                        "/dev/md/boot /boot ext4 defaults,nofail 0 2\n"@,
                    ),
            )
            &&& layout.boot_mode is Independent ==> some_step(
                v,
                |s: StepModel|
                    script(s) == "uuid=$(blkid -s UUID -o value "@ + layout.part(first, 2)
                        + "); echo \"UUID=$uuid /boot ext4 defaults,nofail 0 2\" > /mnt/etc/fstab"@,
            ) && some_step(
                v,
                |s: StepModel|
                    puts_runnable(
                        s,
                        "/mnt/etc/kernel/postinst.d/"@ + "zzz-raiden-boot-mirror"@,
                        "#!/bin/sh\nexec /usr/local/sbin/raiden sync boot --yes\n"@,
                    ),
            ) && some_step(
                v,
                |s: StepModel|
                    puts_runnable(
                        s,
                        "/mnt/etc/kernel/postrm.d/"@ + "zzz-raiden-boot-mirror"@,
                        "#!/bin/sh\nexec /usr/local/sbin/raiden sync boot --yes\n"@,
                    ),
            )
            &&& efi ==> some_step(
                v,
                |s: StepModel|
                    script(s) == "uuid=$(blkid -s UUID -o value "@ + layout.part(first, 1)
                        + "); echo \"UUID=$uuid "@ + "/boot/efi"@ + " vfat "@ + EFI_OPTS@
                        + ",nofail 0 0\" >> /mnt/etc/fstab"@,
            ) && some_step(
                v,
                |s: StepModel|
                    puts_runnable(
                        s,
                        "/mnt/etc/grub.d/90_copy_to_efi_mirrors"@,
                        "#!/bin/sh\nexec 1>&2\n/usr/local/sbin/raiden sync efi --yes || true\n"@,
                    ),
            )
            &&& cfg.install.serial_console ==> some_step(
                v,
                |s: StepModel|
                    puts(s, "/mnt/etc/default/grub.d/serial.cfg"@, GRUB_SERIAL_CFG@),
            )
        }),
{
    the_phases_hold(cfg, layout, stack, staging);
    let first = layout.members[0];
    assert(layout.boot_devices()[0] == layout.part(first, 2));
    assert(layout.esp_devices()[0] == layout.part(first, 1));
    let a = |s: StepModel|
        puts(s, "/mnt/etc/fstab"@, "/dev/md/boot /boot ext4 defaults,nofail 0 2\n"@);
    let b = |s: StepModel|
        script(s) == "uuid=$(blkid -s UUID -o value "@ + layout.part(first, 2)
            + "); echo \"UUID=$uuid /boot ext4 defaults,nofail 0 2\" > /mnt/etc/fstab"@;
    let c = |s: StepModel|
        puts_runnable(
            s,
            "/mnt/etc/kernel/postinst.d/"@ + "zzz-raiden-boot-mirror"@,
            "#!/bin/sh\nexec /usr/local/sbin/raiden sync boot --yes\n"@,
        );
    let d = |s: StepModel|
        puts_runnable(
            s,
            "/mnt/etc/kernel/postrm.d/"@ + "zzz-raiden-boot-mirror"@,
            "#!/bin/sh\nexec /usr/local/sbin/raiden sync boot --yes\n"@,
        );
    let e = |s: StepModel|
        script(s) == "uuid=$(blkid -s UUID -o value "@ + layout.part(first, 1)
            + "); echo \"UUID=$uuid "@ + "/boot/efi"@ + " vfat "@ + EFI_OPTS@
            + ",nofail 0 0\" >> /mnt/etc/fstab"@;
    let f = |s: StepModel|
        puts_runnable(s, "/mnt/etc/grub.d/90_copy_to_efi_mirrors"@, "#!/bin/sh\nexec 1>&2\n/usr/local/sbin/raiden sync efi --yes || true\n"@);
    let g = |s: StepModel| puts(s, "/mnt/etc/default/grub.d/serial.cfg"@, GRUB_SERIAL_CFG@);
    hooks_are_written(c, d, g);
    efi_holds(layout, e);
    efi_holds(layout, f);
    loading_holds(cfg, layout, a);
    loading_holds(cfg, layout, b);
    loading_holds(cfg, layout, c);
    loading_holds(cfg, layout, d);
    loading_holds(cfg, layout, e);
    loading_holds(cfg, layout, f);
    loading_holds(cfg, layout, g);
}

proof fn hooks_are_written(
    c: spec_fn(StepModel) -> bool,
    d: spec_fn(StepModel) -> bool,
    g: spec_fn(StepModel) -> bool,
)
    requires
        c == (|s: StepModel|
            puts_runnable(
                s,
                "/mnt/etc/kernel/postinst.d/"@ + "zzz-raiden-boot-mirror"@,
                "#!/bin/sh\nexec /usr/local/sbin/raiden sync boot --yes\n"@,
            )),
        d == (|s: StepModel|
            puts_runnable(
                s,
                "/mnt/etc/kernel/postrm.d/"@ + "zzz-raiden-boot-mirror"@,
                "#!/bin/sh\nexec /usr/local/sbin/raiden sync boot --yes\n"@,
            )),
        g == (|s: StepModel| puts(s, "/mnt/etc/default/grub.d/serial.cfg"@, GRUB_SERIAL_CFG@)),
    ensures
        some_step(boot_mirror_install_steps_plan(), c),
        some_step(boot_mirror_install_steps_plan(), d),
        some_step(serial_console_steps_plan(), g),
{
    let v = boot_mirror_install_steps_plan();
    assert(c(v[1]));
    assert(d(v[2]));
    assert(g(serial_console_steps_plan()[0]));
}

/// The bootloader that the firmware takes is installed in the target.
pub proof fn the_bootloader_is_installed(
    cfg: ConfigModel,
    layout: LayoutModel,
    stack: AnyStack,
    staging: Staging,
)
    ensures
        ({
            let v = install_plan(cfg, layout, stack, staging)[9].steps;
            let efi = cfg.install.boot_mode == "efi"@;
            &&& efi ==> some_step(
                v,
                |s: StepModel|
                    installs(s, "grub-efi-amd64"@) && installs(s, "shim-signed"@) && installs(
                        s,
                        "rsync"@,
                    ) && in_target(s),
            )
            &&& !efi ==> some_step(v, |s: StepModel| installs(s, "grub-pc"@) && in_target(s))
            &&& !efi && layout.boot_mode is Independent ==> some_step(
                v,
                |s: StepModel| installs(s, "rsync"@) && in_target(s),
            )
        }),
{
    the_phases_hold(cfg, layout, stack, staging);
    let list = boot_packages_list(cfg.efi(), layout.boot_raid());
    let note = "install grub + mirror packages in target"@;
    let s = apt_install_plan(note, list).chroot();
    let a = |s: StepModel|
        installs(s, "grub-efi-amd64"@) && installs(s, "shim-signed"@) && installs(s, "rsync"@)
            && in_target(s);
    let b = |s: StepModel| installs(s, "grub-pc"@) && in_target(s);
    let c = |s: StepModel| installs(s, "rsync"@) && in_target(s);
    if cfg.efi() {
        assert(list[0] == "grub-efi-amd64"@ && list[1] == "shim-signed"@ && list[2] == "rsync"@);
        installing_installs(note, list, 0);
        installing_installs(note, list, 1);
        installing_installs(note, list, 2);
        assert(a(s));
    } else {
        assert(list[0] == "grub-pc"@);
        installing_installs(note, list, 0);
        assert(b(s));
        if !layout.boot_raid() {
            assert(list[1] == "rsync"@);
            installing_installs(note, list, 1);
            assert(c(s));
        }
    }
    loading_holds(cfg, layout, a);
    loading_holds(cfg, layout, b);
    loading_holds(cfg, layout, c);
}

// ------------------------------------------------------------------- finish

/// The line of the crypttab script for a member: the uuid of its root partition, under
/// the name of its mapping, to be unlocked in the initramfs with the shared password.
pub open spec fn tab_line(layout: LayoutModel, opts: Seq<char>, d: Seq<char>) -> Seq<char> {
    "uuid=$(blkid -s UUID -o value "@ + layout.part(d, 3) + "); echo \""@ + layout.crypt_name(d)
        + " UUID=$uuid none "@ + opts + "\"\n"@
}

/// How the members of a stack are unlocked: in the initramfs, with the password that was
/// typed once, and but for md arrays so that freed blocks are passed down.
pub open spec fn tab_options(stack: AnyStack) -> Seq<char> {
    if stack is MdLvm {
        "luks,initramfs,keyscript=decrypt_keyctl"@
    } else {
        "luks,discard,initramfs,keyscript=decrypt_keyctl"@
    }
}

/// Whether a step writes a crypttab in which this member stands.
pub open spec fn writes_crypttab(
    s: StepModel,
    stack: AnyStack,
    layout: LayoutModel,
    d: Seq<char>,
    path: Seq<char>,
) -> bool {
    &&& has_prefix(script(s), "{\n"@)
    &&& holds(script(s), tab_line(layout, tab_options(stack), d))
    &&& has_suffix(script(s), "} > "@ + path + "\n"@)
    &&& !forgiving(s)
}

proof fn every_line_is_held(
    layout: LayoutModel,
    opts: Seq<char>,
    disks: Seq<Seq<char>>,
    k: int,
)
    requires
        0 <= k < disks.len(),
    ensures
        holds(crypttab_lines(layout, opts, disks), tab_line(layout, opts, disks[k])),
    decreases disks.len(),
{
    let rest = crypttab_lines(layout, opts, disks.drop_last());
    let last = tab_line(layout, opts, disks.last());
    let all = crypttab_lines(layout, opts, disks);
    assert(all == rest + last);
    if k < disks.len() - 1 {
        assert(disks.drop_last()[k] == disks[k]);
        every_line_is_held(layout, opts, disks.drop_last(), k);
        let line = tab_line(layout, opts, disks[k]);
        let i = choose|i: int| stands_at(rest, line, i);
        assert(all.subrange(i, i + line.len()) =~= rest.subrange(i, i + line.len()));
        assert(stands_at(all, line, i));
    } else {
        let i = rest.len() as int;
        assert(all.subrange(i, i + last.len()) =~= last);
        assert(stands_at(all, last, i));
    }
}

/// The crypttab names every member.
pub proof fn every_member_is_in_the_crypttab(
    stack: AnyStack,
    layout: LayoutModel,
    path: Seq<char>,
    k: int,
)
    requires
        0 <= k < layout.members.len(),
    ensures
        writes_crypttab(
            crypttab_step_plan(layout, tab_options(stack), path),
            stack,
            layout,
            layout.members[k],
            path,
        ),
{
    let opts = tab_options(stack);
    let s = crypttab_step_plan(layout, opts, path);
    let body = crypttab_lines(layout, opts, layout.members);
    let line = tab_line(layout, opts, layout.members[k]);
    every_line_is_held(layout, opts, layout.members, k);
    let a = "{\n"@;
    let c = "} > "@ + path + "\n"@;
    let t = script(s);
    assert(t == a + body + c);
    assert(t.take(a.len() as int) =~= a);
    assert(t.skip(t.len() - c.len()) =~= c);
    parts_are_held(a, body, c, line);
}

/// Whether a step keeps a copy of a member's luks header on /boot.
pub open spec fn keeps_header(s: StepModel, layout: LayoutModel, d: Seq<char>) -> bool {
    command(s) == seq![
        "cryptsetup"@,
        "luksHeaderBackup"@,
        layout.part(d, 3),
        "--header-backup-file"@,
        "/mnt/boot"@ + "/luks/"@ + d + "3-headers.bin"@,
    ] && !forgiving(s)
}

proof fn a_header_is_kept(layout: LayoutModel, k: int)
    requires
        0 <= k < layout.members.len(),
    ensures
        some_step(
            backup_luks_headers_plan(layout, "/mnt/boot"@),
            |s: StepModel| keeps_header(s, layout, layout.members[k]),
        ),
{
    broadcast use group_some_steps;

    let d = layout.members[k];
    let p = |s: StepModel| keeps_header(s, layout, layout.members[k]);
    let s = backup_luks_header(layout, "/mnt/boot"@, d)[0];
    assert(command(s) =~= seq![
        "cryptsetup"@,
        "luksHeaderBackup"@,
        layout.part(d, 3),
        "--header-backup-file"@,
        "/mnt/boot"@ + "/luks/"@ + d + "3-headers.bin"@,
    ]);
    assert(p(s));
}

proof fn stack_finish_holds(
    cfg: ConfigModel,
    layout: LayoutModel,
    stack: AnyStack,
    p: spec_fn(StepModel) -> bool,
)
    requires
        !(stack is MdIntegrity),
    ensures
        ({
            let v = stack.finish_plan(cfg, layout);
            &&& p(crypttab_step_plan(layout, tab_options(stack), "/mnt/etc/crypttab"@)) ==> some_step(
                v,
                p,
            )
            &&& some_step(backup_luks_headers_plan(layout, "/mnt/boot"@), p) ==> some_step(v, p)
        }),
{
    broadcast use {some_of_push, some_of_both};

    let v = stack.finish_plan(cfg, layout);
    let s = crypttab_step_plan(layout, tab_options(stack), "/mnt/etc/crypttab"@);
    assert(v[1] == s);
}

proof fn finish_holds(
    cfg: ConfigModel,
    layout: LayoutModel,
    stack: AnyStack,
    bin: Option<Seq<char>>,
    manifest: Seq<char>,
    p: spec_fn(StepModel) -> bool,
)
    ensures
        ({
            let v = finish_phase_plan(cfg, layout, stack, bin, manifest).steps;
            &&& some_step(stack.finish_plan(cfg, layout), p) ==> some_step(v, p)
            &&& p(
                write_step(
                    "write the install manifest"@,
                    "/mnt/boot/raiden/manifest.toml"@,
                    manifest,
                ),
            ) ==> some_step(v, p)
            &&& p(
                write_step(
                    "mirror the manifest to /etc"@,
                    "/mnt/etc/raiden/manifest.toml"@,
                    manifest,
                ),
            ) ==> some_step(v, p)
            &&& some_step(stage_binary_plan(bin), p) ==> some_step(v, p)
            &&& cfg.install.initramfs_recovery && p(raiden_recovery_hook_step_plan("/mnt"@))
                ==> some_step(v, p)
            &&& cfg.install.initramfs_recovery && p(update_initramfs_u_plan(true)) ==> some_step(
                v,
                p,
            )
        }),
{
    broadcast use {some_of_push, some_of_both};

}

/// Every member of an install can be unlocked at boot and repaired by hand: it stands in
/// the crypttab of the target, and its luks header is kept on /boot.
pub proof fn every_member_can_be_unlocked(
    cfg: ConfigModel,
    layout: LayoutModel,
    stack: AnyStack,
    staging: Staging,
    k: int,
)
    requires
        0 <= k < layout.members.len(),
        !(stack is MdIntegrity),
    ensures
        ({
            let v = install_plan(cfg, layout, stack, staging)[10].steps;
            let d = layout.members[k];
            &&& some_step(v, |s: StepModel| writes_crypttab(s, stack, layout, d, "/mnt/etc/crypttab"@))
            &&& some_step(v, |s: StepModel| keeps_header(s, layout, layout.members[k]))
        }),
{
    the_phases_hold(cfg, layout, stack, staging);
    let d = layout.members[k];
    let p = |s: StepModel| writes_crypttab(s, stack, layout, d, "/mnt/etc/crypttab"@);
    let q = |s: StepModel| keeps_header(s, layout, layout.members[k]);
    every_member_is_in_the_crypttab(stack, layout, "/mnt/etc/crypttab"@, k);
    a_header_is_kept(layout, k);
    stack_finish_holds(cfg, layout, stack, p);
    stack_finish_holds(cfg, layout, stack, q);
    let bin = opt_text(staging.raiden_bin);
    finish_holds(cfg, layout, stack, bin, staging.manifest@, p);
    finish_holds(cfg, layout, stack, bin, staging.manifest@, q);
}

/// A swap writes the crypttab anew, with every member in it.
pub proof fn a_swap_rewrites_the_crypttab(
    cfg: ConfigModel,
    layout: LayoutModel,
    stack: AnyStack,
    disks: Seq<Seq<char>>,
    parts: ReplaceParts,
    old: Seq<Seq<char>>,
    k: int,
)
    requires
        0 <= k < layout.members.len(),
        parts.root,
        !(stack is MdIntegrity),
    ensures
        ({
            let plan = replace_plan(cfg, layout, stack, disks, parts, Some(old));
            &&& plan.len() == 4
            &&& some_step(
                plan[3].steps,
                |s: StepModel|
                    writes_crypttab(s, stack, layout, layout.members[k], "/etc/crypttab"@),
            )
        }),
{
    let healthy = survivors(layout.members, disks);
    let p = |s: StepModel| writes_crypttab(s, stack, layout, layout.members[k], "/etc/crypttab"@);
    every_member_is_in_the_crypttab(stack, layout, "/etc/crypttab"@, k);
    a_replace_removes_before_it_rebuilds(cfg, layout, stack, disks, parts, Some(old));
    let s = stack.crypttab_regen_plan(layout)->0;
    assert(p(s));
    let tab = swap_crypttab_plan(layout, stack, true);
    assert(tab[0] == s);
    assert(some_step(tab, p));
    booting_holds(cfg, layout, stack, disks, healthy[0], parts, true, p);
}

/// The manifest is kept in both places, the binary is staged where it is known, and the
/// recovery goes into the initramfs where it is configured.
pub proof fn the_target_knows_its_layout(
    cfg: ConfigModel,
    layout: LayoutModel,
    stack: AnyStack,
    staging: Staging,
)
    ensures
        ({
            let v = install_plan(cfg, layout, stack, staging)[10].steps;
            &&& some_step(
                v,
                |s: StepModel| puts(s, "/mnt/boot/raiden/manifest.toml"@, staging.manifest@),
            )
            &&& some_step(
                v,
                |s: StepModel| puts(s, "/mnt/etc/raiden/manifest.toml"@, staging.manifest@),
            )
            &&& staging.raiden_bin is Some ==> some_step(
                v,
                |s: StepModel|
                    command(s) == seq![
                        "install"@,
                        "-D"@,
                        "-m"@,
                        "0755"@,
                        staging.raiden_bin->0@,
                        "/mnt/usr/local/sbin/raiden"@,
                    ] && !forgiving(s),
            )
            &&& cfg.install.initramfs_recovery ==> some_step(
                v,
                |s: StepModel|
                    puts_runnable(
                        s,
                        "/mnt"@ + "/etc/initramfs-tools/hooks/raiden"@,
                        INITRAMFS_HOOK_RAIDEN@,
                    ),
            ) && some_step(
                v,
                |s: StepModel|
                    command(s) == seq!["update-initramfs"@, "-u"@, "-k"@, "all"@] && in_target(s)
                        && !forgiving(s),
            )
        }),
{
    the_phases_hold(cfg, layout, stack, staging);
    let bin = opt_text(staging.raiden_bin);
    let m = staging.manifest@;
    let a = |s: StepModel| puts(s, "/mnt/boot/raiden/manifest.toml"@, staging.manifest@);
    let b = |s: StepModel| puts(s, "/mnt/etc/raiden/manifest.toml"@, staging.manifest@);
    let c = |s: StepModel|
        command(s) == seq![
            "install"@,
            "-D"@,
            "-m"@,
            "0755"@,
            staging.raiden_bin->0@,
            "/mnt/usr/local/sbin/raiden"@,
        ] && !forgiving(s);
    let d = |s: StepModel|
        puts_runnable(
            s,
            "/mnt"@ + "/etc/initramfs-tools/hooks/raiden"@,
            INITRAMFS_HOOK_RAIDEN@,
        );
    let e = |s: StepModel|
        command(s) == seq!["update-initramfs"@, "-u"@, "-k"@, "all"@] && in_target(s)
            && !forgiving(s);
    if staging.raiden_bin is Some {
        let s = stage_binary_plan(bin)[0];
        assert(command(s) =~= seq![
            "install"@,
            "-D"@,
            "-m"@,
            "0755"@,
            staging.raiden_bin->0@,
            "/mnt/usr/local/sbin/raiden"@,
        ]);
        assert(c(s));
        assert(some_step(stage_binary_plan(bin), c));
    }
    let u = update_initramfs_u_plan(true);
    assert(command(u) =~= seq!["update-initramfs"@, "-u"@, "-k"@, "all"@]);
    assert(e(u));
    finish_holds(cfg, layout, stack, bin, m, a);
    finish_holds(cfg, layout, stack, bin, m, b);
    finish_holds(cfg, layout, stack, bin, m, c);
    finish_holds(cfg, layout, stack, bin, m, d);
    finish_holds(cfg, layout, stack, bin, m, e);
}

/// Whether a step appends a line to a file.
pub open spec fn appends(s: StepModel, file: Seq<char>, line: Seq<char>) -> bool {
    s.action matches ActionModel::Append { path, content } && path == file && content == line
}

/// Whether a step tells the target where its root is.
pub open spec fn tells_root(stack: AnyStack, layout: LayoutModel, s: StepModel) -> bool {
    let dev = "/dev/mapper/"@ + layout.crypt_name(layout.members[0]);
    match stack {
        AnyStack::MdLvm(x) => if x.fs is Xfs {
            appends(s, "/mnt/etc/fstab"@, "/dev/vg0/root / xfs defaults 0 0\n"@)
        } else {
            appends(
                s,
                "/mnt/etc/fstab"@,
                "/dev/vg0/root / ext4 rw,relatime,errors=remount-ro 0 0\n"@,
            )
        },
        AnyStack::MdIntegrity(_) => appends(
            s,
            "/mnt/etc/fstab"@,
            "/dev/vg0/root / ext4 rw,relatime,errors=remount-ro 0 0\n"@,
        ),
        AnyStack::Btrfs(_) => script(s) == "uuid=$(blkid -s UUID -o value "@ + dev
            + "); opts=$(awk '$2==\"/mnt\" && $3==\"btrfs\" {print $4}' /proc/self/mounts); echo \"UUID=$uuid / btrfs ${opts:-defaults} 0 0\" >> /mnt/etc/fstab"@,
        AnyStack::Bcachefs(_) => script(s) == "uuid=$(blkid -s UUID -o value "@ + dev
            + "); echo \"UUID=$uuid / bcachefs defaults 0 0\" >> /mnt/etc/fstab"@,
        AnyStack::Zfs(_) => puts(
            s,
            "/mnt/etc/default/grub.d/zfs.cfg"@,
            "GRUB_CMDLINE_LINUX=\"root=ZFS=rpool/ROOT/debian\"\n"@,
        ),
    }
}

/// Whether a step makes the initramfs of every kernel of the target.
pub open spec fn makes_initramfs(s: StepModel) -> bool {
    command(s) == seq!["update-initramfs"@, "-c"@, "-k"@, "all"@] && in_target(s) && !forgiving(s)
}

/// The target is told where its root is, and how its integrity layer is opened; the
/// initramfs is made behind all that, so that it carries it.
pub proof fn the_root_is_found_at_boot(cfg: ConfigModel, layout: LayoutModel, stack: AnyStack)
    requires
        layout.members.len() > 0,
    ensures
        ({
            let v = stack.finish_plan(cfg, layout);
            &&& some_step(v, |s: StepModel| tells_root(stack, layout, s))
            &&& makes_initramfs(v.last())
            &&& stack is MdLvm ==> some_step(
                v,
                |s: StepModel|
                    puts_runnable(
                        s,
                        "/mnt/etc/initramfs-tools/hooks/integrity"@,
                        INITRAMFS_HOOK_AEAD@,
                    ),
            )
            &&& stack is MdIntegrity ==> some_step(
                v,
                |s: StepModel|
                    puts_runnable(
                        s,
                        "/mnt/etc/initramfs-tools/hooks/integrity"@,
                        INITRAMFS_HOOK_INTEGRITY@,
                    ),
            ) && some_step(v, |s: StepModel| opens_by_rule(s, cfg.integrity_algorithm))
                && some_step(
                v,
                |s: StepModel|
                    script(s) == "uuid=$(blkid -s UUID -o value "@ + "/dev/md/root"@ + "); echo \""@
                        + "md_root_crypt"@
                        + " UUID=$uuid none luks,discard\" >> /mnt/etc/crypttab"@,
            )
        }),
{
    the_root_is_told(cfg, layout, stack);
    let v = stack.finish_plan(cfg, layout);
    let u = update_initramfs_plan();
    assert(command(u) =~= seq!["update-initramfs"@, "-c"@, "-k"@, "all"@]);
    assert(v.last() == u);
    if stack is MdLvm {
        let p = |s: StepModel|
            puts_runnable(
                s,
                "/mnt/etc/initramfs-tools/hooks/integrity"@,
                INITRAMFS_HOOK_AEAD@,
            );
        assert(p(v[v.len() - 2]));
    }
    if stack is MdIntegrity {
        integrity_is_told(cfg, layout, stack);
    }
}

/// Whether a step writes the udev rule that opens the integrity devices.
pub open spec fn opens_by_rule(s: StepModel, algorithm: Seq<char>) -> bool {
    s.action matches ActionModel::Write { path, content, mode } && path
        == "/mnt/etc/udev/rules.d/99-integrity.rules"@ && holds(
        content,
        "integritysetup open --integrity="@ + algorithm + " $env{DEVNAME} %k_int"@,
    )
}

proof fn integrity_is_told(cfg: ConfigModel, layout: LayoutModel, stack: AnyStack)
    requires
        stack is MdIntegrity,
    ensures
        ({
            let v = stack.finish_plan(cfg, layout);
            &&& some_step(
                v,
                |s: StepModel|
                    puts_runnable(
                        s,
                        "/mnt/etc/initramfs-tools/hooks/integrity"@,
                        INITRAMFS_HOOK_INTEGRITY@,
                    ),
            )
            &&& some_step(v, |s: StepModel| opens_by_rule(s, cfg.integrity_algorithm))
            &&& some_step(
                v,
                |s: StepModel|
                    script(s) == "uuid=$(blkid -s UUID -o value "@ + "/dev/md/root"@ + "); echo \""@
                        + "md_root_crypt"@
                        + " UUID=$uuid none luks,discard\" >> /mnt/etc/crypttab"@,
            )
        }),
{
    let v = stack.finish_plan(cfg, layout);
    let algo = cfg.integrity_algorithm;
    let p = |s: StepModel|
        puts_runnable(
            s,
            "/mnt/etc/initramfs-tools/hooks/integrity"@,
            INITRAMFS_HOOK_INTEGRITY@,
        );
    let q = |s: StepModel| opens_by_rule(s, cfg.integrity_algorithm);
    let r = |s: StepModel|
        script(s) == "uuid=$(blkid -s UUID -o value "@ + "/dev/md/root"@ + "); echo \""@
            + "md_root_crypt"@ + " UUID=$uuid none luks,discard\" >> /mnt/etc/crypttab"@;
    let t = udev_rules_text(algo);
    let a =
        "ACTION==\"add\", SUBSYSTEM==\"block\", ENV{DEVTYPE}==\"partition\", ENV{ID_FS_TYPE}==\"DM_integrity\", RUN+=\"/sbin/integritysetup open --integrity="@;
    let c =
        " $env{DEVNAME} %k_int\"\nACTION==\"remove\", SUBSYSTEM==\"block\", ENV{DEVTYPE}==\"partition\", ENV{ID_FS_TYPE}==\"DM_integrity\", RUN+=\"/sbin/integritysetup close %k_int\"\n"@;
    reveal_strlit(
        "ACTION==\"add\", SUBSYSTEM==\"block\", ENV{DEVTYPE}==\"partition\", ENV{ID_FS_TYPE}==\"DM_integrity\", RUN+=\"/sbin/integritysetup open --integrity=",
    );
    reveal_strlit(
        " $env{DEVNAME} %k_int\"\nACTION==\"remove\", SUBSYSTEM==\"block\", ENV{DEVTYPE}==\"partition\", ENV{ID_FS_TYPE}==\"DM_integrity\", RUN+=\"/sbin/integritysetup close %k_int\"\n",
    );
    reveal_strlit("integritysetup open --integrity=");
    reveal_strlit(" $env{DEVNAME} %k_int");
    assert(t == a + algo + c);
    let x = "integritysetup open --integrity="@ + algo + " $env{DEVNAME} %k_int"@;
    let i = a.len() - "integritysetup open --integrity="@.len();
    assert(t.subrange(i, i + x.len()) =~= x);
    assert(stands_at(t, x, i));
    assert(r(v[0]));
    assert(q(v[2]));
    assert(p(v[3]));
}

proof fn the_root_is_told(cfg: ConfigModel, layout: LayoutModel, stack: AnyStack)
    requires
        layout.members.len() > 0,
    ensures
        some_step(
            stack.finish_plan(cfg, layout),
            |s: StepModel| tells_root(stack, layout, s),
        ),
{
    broadcast use group_some_steps;

    assert(layout.crypt_names()[0] == layout.crypt_name(layout.members[0]));
    assert(layout.crypt_devices()[0] == "/dev/mapper/"@ + layout.crypt_names()[0]);
    let v = stack.finish_plan(cfg, layout);
    let p = |s: StepModel| tells_root(stack, layout, s);
    match stack {
        AnyStack::MdLvm(_) => {
            assert(p(v[v.len() - 3]));
        },
        AnyStack::MdIntegrity(_) => {
            assert(p(v[1]));
        },
        AnyStack::Btrfs(_) => {
            assert(p(v[v.len() - 2]));
        },
        AnyStack::Bcachefs(_) => {
            assert(p(v[v.len() - 2]));
        },
        AnyStack::Zfs(_) => {
            assert(p(v[v.len() - 3]));
        },
    }
}

/// What has to be in an initramfs, so that the root can be unlocked and mounted.
pub open spec fn needed_at_boot(stack: AnyStack) -> Seq<Seq<char>> {
    match stack {
        AnyStack::MdLvm(_) => seq![
            "cryptsetup"@,
            "keyctl"@,
            "decrypt_keyctl"@,
            "mdadm"@,
            "lvm"@,
        ],
        AnyStack::MdIntegrity(_) => seq![
            "cryptsetup"@,
            "keyctl"@,
            "decrypt_keyctl"@,
            "integritysetup"@,
            "mdadm"@,
            "lvm"@,
        ],
        AnyStack::Btrfs(_) => seq!["cryptsetup"@, "keyctl"@, "decrypt_keyctl"@, "btrfs"@],
        AnyStack::Bcachefs(_) => seq!["cryptsetup"@, "keyctl"@, "decrypt_keyctl"@, "bcachefs"@],
        AnyStack::Zfs(_) => seq!["cryptsetup"@, "keyctl"@, "decrypt_keyctl"@, "zpool"@, "zfs"@],
    }
}

/// The doctor asks the initramfs for exactly what it takes to unlock and mount the root.
pub proof fn the_initramfs_is_asked_for_what_boots(stack: AnyStack)
    ensures
        stack.initramfs_list() == needed_at_boot(stack),
{
    assert(stack.initramfs_list() =~= needed_at_boot(stack));
}

// ------------------------------------------------------------- verification

/// Whether a script mounts a partition, if it can so that nothing is written to it, tests
/// for these files in turn, and fails where one is not there.
pub open spec fn tests_files(t: Seq<char>, dev: Seq<char>, tests: Seq<char>) -> bool {
    &&& has_prefix(
        t,
        "x=$(mktemp -d); "@ + "{ mount -o ro "@ + dev + " \"$x\" 2>/dev/null || mount "@ + dev
            + " \"$x\"; }"@ + tests + "; ok=$?; umount "@,
    )
    &&& has_suffix(t, "; exit $ok"@)
}

proof fn a_script_tests(dev: Seq<char>, markers: Seq<Seq<char>>)
    ensures
        ({
            let s = verify_marker_step_plan(dev, markers);
            tests_files(script(s), dev, tests_of(markers)) && !forgiving(s)
        }),
{
    words();
    let s = verify_marker_step_plan(dev, markers);
    let t = script(s);
    let head = "x=$(mktemp -d); "@ + "{ mount -o ro "@ + dev + " \"$x\" 2>/dev/null || mount "@
        + dev + " \"$x\"; }"@ + tests_of(markers) + "; ok=$?; umount "@;
    let end = "; exit $ok"@;
    reveal_strlit("; ok=$?; umount \"$x\" || ok=1; rmdir \"$x\"; [ $ok = 0 ] || echo '");
    reveal_strlit("; ok=$?; umount ");
    reveal_strlit(" does not carry its bootloader' >&2; exit $ok");
    reveal_strlit("; exit $ok");
    assert(t.take(head.len() as int) =~= head);
    assert(t.skip(t.len() - end.len()) =~= end);
}

/// The verification of a member's esp tests for shim and for grub, that of its
/// independent /boot for the grub configuration; either fails where one is not there.
pub proof fn a_verification_tests_every_file(layout: LayoutModel, d: Seq<char>)
    ensures
        ({
            let esp = verify_marker_step_plan(
                layout.part(d, 1),
                seq![SHIM_FILE@].push(GRUB_FILE@),
            );
            let boot = verify_marker_step_plan(layout.part(d, 2), seq![BOOT_MARKER@]);
            &&& tests_files(
                script(esp),
                layout.part(d, 1),
                " && test -e \"$x\"/"@ + "EFI/debian/shimx64.efi"@ + " && test -e \"$x\"/"@
                    + "EFI/debian/grubx64.efi"@,
            )
            &&& tests_files(
                script(boot),
                layout.part(d, 2),
                " && test -e \"$x\"/"@ + "grub/grub.cfg"@,
            )
            &&& !forgiving(esp) && !forgiving(boot)
        }),
{
    let both = seq![SHIM_FILE@].push(GRUB_FILE@);
    let one = seq![BOOT_MARKER@];
    a_script_tests(layout.part(d, 1), both);
    a_script_tests(layout.part(d, 2), one);
    reveal_with_fuel(tests_of, 3);
    assert(both.drop_last() =~= seq![SHIM_FILE@]);
    assert(both.drop_last().drop_last().len() == 0);
    assert(one.drop_last().len() == 0);
    assert(tests_of(one) =~= " && test -e \"$x\"/"@ + "grub/grub.cfg"@);
    assert(tests_of(both.drop_last()) =~= " && test -e \"$x\"/"@ + "EFI/debian/shimx64.efi"@);
    assert(tests_of(both) =~= " && test -e \"$x\"/"@ + "EFI/debian/shimx64.efi"@
        + " && test -e \"$x\"/"@ + "EFI/debian/grubx64.efi"@);
}

/// The mirrors are synced in the target, unasked, and a failure stops the install.
pub proof fn mirrors_are_synced_in_the_target()
    ensures
        ({
            let boot = boot_mirror_sync_step_plan();
            let esp = efi_mirror_sync_step_plan();
            &&& command(boot) == seq!["/usr/local/sbin/raiden"@, "sync"@, "boot"@, "--yes"@]
            &&& command(esp) == seq!["/usr/local/sbin/raiden"@, "sync"@, "efi"@, "--yes"@]
            &&& in_target(boot) && in_target(esp) && !forgiving(boot) && !forgiving(esp)
        }),
{
    assert(command(boot_mirror_sync_step_plan()) =~= seq![
        "/usr/local/sbin/raiden"@,
        "sync"@,
        "boot"@,
        "--yes"@,
    ]);
    assert(command(efi_mirror_sync_step_plan()) =~= seq![
        "/usr/local/sbin/raiden"@,
        "sync"@,
        "efi"@,
        "--yes"@,
    ]);
}

} // verus!
