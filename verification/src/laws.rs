//! What holds of whole plans, whatever the stack.
use vstd::prelude::*;
use vstd::string::*;

use crate::config::ConfigModel;
use crate::efi::{GRUB_FILE, SHIM_FILE};
use crate::layout::LayoutModel;
use crate::ops::{
    boot_detach_plan, leaving, mount_steps_plan, recreate_esp, remove_steps_plan, repartition_disk,
    replace_bootloader_plan, replace_partition_plan, replace_plan, replace_reassemble_plan,
    replace_remove_plan, repopulate_boot_plan, rescue_plan, scrub_steps_plan, status_steps_plan,
    survivors, swap_crypttab_plan, verify_bootloaders_plan, verify_marker_step_plan,
    verify_partition, wipe_disk, ReplaceParts, BOOT_MARKER,
};
use crate::pipeline::{
    apt_phase_plan, bind_phase_plan, boot_mirror_sync_step_plan, boot_mount_steps_plan,
    close_phase_plan, efi_mirror_sync_step_plan, finish_phase_plan, format_phase_plan, install_plan,
    partition_disk, partition_phase_plan, prepare_phase_plan, Staging,
};
use crate::stack::{crypt_format_disk, crypt_format_disks_plan, AnyStack, Stack};
use crate::step::{each, plan_is_secret, StepModel};
use crate::text::{has_prefix, headed, opt_text};

pub mod building;
pub mod conduct;
pub mod effects;
pub mod members;
pub mod opening;
pub mod rebuilding;
pub mod replacing;
pub mod target;

verus! {

// --------------------------------------------------------------- all steps

/// Whether every step has the property.
pub open spec fn all_steps(v: Seq<StepModel>, p: spec_fn(StepModel) -> bool) -> bool {
    forall|i: int| 0 <= i < v.len() ==> p(#[trigger] v[i])
}

pub broadcast proof fn all_of_none(p: spec_fn(StepModel) -> bool)
    ensures
        #[trigger] all_steps(Seq::<StepModel>::empty(), p),
{
}

pub broadcast proof fn all_of_one(s: StepModel, p: spec_fn(StepModel) -> bool)
    ensures
        #[trigger] all_steps(seq![s], p) == p(s),
{
    assert(seq![s][0] == s);
}

pub broadcast proof fn all_of_push(v: Seq<StepModel>, s: StepModel, p: spec_fn(StepModel) -> bool)
    ensures
        #[trigger] all_steps(v.push(s), p) == (all_steps(v, p) && p(s)),
{
    let w = v.push(s);
    if all_steps(w, p) {
        assert(w[v.len() as int] == s);
        assert forall|i: int| 0 <= i < v.len() implies p(#[trigger] v[i]) by {
            assert(w[i] == v[i]);
        }
    }
}

pub broadcast proof fn all_of_both(a: Seq<StepModel>, b: Seq<StepModel>, p: spec_fn(StepModel) -> bool)
    ensures
        #[trigger] all_steps(a + b, p) == (all_steps(a, p) && all_steps(b, p)),
{
    let w = a + b;
    if all_steps(w, p) {
        assert forall|i: int| 0 <= i < a.len() implies p(#[trigger] a[i]) by {
            assert(w[i] == a[i]);
        }
        assert forall|i: int| 0 <= i < b.len() implies p(#[trigger] b[i]) by {
            assert(w[a.len() + i] == b[i]);
        }
    }
}

pub broadcast proof fn all_of_each(
    disks: Seq<Seq<char>>,
    f: spec_fn(Seq<char>) -> Seq<StepModel>,
    p: spec_fn(StepModel) -> bool,
)
    ensures
        (forall|d: Seq<char>| disks.contains(d) ==> all_steps(#[trigger] f(d), p))
            ==> #[trigger] all_steps(each(disks, f), p),
    decreases disks.len(),
{
    if forall|d: Seq<char>| disks.contains(d) ==> all_steps(#[trigger] f(d), p) {
        if disks.len() > 0 {
            let rest = disks.drop_last();
            assert forall|d: Seq<char>| rest.contains(d) implies all_steps(#[trigger] f(d), p) by {
                let i = choose|i: int| 0 <= i < rest.len() && rest[i] == d;
                assert(disks[i] == d);
            }
            all_of_each(rest, f, p);
            assert(disks[disks.len() - 1] == disks.last());
            all_of_both(each(rest, f), f(disks.last()), p);
        }
    }
}

pub broadcast group group_all_steps {
    all_of_none,
    all_of_one,
    all_of_push,
    all_of_both,
    all_of_each,
}

// ---------------------------------------------------------------- password

/// Whether none of the steps needs the password.
pub open spec fn open_to_all(v: Seq<StepModel>) -> bool {
    all_steps(v, |s: StepModel| !s.is_secret())
}

/// Closing the stack never needs the password.
pub proof fn closing_needs_no_password(cfg: ConfigModel, layout: LayoutModel, stack: AnyStack)
    ensures
        open_to_all(close_phase_plan(cfg, layout, stack).steps),
{
    broadcast use group_all_steps;

}

/// A scrub never needs the password.
pub proof fn scrubbing_needs_no_password(cfg: ConfigModel, layout: LayoutModel, stack: AnyStack)
    ensures
        open_to_all(scrub_steps_plan(cfg, layout, stack)),
{
    broadcast use group_all_steps;

}

/// Looking at the status never needs the password.
pub proof fn status_needs_no_password(cfg: ConfigModel, layout: LayoutModel, stack: AnyStack)
    ensures
        open_to_all(status_steps_plan(cfg, layout, stack)),
{
    broadcast use group_all_steps;

}

/// Removing disks never needs the password.
pub proof fn removing_needs_no_password(
    cfg: ConfigModel,
    layout: LayoutModel,
    stack: AnyStack,
    disks: Seq<Seq<char>>,
)
    ensures
        open_to_all(remove_steps_plan(cfg, layout, stack, disks)),
{
    broadcast use group_all_steps;

}

/// Mounting /boot and the esp alone never needs the password.
pub proof fn mounting_boot_needs_no_password<S: Stack>(
    cfg: ConfigModel,
    layout: LayoutModel,
    stack: S,
    at: Seq<char>,
)
    ensures
        open_to_all(mount_steps_plan(cfg, layout, stack, true, at)),
{
    broadcast use group_all_steps;

}

/// Recovering from the initramfs never needs the password: the members are open there.
pub proof fn recovering_needs_no_password(
    cfg: ConfigModel,
    layout: LayoutModel,
    stack: AnyStack,
    at: Seq<char>,
    i: int,
)
    requires
        0 <= i < stack.recover_actions_plan(cfg, layout, at).len(),
    ensures
        open_to_all(stack.recover_actions_plan(cfg, layout, at)[i].steps),
{
    broadcast use group_all_steps;

}

proof fn formatting_members_is_secret(cfg: ConfigModel, layout: LayoutModel)
    requires
        layout.members.len() > 0,
    ensures
        !open_to_all(crypt_format_disks_plan(cfg, layout)),
{
    broadcast use group_all_steps;

    let f = |d: Seq<char>| crypt_format_disk(cfg, layout, d);
    assert(each(layout.members, f) == each(layout.members.drop_last(), f) + f(
        layout.members.last(),
    ));
}

/// An install always needs the password: it formats the crypt layer with it.
pub proof fn installing_needs_the_password(
    cfg: ConfigModel,
    layout: LayoutModel,
    stack: AnyStack,
    staging: Staging,
)
    requires
        layout.members.len() > 0,
    ensures
        plan_is_secret(install_plan(cfg, layout, stack, staging)),
{
    broadcast use group_all_steps;

    formatting_members_is_secret(cfg, layout);
    let plan = install_plan(cfg, layout, stack, staging);
    let k = if stack is MdIntegrity {
        4int
    } else {
        3int
    };
    let steps = plan[k].steps;
    if stack is MdIntegrity {
        assert(plan[4] == format_phase_plan(cfg, layout, stack));
        assert(!open_to_all(stack.format_root_plan(cfg, layout)));
    } else {
        assert(plan[3] == partition_phase_plan(cfg, layout, stack));
        assert(!open_to_all(stack.partition_root_plan(cfg, layout)));
    }
    assert(!open_to_all(steps));
    let p = |s: StepModel| !s.is_secret();
    let i = choose|i: int| 0 <= i < steps.len() && !p(#[trigger] steps[i]);
    assert(plan[k].steps[i].is_secret());
}

// -------------------------------------------------------------------- swap

/// Whether a step erases a disk or a partition.
pub open spec fn erases(s: StepModel) -> bool {
    s.action is Run && s.action->Run_0.argv.len() > 0 && (s.action->Run_0.argv[0] == "wipefs"@
        || s.action->Run_0.argv[0] == "sgdisk"@)
}

/// Whether the failure of a step is ignored.
pub open spec fn forgiving(s: StepModel) -> bool {
    s.action is Run && s.action->Run_0.best_effort
}

/// The other commands are not the ones that erase.
proof fn commands_differ()
    ensures
        "mdadm"@ != "wipefs"@ && "mdadm"@ != "sgdisk"@,
        "cryptsetup"@ != "wipefs"@ && "cryptsetup"@ != "sgdisk"@,
        "integritysetup"@ != "wipefs"@ && "integritysetup"@ != "sgdisk"@,
        "zpool"@ != "wipefs"@ && "zpool"@ != "sgdisk"@,
        "zfs"@ != "wipefs"@ && "zfs"@ != "sgdisk"@,
        "umount"@ != "wipefs"@ && "umount"@ != "sgdisk"@,
        "mount"@ != "wipefs"@ && "mount"@ != "sgdisk"@,
        "udevadm"@ != "wipefs"@ && "udevadm"@ != "sgdisk"@,
        "sh"@ != "wipefs"@ && "sh"@ != "sgdisk"@,
        "btrfs"@ != "wipefs"@ && "btrfs"@ != "sgdisk"@,
        "bcachefs"@ != "wipefs"@ && "bcachefs"@ != "sgdisk"@,
        "mkfs.ext4"@ != "wipefs"@ && "mkfs.ext4"@ != "sgdisk"@,
        "mkfs.btrfs"@ != "wipefs"@ && "mkfs.btrfs"@ != "sgdisk"@,
        "mkfs.bcachefs"@ != "wipefs"@ && "mkfs.bcachefs"@ != "sgdisk"@,
        "mkdir"@ != "wipefs"@ && "mkdir"@ != "sgdisk"@,
        "modprobe"@ != "wipefs"@ && "modprobe"@ != "sgdisk"@,
        "grub-install"@ != "wipefs"@ && "grub-install"@ != "sgdisk"@,
        "efibootmgr"@ != "wipefs"@ && "efibootmgr"@ != "sgdisk"@,
        "update-grub"@ != "wipefs"@ && "update-grub"@ != "sgdisk"@,
        "update-initramfs"@ != "wipefs"@ && "update-initramfs"@ != "sgdisk"@,
        "vgchange"@ != "wipefs"@ && "vgchange"@ != "sgdisk"@,
        "findmnt"@ != "wipefs"@ && "findmnt"@ != "sgdisk"@,
        "env"@ != "wipefs"@ && "env"@ != "sgdisk"@,
        "apt-get"@ != "wipefs"@ && "apt-get"@ != "sgdisk"@,
        "/usr/local/sbin/raiden"@ != "wipefs"@ && "/usr/local/sbin/raiden"@ != "sgdisk"@,
{
    reveal_strlit("wipefs");
    reveal_strlit("sgdisk");
    assert("wipefs"@[0] == 'w' && "sgdisk"@[0] == 's' && "sgdisk"@[1] == 'g');
    reveal_strlit("mdadm");
    assert("mdadm"@[0] == 'm');
    reveal_strlit("cryptsetup");
    assert("cryptsetup"@[0] == 'c');
    reveal_strlit("integritysetup");
    assert("integritysetup"@[0] == 'i');
    reveal_strlit("zpool");
    assert("zpool"@[0] == 'z');
    reveal_strlit("zfs");
    assert("zfs"@[0] == 'z');
    reveal_strlit("umount");
    assert("umount"@[0] == 'u');
    reveal_strlit("mount");
    assert("mount"@[0] == 'm');
    reveal_strlit("udevadm");
    assert("udevadm"@[0] == 'u');
    reveal_strlit("sh");
    assert("sh"@[0] == 's' && "sh"@[1] == 'h');
    reveal_strlit("btrfs");
    assert("btrfs"@[0] == 'b');
    reveal_strlit("bcachefs");
    assert("bcachefs"@[0] == 'b');
    reveal_strlit("mkfs.ext4");
    assert("mkfs.ext4"@[0] == 'm');
    reveal_strlit("mkfs.btrfs");
    assert("mkfs.btrfs"@[0] == 'm');
    reveal_strlit("mkfs.bcachefs");
    assert("mkfs.bcachefs"@[0] == 'm');
    reveal_strlit("mkdir");
    assert("mkdir"@[0] == 'm');
    reveal_strlit("modprobe");
    assert("modprobe"@[0] == 'm');
    reveal_strlit("grub-install");
    assert("grub-install"@[0] == 'g');
    reveal_strlit("efibootmgr");
    assert("efibootmgr"@[0] == 'e');
    reveal_strlit("update-grub");
    assert("update-grub"@[0] == 'u');
    reveal_strlit("update-initramfs");
    assert("update-initramfs"@[0] == 'u');
    reveal_strlit("vgchange");
    assert("vgchange"@[0] == 'v');
    reveal_strlit("findmnt");
    assert("findmnt"@[0] == 'f');
    reveal_strlit("env");
    assert("env"@[0] == 'e');
    reveal_strlit("apt-get");
    assert("apt-get"@[0] == 'a');
    reveal_strlit("/usr/local/sbin/raiden");
    assert("/usr/local/sbin/raiden"@[0] == '/');
}

/// Detaching disks neither erases them nor fails where they are gone already.
pub proof fn detaching_spares_the_disks(
    cfg: ConfigModel,
    layout: LayoutModel,
    stack: AnyStack,
    gone: Seq<Seq<char>>,
)
    ensures
        all_steps(stack.remove_plan(cfg, layout, gone), |s: StepModel| forgiving(s) && !erases(s)),
        all_steps(boot_detach_plan(layout, gone), |s: StepModel| forgiving(s) && !erases(s)),
{
    broadcast use group_all_steps;

    commands_differ();
}

/// The wipes of a replace go by the disks that are rebuilt: whatever disks leave, they
/// are only detached.
pub proof fn a_swap_never_wipes_the_old_disks(
    cfg: ConfigModel,
    layout: LayoutModel,
    stack: AnyStack,
    gone: Seq<Seq<char>>,
    disks: Seq<Seq<char>>,
    survivor: Seq<char>,
    parts: ReplaceParts,
)
    ensures
        replace_remove_plan(cfg, layout, stack, gone, disks, survivor, parts)
            == replace_remove_plan(
            cfg,
            layout,
            stack,
            gone,
            Seq::empty(),
            survivor,
            parts,
        ) + each(disks, |e: Seq<char>| wipe_disk(layout, parts, e)),
        erases_nothing(
            replace_remove_plan(cfg, layout, stack, gone, Seq::empty(), survivor, parts),
        ),
{
    broadcast use group_all_steps;

    commands_differ();
    let none = Seq::<Seq<char>>::empty();
    let wipe = |e: Seq<char>| wipe_disk(layout, parts, e);
    let head = replace_remove_plan(cfg, layout, stack, gone, none, survivor, parts);
    assert(each(none, wipe) =~= Seq::<StepModel>::empty());
    assert(replace_remove_plan(cfg, layout, stack, gone, disks, survivor, parts) =~= head + each(
        disks,
        wipe,
    ));
}

/// A replace that names only the boot layers leaves the root member alone: its plan is
/// the same whatever the stack.
pub proof fn a_boot_replace_leaves_the_root_alone<S: Stack, T: Stack>(
    cfg: ConfigModel,
    layout: LayoutModel,
    a: S,
    b: T,
    disks: Seq<Seq<char>>,
    parts: ReplaceParts,
    old_disks: Option<Seq<Seq<char>>>,
)
    requires
        !parts.root,
    ensures
        replace_plan(cfg, layout, a, disks, parts, old_disks) == replace_plan(
            cfg,
            layout,
            b,
            disks,
            parts,
            old_disks,
        ),
{
}

/// Whether a device is one of the disks, or one of their partitions.
pub open spec fn node_of(layout: LayoutModel, disks: Seq<Seq<char>>, x: Seq<char>) -> bool {
    exists|d: Seq<char>| #[trigger]
        disks.contains(d) && (x == "/dev/"@ + d || x == layout.part(d, 1) || x == layout.part(d, 2)
            || x == layout.part(d, 3))
}

/// Whether a step that erases names no device but the disks and their partitions.
pub open spec fn erases_only(layout: LayoutModel, disks: Seq<Seq<char>>, s: StepModel) -> bool {
    erases(s) ==> forall|k: int|
        0 <= k < s.action->Run_0.argv.len() && has_prefix(
            #[trigger] s.action->Run_0.argv[k],
            "/dev/"@,
        ) ==> node_of(layout, disks, s.action->Run_0.argv[k])
}

/// The options of the commands that erase are no devices.
proof fn options_are_no_devices()
    ensures
        !has_prefix("wipefs"@, "/dev/"@),
        !has_prefix("-a"@, "/dev/"@),
        !has_prefix("sgdisk"@, "/dev/"@),
        !has_prefix("--zap-all"@, "/dev/"@),
        !has_prefix("-n1:1M:+512M"@, "/dev/"@),
        !has_prefix("-t1:EF00"@, "/dev/"@),
        !has_prefix("-n1:1M:+16M"@, "/dev/"@),
        !has_prefix("-t1:EF02"@, "/dev/"@),
        !has_prefix("-n2:0:+512M"@, "/dev/"@),
        !has_prefix("-t2:8301"@, "/dev/"@),
        forall|x: Seq<char>| !has_prefix(#[trigger] ("-d"@ + x), "/dev/"@),
{
    reveal_strlit("/dev/");
    reveal_strlit("wipefs");
    reveal_strlit("-a");
    reveal_strlit("sgdisk");
    reveal_strlit("--zap-all");
    reveal_strlit("-n1:1M:+512M");
    reveal_strlit("-t1:EF00");
    reveal_strlit("-n1:1M:+16M");
    reveal_strlit("-t1:EF02");
    reveal_strlit("-n2:0:+512M");
    reveal_strlit("-t2:8301");
    reveal_strlit("-d");
    assert forall|x: Seq<char>| #[trigger] has_prefix(x, "/dev/"@) implies x[0] == '/' by {
        assert(x.take(5)[0] == "/dev/"@[0]);
    }
    assert("wipefs"@[0] == 'w');
    assert("-a"@[0] == '-');
    assert("sgdisk"@[0] == 's');
    assert("--zap-all"@[0] == '-');
    assert("-n1:1M:+512M"@[0] == '-');
    assert("-t1:EF00"@[0] == '-');
    assert("-n1:1M:+16M"@[0] == '-');
    assert("-t1:EF02"@[0] == '-');
    assert("-n2:0:+512M"@[0] == '-');
    assert("-t2:8301"@[0] == '-');
    assert forall|x: Seq<char>| !has_prefix(#[trigger] ("-d"@ + x), "/dev/"@) by {
        assert(("-d"@ + x)[0] == '-');
    }
}

/// The partitioning of an install erases the member disks and nothing else.
pub proof fn install_erases_only_members(
    cfg: ConfigModel,
    layout: LayoutModel,
    stack: AnyStack,
)
    ensures
        all_steps(
            partition_phase_plan(cfg, layout, stack).steps,
            |s: StepModel| erases_only(layout, layout.members, s),
        ),
{
    broadcast use group_all_steps;

    commands_differ();
    options_are_no_devices();
    let p = |s: StepModel| erases_only(layout, layout.members, s);
    let nodes = headed("/dev/"@, layout.members);
    let words = seq!["wipefs"@].push("-a"@) + nodes;
    assert forall|k: int| 0 <= k < words.len() && has_prefix(#[trigger] words[k], "/dev/"@) implies node_of(
        layout,
        layout.members,
        words[k],
    ) by {
        if k >= 2 {
            assert(words[k] == nodes[k - 2]);
            assert(layout.members.contains(layout.members[k - 2]));
        }
    }
    assert forall|d: Seq<char>| layout.members.contains(d) implies all_steps(
        #[trigger] partition_disk(cfg.efi(), d),
        p,
    ) by {
        assert(node_of(layout, layout.members, "/dev/"@ + d));
    }
}

/// Whether none of the steps erases.
pub open spec fn erases_nothing(v: Seq<StepModel>) -> bool {
    all_steps(v, |s: StepModel| !erases(s))
}

/// Whether the steps that erase name no device but the disks and their partitions.
pub open spec fn spares_the_others(
    layout: LayoutModel,
    disks: Seq<Seq<char>>,
    v: Seq<StepModel>,
) -> bool {
    all_steps(v, |s: StepModel| erases_only(layout, disks, s))
}

proof fn nothing_spares_all(layout: LayoutModel, disks: Seq<Seq<char>>, v: Seq<StepModel>)
    requires
        erases_nothing(v),
    ensures
        spares_the_others(layout, disks, v),
{
    let p = |s: StepModel| erases_only(layout, disks, s);
    let q = |s: StepModel| !erases(s);
    assert forall|i: int| 0 <= i < v.len() implies p(#[trigger] v[i]) by {
        assert(q(v[i]));
    }
}

/// The operations that go ahead unconfirmed wipe and repartition nothing: closing,
/// scrubbing, mounting and looking at the status.
pub proof fn unconfirmed_operations_erase_nothing(
    cfg: ConfigModel,
    layout: LayoutModel,
    stack: AnyStack,
    boot_only: bool,
    at: Seq<char>,
)
    ensures
        erases_nothing(close_phase_plan(cfg, layout, stack).steps),
        erases_nothing(scrub_steps_plan(cfg, layout, stack)),
        erases_nothing(status_steps_plan(cfg, layout, stack)),
        erases_nothing(mount_steps_plan(cfg, layout, stack, boot_only, at)),
{
    closing_erases_nothing(cfg, layout, stack);
    scrubbing_erases_nothing(cfg, layout, stack);
    status_erases_nothing(cfg, layout, stack);
    mounting_boot_erases_nothing(layout, at, cfg.efi());
    let p = |s: StepModel| !erases(s);
    let none = Seq::<StepModel>::empty();
    let opened = none + stack.map_plan(cfg, layout);
    let root = stack.mount_root_plan(cfg, layout);
    let boot = boot_mount_steps_plan(layout, at, cfg.efi());
    opening_erases_nothing(cfg, layout, stack);
    all_of_both(none, stack.map_plan(cfg, layout), p);
    all_of_both(opened, root, p);
    all_of_both(opened + root, boot, p);
    all_of_both(none, boot, p);
}

proof fn closing_erases_nothing(cfg: ConfigModel, layout: LayoutModel, stack: AnyStack)
    ensures
        erases_nothing(close_phase_plan(cfg, layout, stack).steps),
{
    broadcast use group_all_steps;

    commands_differ();
}

proof fn scrubbing_erases_nothing(cfg: ConfigModel, layout: LayoutModel, stack: AnyStack)
    ensures
        erases_nothing(scrub_steps_plan(cfg, layout, stack)),
{
    broadcast use group_all_steps;

    commands_differ();
}

proof fn status_erases_nothing(cfg: ConfigModel, layout: LayoutModel, stack: AnyStack)
    ensures
        erases_nothing(status_steps_plan(cfg, layout, stack)),
{
    broadcast use group_all_steps;

    commands_differ();
}

proof fn mounting_boot_erases_nothing(layout: LayoutModel, at: Seq<char>, efi: bool)
    ensures
        erases_nothing(boot_mount_steps_plan(layout, at, efi)),
{
    broadcast use group_all_steps;

    commands_differ();
}

proof fn opening_erases_nothing(cfg: ConfigModel, layout: LayoutModel, stack: AnyStack)
    ensures
        erases_nothing(stack.map_plan(cfg, layout)),
        erases_nothing(stack.mount_root_plan(cfg, layout)),
{
    assert(erases_nothing(stack.map_plan(cfg, layout))) by {
        broadcast use group_all_steps;

        commands_differ();
    }
    assert(erases_nothing(stack.mount_root_plan(cfg, layout))) by {
        broadcast use group_all_steps;

        commands_differ();
    }
}

/// A rescue, which goes ahead unconfirmed too, wipes and repartitions nothing.
pub proof fn rescuing_erases_nothing(
    cfg: ConfigModel,
    layout: LayoutModel,
    stack: AnyStack,
    i: int,
)
    requires
        0 <= i < rescue_plan(cfg, layout, stack).len(),
    ensures
        erases_nothing(rescue_plan(cfg, layout, stack)[i].steps),
{
    let plan = rescue_plan(cfg, layout, stack);
    if i == 0 {
        assert(erases_nothing(apt_phase_plan(cfg, stack).steps)) by {
            broadcast use group_all_steps;

            commands_differ();
        }
    } else if i == 1 {
        assert(erases_nothing(prepare_phase_plan().steps)) by {
            broadcast use group_all_steps;

            commands_differ();
        }
    } else if i == 2 {
        unconfirmed_operations_erase_nothing(cfg, layout, stack, true, "/"@);
    } else if i == 5 {
        assert(erases_nothing(bind_phase_plan(cfg, layout).steps)) by {
            broadcast use group_all_steps;

            commands_differ();
        }
    } else {
        opening_erases_nothing(cfg, layout, stack);
    }
}

proof fn wiping_spares_the_others(
    layout: LayoutModel,
    disks: Seq<Seq<char>>,
    parts: ReplaceParts,
)
    ensures
        spares_the_others(
            layout,
            disks,
            each(disks, |e: Seq<char>| wipe_disk(layout, parts, e)),
        ),
{
    broadcast use group_all_steps;

    options_are_no_devices();
    let p = |s: StepModel| erases_only(layout, disks, s);
    assert forall|d: Seq<char>| disks.contains(d) implies all_steps(
        #[trigger] wipe_disk(layout, parts, d),
        p,
    ) by {
        assert(node_of(layout, disks, layout.part(d, 1)));
        assert(node_of(layout, disks, layout.part(d, 2)));
        assert(node_of(layout, disks, layout.part(d, 3)));
    }
}

proof fn repartitioning_spares_the_others(
    layout: LayoutModel,
    disks: Seq<Seq<char>>,
    efi: bool,
    parts: ReplaceParts,
)
    ensures
        spares_the_others(
            layout,
            disks,
            each(disks, |d: Seq<char>| repartition_disk(efi, parts, d)),
        ),
{
    broadcast use group_all_steps;

    options_are_no_devices();
    let p = |s: StepModel| erases_only(layout, disks, s);
    assert forall|d: Seq<char>| disks.contains(d) implies all_steps(
        #[trigger] repartition_disk(efi, parts, d),
        p,
    ) by {
        assert(node_of(layout, disks, "/dev/"@ + d));
    }
}

proof fn preparing_the_root_erases_nothing(
    cfg: ConfigModel,
    layout: LayoutModel,
    stack: AnyStack,
)
    ensures
        erases_nothing(stack.partition_root_plan(cfg, layout)),
{
    broadcast use group_all_steps;

    commands_differ();
}

proof fn rebuilding_the_root_erases_nothing(
    cfg: ConfigModel,
    layout: LayoutModel,
    stack: AnyStack,
    disks: Seq<Seq<char>>,
)
    ensures
        erases_nothing(stack.replace_plan(cfg, layout, disks)),
{
    broadcast use group_all_steps;

    commands_differ();
}

proof fn reassembling_erases_nothing(
    cfg: ConfigModel,
    layout: LayoutModel,
    stack: AnyStack,
    disks: Seq<Seq<char>>,
    healthy: Seq<Seq<char>>,
    parts: ReplaceParts,
)
    ensures
        erases_nothing(replace_reassemble_plan(cfg, layout, stack, disks, healthy, parts)),
{
    broadcast use group_all_steps;

    commands_differ();
    rebuilding_the_root_erases_nothing(cfg, layout, stack, disks);
}

proof fn repopulating_erases_nothing(
    cfg: ConfigModel,
    layout: LayoutModel,
    stack: AnyStack,
    disks: Seq<Seq<char>>,
    survivor: Seq<char>,
    parts: ReplaceParts,
    swapped: bool,
)
    ensures
        erases_nothing(
            replace_bootloader_plan(cfg, layout, stack, disks, survivor, parts, swapped),
        ),
{
    let p = |s: StepModel| !erases(s);
    let none = Seq::<StepModel>::empty();
    let efi = cfg.efi();
    let tabs = if parts.root {
        none + swap_crypttab_plan(layout, stack, swapped)
    } else {
        none
    };
    assert(all_steps(tabs, p)) by {
        broadcast use group_all_steps;

        commands_differ();
    }
    let boot = repopulate_boot_plan(layout, disks, survivor, efi, parts);
    cloning_erases_nothing(layout, disks, survivor, efi, parts);
    all_of_both(tabs, boot, p);
    let mounts = boot_mount_steps_plan(layout, "/"@, efi);
    assert(all_steps(mounts, p)) by {
        broadcast use group_all_steps;

        commands_differ();
    }
    all_of_both(tabs + boot, mounts, p);
    let checks = verify_bootloaders_plan(layout, efi && parts.esp, parts.boot);
    verifying_erases_nothing(layout, efi && parts.esp, parts.boot);
    all_of_both(tabs + boot, checks, p);
    all_of_both(tabs + boot + mounts, checks, p);
}

proof fn cloning_erases_nothing(
    layout: LayoutModel,
    disks: Seq<Seq<char>>,
    survivor: Seq<char>,
    efi: bool,
    parts: ReplaceParts,
)
    ensures
        erases_nothing(repopulate_boot_plan(layout, disks, survivor, efi, parts)),
{
    broadcast use group_all_steps;

    commands_differ();
}

proof fn verifying_erases_nothing(layout: LayoutModel, esp: bool, boot: bool)
    ensures
        erases_nothing(verify_bootloaders_plan(layout, esp, boot)),
{
    broadcast use group_all_steps;

    commands_differ();
}

/// A replace erases the disks that it rebuilds and nothing else: not the survivors, and
/// not the old disks of a swap.
pub proof fn replace_erases_only_the_rebuilt_disks(
    cfg: ConfigModel,
    layout: LayoutModel,
    stack: AnyStack,
    disks: Seq<Seq<char>>,
    parts: ReplaceParts,
    old_disks: Option<Seq<Seq<char>>>,
    i: int,
)
    requires
        0 <= i < replace_plan(cfg, layout, stack, disks, parts, old_disks).len(),
    ensures
        spares_the_others(
            layout,
            disks,
            replace_plan(cfg, layout, stack, disks, parts, old_disks)[i].steps,
        ),
{
    let p = |s: StepModel| erases_only(layout, disks, s);
    let plan = replace_plan(cfg, layout, stack, disks, parts, old_disks);
    let efi = cfg.efi();
    let healthy = survivors(layout.members, disks);
    let gone = leaving(disks, old_disks);
    let swapped = old_disks is Some;
    let none = Seq::<Seq<char>>::empty();
    if i == 0 {
        let head = replace_remove_plan(cfg, layout, stack, gone, none, healthy[0], parts);
        let tail = each(disks, |e: Seq<char>| wipe_disk(layout, parts, e));
        a_swap_never_wipes_the_old_disks(cfg, layout, stack, gone, disks, healthy[0], parts);
        nothing_spares_all(layout, disks, head);
        wiping_spares_the_others(layout, disks, parts);
        all_of_both(head, tail, p);
        assert(plan[0].steps == head + tail);
    } else if i == 1 {
        partitioning_spares_the_others(cfg, layout, stack, disks, healthy, parts);
        assert(plan[1].steps == replace_partition_plan(
            cfg,
            layout,
            stack,
            disks,
            healthy,
            parts,
        ));
    } else if i == 2 {
        reassembling_erases_nothing(cfg, layout, stack, disks, healthy, parts);
        nothing_spares_all(
            layout,
            disks,
            replace_reassemble_plan(cfg, layout, stack, disks, healthy, parts),
        );
    } else {
        repopulating_erases_nothing(cfg, layout, stack, disks, healthy[0], parts, swapped);
        nothing_spares_all(
            layout,
            disks,
            replace_bootloader_plan(cfg, layout, stack, disks, healthy[0], parts, swapped),
        );
    }
}

proof fn partitioning_spares_the_others(
    cfg: ConfigModel,
    layout: LayoutModel,
    stack: AnyStack,
    disks: Seq<Seq<char>>,
    healthy: Seq<Seq<char>>,
    parts: ReplaceParts,
)
    ensures
        spares_the_others(
            layout,
            disks,
            replace_partition_plan(cfg, layout, stack, disks, healthy, parts),
        ),
{
    broadcast use group_all_steps;

    let p = |s: StepModel| erases_only(layout, disks, s);
    let efi = cfg.efi();
    let esps = each(disks, |e: Seq<char>| recreate_esp(layout, healthy, e));
    let root = stack.partition_root_plan(cfg, layout.subset(disks));
    preparing_the_root_erases_nothing(cfg, layout.subset(disks), stack);
    repartitioning_spares_the_others(layout, disks, efi, parts);
    assert(erases_nothing(esps)) by {
        commands_differ();
    }
    nothing_spares_all(layout, disks, esps);
    nothing_spares_all(layout, disks, root);
}

/// A replace of the boot layers alone never needs the password.
pub proof fn a_boot_replace_needs_no_password<S: Stack>(
    cfg: ConfigModel,
    layout: LayoutModel,
    stack: S,
    disks: Seq<Seq<char>>,
    parts: ReplaceParts,
    old_disks: Option<Seq<Seq<char>>>,
    i: int,
)
    requires
        !parts.root,
        0 <= i < replace_plan(cfg, layout, stack, disks, parts, old_disks).len(),
    ensures
        open_to_all(replace_plan(cfg, layout, stack, disks, parts, old_disks)[i].steps),
{
    let healthy = survivors(layout.members, disks);
    let gone = leaving(disks, old_disks);
    let swapped = old_disks is Some;
    let plan = replace_plan(cfg, layout, stack, disks, parts, old_disks);
    if i == 0 {
        detaching_a_boot_is_open(cfg, layout, stack, gone, disks, healthy[0], parts);
    } else if i == 1 {
        recreating_a_boot_is_open(cfg, layout, stack, disks, healthy, parts);
    } else if i == 2 {
        reassembling_a_boot_is_open(cfg, layout, stack, disks, healthy, parts);
    } else {
        repopulating_a_boot_is_open(cfg, layout, stack, disks, healthy[0], parts, swapped);
    }
}

proof fn detaching_a_boot_is_open<S: Stack>(
    cfg: ConfigModel,
    layout: LayoutModel,
    stack: S,
    gone: Seq<Seq<char>>,
    disks: Seq<Seq<char>>,
    survivor: Seq<char>,
    parts: ReplaceParts,
)
    requires
        !parts.root,
    ensures
        open_to_all(replace_remove_plan(cfg, layout, stack, gone, disks, survivor, parts)),
{
    broadcast use group_all_steps;

}

proof fn recreating_a_boot_is_open<S: Stack>(
    cfg: ConfigModel,
    layout: LayoutModel,
    stack: S,
    disks: Seq<Seq<char>>,
    healthy: Seq<Seq<char>>,
    parts: ReplaceParts,
)
    requires
        !parts.root,
    ensures
        open_to_all(replace_partition_plan(cfg, layout, stack, disks, healthy, parts)),
{
    broadcast use group_all_steps;

}

proof fn reassembling_a_boot_is_open<S: Stack>(
    cfg: ConfigModel,
    layout: LayoutModel,
    stack: S,
    disks: Seq<Seq<char>>,
    healthy: Seq<Seq<char>>,
    parts: ReplaceParts,
)
    requires
        !parts.root,
    ensures
        open_to_all(replace_reassemble_plan(cfg, layout, stack, disks, healthy, parts)),
{
    broadcast use group_all_steps;

}

proof fn repopulating_a_boot_is_open<S: Stack>(
    cfg: ConfigModel,
    layout: LayoutModel,
    stack: S,
    disks: Seq<Seq<char>>,
    survivor: Seq<char>,
    parts: ReplaceParts,
    swapped: bool,
)
    requires
        !parts.root,
    ensures
        open_to_all(replace_bootloader_plan(cfg, layout, stack, disks, survivor, parts, swapped)),
{
    broadcast use group_all_steps;

}

/// The mirrors are synced last in an install: whatever rebuilds the initramfs or writes
/// the manifest comes before, so every mirror gets the final copy. Only the verification
/// of each member's bootloader comes behind.
pub proof fn mirrors_are_synced_last<S: Stack>(
    cfg: ConfigModel,
    layout: LayoutModel,
    stack: S,
    raiden_bin: Option<Seq<char>>,
    manifest: Seq<char>,
)
    requires
        !layout.boot_raid() || cfg.efi(),
    ensures
        ({
            let s = finish_phase_plan(cfg, layout, stack, raiden_bin, manifest).steps;
            let checks = verify_bootloaders_plan(layout, cfg.efi(), true);
            let n = s.len() - checks.len();
            &&& s.skip(n) == checks
            &&& cfg.efi() ==> s[n - 1] == efi_mirror_sync_step_plan()
            &&& !cfg.efi() ==> s[n - 1] == boot_mirror_sync_step_plan()
            &&& cfg.efi() && !layout.boot_raid() ==> s[n - 2] == boot_mirror_sync_step_plan()
        }),
{
    let s = finish_phase_plan(cfg, layout, stack, raiden_bin, manifest).steps;
    let checks = verify_bootloaders_plan(layout, cfg.efi(), true);
    assert(s.skip(s.len() - checks.len()) =~= checks);
}

proof fn each_holds_the_steps_of(
    v: Seq<Seq<char>>,
    f: spec_fn(Seq<char>) -> Seq<StepModel>,
    i: int,
    s: StepModel,
)
    requires
        0 <= i < v.len(),
        f(v[i]) == seq![s],
    ensures
        each(v, f).contains(s),
    decreases v.len(),
{
    let rest = each(v.drop_last(), f);
    let all = each(v, f);
    if i < v.len() - 1 {
        assert(v.drop_last()[i] == v[i]);
        each_holds_the_steps_of(v.drop_last(), f, i, s);
        let k = choose|k: int| 0 <= k < rest.len() && rest[k] == s;
        assert(all[k] == s);
    } else {
        assert(v.last() == v[i]);
        assert(all[rest.len() as int] == s);
    }
}

/// Whether a list of steps ends with another.
pub open spec fn ends_with(v: Seq<StepModel>, end: Seq<StepModel>) -> bool {
    v.len() >= end.len() && v.skip(v.len() - end.len()) == end
}

/// Every member's own bootloader is verified, by a step whose failure is not ignored:
/// shim and grub on its esp, and the marker on its independent /boot.
pub proof fn every_member_is_verified(layout: LayoutModel, esp: bool, boot: bool, i: int)
    requires
        0 <= i < layout.members.len(),
    ensures
        ({
            let s = verify_bootloaders_plan(layout, esp, boot);
            let on_esp = verify_marker_step_plan(
                layout.part(layout.members[i], 1),
                seq![SHIM_FILE@].push(GRUB_FILE@),
            );
            let on_boot = verify_marker_step_plan(
                layout.part(layout.members[i], 2),
                seq![BOOT_MARKER@],
            );
            &&& esp ==> s.contains(on_esp) && !forgiving(on_esp)
            &&& boot && !layout.boot_raid() ==> s.contains(on_boot) && !forgiving(on_boot)
        }),
{
    let s = verify_bootloaders_plan(layout, esp, boot);
    let esp_markers = seq![SHIM_FILE@].push(GRUB_FILE@);
    let boot_markers = seq![BOOT_MARKER@];
    let f = |d: Seq<char>| verify_partition(d, esp_markers);
    let g = |e: Seq<char>| verify_partition(e, boot_markers);
    let on_esp = verify_marker_step_plan(layout.part(layout.members[i], 1), esp_markers);
    let on_boot = verify_marker_step_plan(layout.part(layout.members[i], 2), boot_markers);
    let esps = each(layout.esp_devices(), f);
    let boots = each(layout.boot_devices(), g);
    if esp {
        each_holds_the_steps_of(layout.esp_devices(), f, i, on_esp);
        let k = choose|k: int| 0 <= k < esps.len() && esps[k] == on_esp;
        assert(s[k] == on_esp);
    }
    if boot && !layout.boot_raid() {
        each_holds_the_steps_of(layout.boot_devices(), g, i, on_boot);
        let k = choose|k: int| 0 <= k < boots.len() && boots[k] == on_boot;
        assert(s[s.len() - boots.len() + k] == on_boot);
    }
}

pub broadcast proof fn ends_with_what_is_appended(a: Seq<StepModel>, b: Seq<StepModel>)
    ensures
        #[trigger] ends_with(a + b, b),
{
    assert((a + b).skip(a.len() as int) =~= b);
}

/// An install ends with the verification of every member, in its last phase before the
/// target is closed.
pub proof fn an_install_ends_with_the_verification<S: Stack>(
    cfg: ConfigModel,
    layout: LayoutModel,
    stack: S,
    staging: Staging,
)
    ensures
        ({
            let plan = install_plan(cfg, layout, stack, staging);
            ends_with(
                plan[plan.len() - 2].steps,
                verify_bootloaders_plan(layout, cfg.efi(), true),
            )
        }),
{
    let bin = opt_text(staging.raiden_bin);
    let done = finish_phase_plan(cfg, layout, stack, bin, staging.manifest@);
    let plan = install_plan(cfg, layout, stack, staging);
    assert(plan[plan.len() - 2] == done);
    finishing_ends_with_the_verification(cfg, layout, stack, bin, staging.manifest@);
}

proof fn finishing_ends_with_the_verification<S: Stack>(
    cfg: ConfigModel,
    layout: LayoutModel,
    stack: S,
    raiden_bin: Option<Seq<char>>,
    manifest: Seq<char>,
)
    ensures
        ends_with(
            finish_phase_plan(cfg, layout, stack, raiden_bin, manifest).steps,
            verify_bootloaders_plan(layout, cfg.efi(), true),
        ),
{
    broadcast use ends_with_what_is_appended;

}

/// A replace that rebuilds a boot layer ends with the verification of that layer on
/// every member.
pub proof fn a_replace_ends_with_the_verification<S: Stack>(
    cfg: ConfigModel,
    layout: LayoutModel,
    stack: S,
    disks: Seq<Seq<char>>,
    parts: ReplaceParts,
    old_disks: Option<Seq<Seq<char>>>,
)
    requires
        parts.esp || parts.boot,
    ensures
        ends_with(
            replace_plan(cfg, layout, stack, disks, parts, old_disks).last().steps,
            verify_bootloaders_plan(layout, cfg.efi() && parts.esp, parts.boot),
        ),
{
    let healthy = survivors(layout.members, disks);
    let swapped = old_disks is Some;
    repopulating_ends_with_the_verification(
        cfg,
        layout,
        stack,
        disks,
        healthy[0],
        parts,
        swapped,
    );
    let boot = replace_bootloader_plan(cfg, layout, stack, disks, healthy[0], parts, swapped);
    assert(replace_plan(cfg, layout, stack, disks, parts, old_disks).last().steps == boot);
}

proof fn repopulating_ends_with_the_verification<S: Stack>(
    cfg: ConfigModel,
    layout: LayoutModel,
    stack: S,
    disks: Seq<Seq<char>>,
    survivor: Seq<char>,
    parts: ReplaceParts,
    swapped: bool,
)
    requires
        parts.esp || parts.boot,
    ensures
        ({
            let boot = replace_bootloader_plan(cfg, layout, stack, disks, survivor, parts, swapped);
            let checks = verify_bootloaders_plan(layout, cfg.efi() && parts.esp, parts.boot);
            ends_with(boot, checks) && boot.len() > 0
        }),
{
    broadcast use ends_with_what_is_appended;

    assert(boot_mount_steps_plan(layout, "/"@, cfg.efi()).len() > 0);
}

} // verus!
