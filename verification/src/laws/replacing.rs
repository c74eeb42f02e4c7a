//! What a replace does to the disks that it rebuilds, and to no others.
use vstd::prelude::*;
use vstd::string::*;

use crate::config::ConfigModel;
use crate::efi::{mkfs_esp_words, SHIM_FILE};
use crate::laws::effects::{
    begins_with_its_head, command, formats_a_layer, group_some_steps, opens_integrity, runs,
    runs_to, script, some_of_both, some_of_push, some_step, unlocks, words,
};
use crate::laws::members::{
    every_member_is_prepared, members_are_prepared_in_order, prepares_in_order, prepares_root,
};
use crate::laws::opening::{mapping_of, opens_a_member};
use crate::laws::{all_steps, forgiving, group_all_steps};
use crate::layout::LayoutModel;
use crate::ops::{
    attach, boot_detach_plan, clone_boot, clone_script, find_uuid, guarded_copy, leaving,
    partition_replacements_plan, readd_boot, recreate_esp, recreate_esp_step_plan, reformat_boot,
    reformat_boot_step_plan, reinstall_grub, relocate_boot_step_plan, repartition_disk,
    replace_bootloader_plan, replace_partition_plan, replace_plan, replace_reassemble_plan,
    replace_remove_plan, repopulate_esp, survivors, swap_crypttab_plan, unmount_esp,
    verify_bootloaders_plan, verify_partition, wipe_disk, BOOT_MARKER, ReplaceParts,
};
use crate::pipeline::{boot_mount_steps_plan, mount_first_plan};
use crate::stack::{
    create_root_partition, create_root_partitions_plan, crypt_format_disk, crypt_open_disk,
    crypt_preserve_uuid_plan, md_remove_disk, md_remove_teardown, md_replace_disk, AnyStack, Layer,
    Stack,
};
use crate::stack::md_integrity::{
    integrity_format_disk, integrity_format_disks_plan, integrity_open_disk,
    integrity_open_disks_plan,
};
use crate::step::{each, sh_step, StepModel};
use crate::text::{dec, has_prefix, has_suffix, holds, joined, stands_at};

verus! {

/// Whether a device belongs to one of the disks, in one of the layers.
pub open spec fn in_scope(
    layout: LayoutModel,
    disks: Seq<Seq<char>>,
    parts: ReplaceParts,
    x: Seq<char>,
) -> bool {
    exists|d: Seq<char>| #[trigger]
        disks.contains(d) && {
            ||| parts.esp && x == layout.part(d, 1)
            ||| parts.boot && x == layout.part(d, 2)
            ||| parts.root && (x == layout.part(d, 3) || x == layout.crypt_device(d) || x
                == layout.int_device_of(d))
        }
}

/// Whether a device is one of the disks.
pub open spec fn whole_disk(disks: Seq<Seq<char>>, x: Seq<char>) -> bool {
    exists|d: Seq<char>| #[trigger] disks.contains(d) && x == "/dev/"@ + d
}

/// What a partition table may be asked for where these layers are rebuilt.
pub open spec fn tables_allowed(parts: ReplaceParts, w: Seq<char>) -> bool {
    ||| parts.esp && parts.boot && parts.root && w == "--zap-all"@
    ||| parts.esp && (w == "-d1"@ || w == "-n1:1M:+512M"@ || w == "-n1:1M:+16M"@)
    ||| parts.boot && (w == "-d2"@ || w == "-n2:0:+512M"@)
    ||| parts.root && w == "-d3"@
}

/// The end of a script that makes an esp, with the uuid that was found or without.
pub open spec fn makes_esp(esp: Seq<char>) -> Seq<char> {
    "if [ -n \"$uuid\" ]; then mkfs.msdos -F 32 -s 1 -n EFI -i \"$(echo $uuid | tr -d -)\" "@ + esp
        + "; else mkfs.msdos -F 32 -s 1 -n EFI "@ + esp + "; fi"@
}

/// The end of a script that makes a /boot, with the uuid that was found or without.
pub open spec fn makes_boot(boot: Seq<char>) -> Seq<char> {
    "if [ -n \"$uuid\" ]; then mkfs.ext4 -m 0 -F -U \"$uuid\" -L boot "@ + boot
        + "; else mkfs.ext4 -m 0 -F -L boot "@ + boot + "; fi"@
}

/// The part of a script that fills a partition.
pub open spec fn fills(dev: Seq<char>) -> Seq<char> {
    " && mount "@ + dev + " \"$y\" && rsync "@
}

/// Whether a script writes to one of the disks, in one of the layers.
pub open spec fn script_in_scope(
    layout: LayoutModel,
    disks: Seq<Seq<char>>,
    parts: ReplaceParts,
    t: Seq<char>,
) -> bool {
    exists|d: Seq<char>| #[trigger]
        disks.contains(d) && {
            ||| parts.root && has_suffix(
                t,
                " - 1 )); sgdisk -n3:0:$end -t3:8301 "@ + ("/dev/"@ + d),
            )
            ||| parts.root && has_suffix(t, layout.part(d, 3) + " --uuid \"$uuid\"; fi"@)
            ||| parts.esp && has_suffix(t, makes_esp(layout.part(d, 1)))
            ||| parts.boot && has_suffix(t, makes_boot(layout.part(d, 2)))
            ||| parts.esp && holds(t, fills(layout.part(d, 1)))
            ||| parts.boot && holds(t, fills(layout.part(d, 2)))
        }
}

/// Whether a script is one of those that only mount, look, or write the crypttab.
pub open spec fn script_spares_disks(t: Seq<char>) -> bool {
    ||| has_prefix(t, "mountpoint -q "@)
    ||| has_prefix(t, "src=$(findmnt -no SOURCE /boot "@)
    ||| has_prefix(t, "x=$(mktemp -d); { mount -o ro "@)
    ||| has_prefix(t, "{\n"@)
}

/// Whether whatever a step wipes, partitions, formats, stamps, opens, adds to an array,
/// fills or makes bootable belongs to one of the disks, in one of the layers.
pub open spec fn keeps_to(
    layout: LayoutModel,
    disks: Seq<Seq<char>>,
    parts: ReplaceParts,
    s: StepModel,
) -> bool {
    let w = command(s);
    let n = w.len() as int;
    &&& runs(s, "wipefs"@) ==> n == 3 && w[1] == "-a"@ && in_scope(layout, disks, parts, w[2])
    &&& runs(s, "sgdisk"@) ==> n >= 3 && whole_disk(disks, w[n - 1]) && tables_allowed(parts, w[1])
    &&& formats_a_layer()(s) ==> in_scope(layout, disks, parts, w[n - 1])
    &&& unlocks()(s) || opens_integrity()(s) ==> n > 3 && in_scope(layout, disks, parts, w[n - 2])
    &&& runs_to(s, "mdadm"@, "--add"@) || runs_to(s, "mdadm"@, "--zero-superblock"@) || runs_to(
        s,
        "zpool"@,
        "replace"@,
    ) ==> in_scope(layout, disks, parts, w[n - 1])
    &&& runs_to(s, "btrfs"@, "device"@) && w[2] == "add"@ ==> in_scope(layout, disks, parts, w[3])
    &&& runs_to(s, "bcachefs"@, "device"@) && w[2] == "add"@ ==> in_scope(
        layout,
        disks,
        parts,
        w[n - 1],
    )
    &&& runs(s, "grub-install"@) ==> whole_disk(disks, w[n - 1])
    &&& runs(s, "efibootmgr"@) ==> n > 4 && w[3] == "-d"@ && whole_disk(disks, w[4])
    &&& !runs(s, "mkfs.ext4"@) && !runs(s, "mkfs.xfs"@) && !runs(s, "mkfs.msdos"@) && !runs(
        s,
        "mkfs.btrfs"@,
    ) && !runs(s, "mkfs.bcachefs"@)
    &&& !runs_to(s, "zpool"@, "create"@) && !runs_to(s, "zpool"@, "destroy"@)
    &&& runs(s, "sh"@) ==> script_in_scope(layout, disks, parts, script(s)) || script_spares_disks(
        script(s),
    )
}

/// Whether all steps keep to the disks and the layers.
pub open spec fn all_keep_to(
    layout: LayoutModel,
    disks: Seq<Seq<char>>,
    parts: ReplaceParts,
    v: Seq<StepModel>,
) -> bool {
    all_steps(v, |s: StepModel| keeps_to(layout, disks, parts, s))
}

// ------------------------------------------------------------------ remove

proof fn detaching_boot_keeps(
    layout: LayoutModel,
    disks: Seq<Seq<char>>,
    parts: ReplaceParts,
    gone: Seq<Seq<char>>,
)
    ensures
        all_keep_to(layout, disks, parts, boot_detach_plan(layout, gone)),
        all_keep_to(
            layout,
            disks,
            parts,
            each(gone, |d: Seq<char>| unmount_esp(layout, d)),
        ),
{
    broadcast use group_all_steps;

    words();
}

proof fn detaching_root_keeps(
    cfg: ConfigModel,
    layout: LayoutModel,
    stack: AnyStack,
    disks: Seq<Seq<char>>,
    parts: ReplaceParts,
    gone: Seq<Seq<char>>,
)
    ensures
        all_keep_to(layout, disks, parts, stack.remove_plan(cfg, layout, gone)),
{
    broadcast use group_all_steps;

    words();
}

proof fn relocating_keeps(
    layout: LayoutModel,
    disks: Seq<Seq<char>>,
    parts: ReplaceParts,
    gone: Seq<Seq<char>>,
    survivor: Seq<char>,
)
    ensures
        keeps_to(layout, disks, parts, relocate_boot_step_plan(layout, gone, survivor)),
{
    words();
    let s = relocate_boot_step_plan(layout, gone, survivor);
    let replaced = joined(layout.subset(gone).boot_devices(), " "@);
    let head = "src=$(findmnt -no SOURCE /boot 2>/dev/null || true); for r in "@;
    let a = "src=$(findmnt -no SOURCE /boot "@;
    reveal_strlit("src=$(findmnt -no SOURCE /boot 2>/dev/null || true); for r in ");
    reveal_strlit("src=$(findmnt -no SOURCE /boot ");
    let t = script(s);
    assert(t.take(head.len() as int) =~= head);
    assert(t.take(a.len() as int) =~= a);
}

proof fn wiping_keeps(layout: LayoutModel, disks: Seq<Seq<char>>, parts: ReplaceParts)
    ensures
        all_keep_to(
            layout,
            disks,
            parts,
            each(disks, |e: Seq<char>| wipe_disk(layout, parts, e)),
        ),
{
    broadcast use group_all_steps;

    words();
    let p = |s: StepModel| keeps_to(layout, disks, parts, s);
    assert forall|d: Seq<char>| disks.contains(d) implies all_steps(
        #[trigger] wipe_disk(layout, parts, d),
        p,
    ) by {
        assert(parts.esp ==> in_scope(layout, disks, parts, layout.part(d, 1)));
        assert(parts.boot ==> in_scope(layout, disks, parts, layout.part(d, 2)));
        assert(parts.root ==> in_scope(layout, disks, parts, layout.part(d, 3)));
    }
}

proof fn removing_keeps(
    cfg: ConfigModel,
    layout: LayoutModel,
    stack: AnyStack,
    gone: Seq<Seq<char>>,
    disks: Seq<Seq<char>>,
    survivor: Seq<char>,
    parts: ReplaceParts,
)
    ensures
        all_keep_to(
            layout,
            disks,
            parts,
            replace_remove_plan(cfg, layout, stack, gone, disks, survivor, parts),
        ),
{
    broadcast use group_all_steps;

    words();
    detaching_boot_keeps(layout, disks, parts, gone);
    detaching_root_keeps(cfg, layout, stack, disks, parts, gone);
    relocating_keeps(layout, disks, parts, gone, survivor);
    wiping_keeps(layout, disks, parts);
}

// --------------------------------------------------------------- partition

/// How a partition is named where it is to be deleted.
pub proof fn numbers_of_partitions()
    ensures
        "-d"@ + dec(1) == "-d1"@,
        "-d"@ + dec(2) == "-d2"@,
        "-d"@ + dec(3) == "-d3"@,
{
    reveal_strlit("-d");
    reveal_strlit("-d1");
    reveal_strlit("-d2");
    reveal_strlit("-d3");
    assert("-d"@ + dec(1) =~= "-d1"@);
    assert("-d"@ + dec(2) =~= "-d2"@);
    assert("-d"@ + dec(3) =~= "-d3"@);
}

proof fn repartitioning_keeps(
    layout: LayoutModel,
    disks: Seq<Seq<char>>,
    efi: bool,
    parts: ReplaceParts,
)
    ensures
        all_keep_to(
            layout,
            disks,
            parts,
            each(disks, |d: Seq<char>| repartition_disk(efi, parts, d)),
        ),
{
    broadcast use group_all_steps;

    words();
    numbers_of_partitions();
    let p = |s: StepModel| keeps_to(layout, disks, parts, s);
    assert forall|d: Seq<char>| disks.contains(d) implies all_steps(
        #[trigger] repartition_disk(efi, parts, d),
        p,
    ) by {
        assert(whole_disk(disks, "/dev/"@ + d));
    }
}

/// The command that makes an esp, as a script writes it.
pub proof fn the_words_of_an_esp(esp: Seq<char>)
    ensures
        joined(mkfs_esp_words(esp, None), " "@) == "mkfs.msdos -F 32 -s 1 -n EFI "@ + esp,
        joined(mkfs_esp_words(esp, Some("\"$(echo $uuid | tr -d -)\""@)), " "@)
            == "mkfs.msdos -F 32 -s 1 -n EFI -i \"$(echo $uuid | tr -d -)\" "@ + esp,
        joined(mkfs_esp_words(esp, Some("\"$u\""@)), " "@)
            == "mkfs.msdos -F 32 -s 1 -n EFI -i \"$u\" "@ + esp,
{
    reveal_strlit("mkfs.msdos");
    reveal_strlit("-F");
    reveal_strlit("32");
    reveal_strlit("-s");
    reveal_strlit("1");
    reveal_strlit("-n");
    reveal_strlit("EFI");
    reveal_strlit("-i");
    reveal_strlit(" ");
    reveal_strlit("\"$(echo $uuid | tr -d -)\"");
    reveal_strlit("\"$u\"");
    reveal_strlit("mkfs.msdos -F 32 -s 1 -n EFI ");
    reveal_strlit("mkfs.msdos -F 32 -s 1 -n EFI -i \"$(echo $uuid | tr -d -)\" ");
    reveal_strlit("mkfs.msdos -F 32 -s 1 -n EFI -i \"$u\" ");
    reveal_with_fuel(joined, 11);
    let base = seq!["mkfs.msdos"@, "-F"@, "32"@, "-s"@, "1"@, "-n"@, "EFI"@];
    let sp = " "@;
    let b7 = joined(base, sp);
    assert(base.drop_last() =~= seq!["mkfs.msdos"@, "-F"@, "32"@, "-s"@, "1"@, "-n"@]);
    assert(seq!["mkfs.msdos"@, "-F"@, "32"@, "-s"@, "1"@, "-n"@].drop_last() =~= seq![
        "mkfs.msdos"@,
        "-F"@,
        "32"@,
        "-s"@,
        "1"@,
    ]);
    assert(seq!["mkfs.msdos"@, "-F"@, "32"@, "-s"@, "1"@].drop_last() =~= seq![
        "mkfs.msdos"@,
        "-F"@,
        "32"@,
        "-s"@,
    ]);
    assert(seq!["mkfs.msdos"@, "-F"@, "32"@, "-s"@].drop_last() =~= seq![
        "mkfs.msdos"@,
        "-F"@,
        "32"@,
    ]);
    assert(seq!["mkfs.msdos"@, "-F"@, "32"@].drop_last() =~= seq!["mkfs.msdos"@, "-F"@]);
    assert(seq!["mkfs.msdos"@, "-F"@].drop_last() =~= seq!["mkfs.msdos"@]);
    let j2 = joined(seq!["mkfs.msdos"@, "-F"@], sp);
    assert(j2 == "mkfs.msdos"@ + sp + "-F"@);
    let j3 = joined(seq!["mkfs.msdos"@, "-F"@, "32"@], sp);
    assert(j3 == j2 + sp + "32"@);
    let j4 = joined(seq!["mkfs.msdos"@, "-F"@, "32"@, "-s"@], sp);
    assert(j4 == j3 + sp + "-s"@);
    let j5 = joined(seq!["mkfs.msdos"@, "-F"@, "32"@, "-s"@, "1"@], sp);
    assert(j5 == j4 + sp + "1"@);
    let j6 = joined(seq!["mkfs.msdos"@, "-F"@, "32"@, "-s"@, "1"@, "-n"@], sp);
    assert(j6 == j5 + sp + "-n"@);
    assert(b7 == j6 + sp + "EFI"@);
    assert(b7 + sp =~= "mkfs.msdos -F 32 -s 1 -n EFI "@);
    assert(base.push(esp).drop_last() =~= base);
    assert(joined(base.push(esp), sp) == b7 + sp + esp);
    let i8 = base.push("-i"@);
    assert(i8.drop_last() =~= base);
    assert(joined(i8, sp) == b7 + sp + "-i"@);
    let found = "\"$(echo $uuid | tr -d -)\""@;
    let i9 = i8.push(found);
    assert(i9.drop_last() =~= i8);
    assert(joined(i9, sp) == b7 + sp + "-i"@ + sp + found);
    assert(i9.push(esp).drop_last() =~= i9);
    assert(joined(i9.push(esp), sp) == joined(i9, sp) + sp + esp);
    assert(joined(i9, sp) + sp
        =~= "mkfs.msdos -F 32 -s 1 -n EFI -i \"$(echo $uuid | tr -d -)\" "@);
    let shared = "\"$u\""@;
    let u9 = i8.push(shared);
    assert(u9.drop_last() =~= i8);
    assert(joined(u9, sp) == b7 + sp + "-i"@ + sp + shared);
    assert(u9.push(esp).drop_last() =~= u9);
    assert(joined(u9.push(esp), sp) == joined(u9, sp) + sp + esp);
    assert(joined(u9, sp) + sp =~= "mkfs.msdos -F 32 -s 1 -n EFI -i \"$u\" "@);
}

/// Whether a script first looks for the uuid that a mount has in the fstab, and then for
/// the one that these devices share.
pub open spec fn looks_for_uuid(t: Seq<char>, mount: Seq<char>, devices: Seq<Seq<char>>) -> bool {
    has_prefix(
        t,
        "uuid=$(awk '$2==\""@ + mount
            + "\" {print $1}' /etc/fstab | sed 's/^UUID=//'); for d in "@ + joined(devices, " "@)
            + "; do [ -n \"$uuid\" ] && break; uuid=$(blkid -s UUID -o value \"$d\" 2>/dev/null); done; "@,
    )
}

/// An esp is made anew by one script, with the uuid of the others where it is found.
pub proof fn an_esp_is_recreated(layout: LayoutModel, healthy: Seq<Seq<char>>, e: Seq<char>)
    ensures
        ({
            let s = recreate_esp_step_plan(
                layout.part(e, 1),
                layout.subset(healthy).esp_devices(),
            );
            &&& recreate_esp(layout, healthy, e) == seq![s]
            &&& has_suffix(script(s), makes_esp(layout.part(e, 1)))
            &&& looks_for_uuid(
                script(s),
                "/boot/efi"@,
                Seq::new(healthy.len(), |k: int| layout.part(healthy[k], 1)),
            )
            &&& runs(s, "sh"@) && !forgiving(s)
        }),
{
    words();
    let esp = layout.part(e, 1);
    let others = layout.subset(healthy).esp_devices();
    let s = recreate_esp_step_plan(esp, others);
    the_words_of_an_esp(esp);
    let t = script(s);
    let a = "if [ -n \"$uuid\" ]; then "@;
    let b = "mkfs.msdos -F 32 -s 1 -n EFI -i \"$(echo $uuid | tr -d -)\" "@;
    let c = "; else "@;
    let m = "mkfs.msdos -F 32 -s 1 -n EFI "@;
    let head = find_uuid("/boot/efi"@, others);
    assert(t == head + a + (b + esp) + c + (m + esp) + "; fi"@);
    reveal_strlit("if [ -n \"$uuid\" ]; then ");
    reveal_strlit("mkfs.msdos -F 32 -s 1 -n EFI -i \"$(echo $uuid | tr -d -)\" ");
    reveal_strlit("; else ");
    reveal_strlit("mkfs.msdos -F 32 -s 1 -n EFI ");
    reveal_strlit("if [ -n \"$uuid\" ]; then mkfs.msdos -F 32 -s 1 -n EFI -i \"$(echo $uuid | tr -d -)\" ");
    reveal_strlit("; else mkfs.msdos -F 32 -s 1 -n EFI ");
    assert(a + b
        =~= "if [ -n \"$uuid\" ]; then mkfs.msdos -F 32 -s 1 -n EFI -i \"$(echo $uuid | tr -d -)\" "@);
    assert(c + m =~= "; else mkfs.msdos -F 32 -s 1 -n EFI "@);
    assert(t =~= head + ((a + b) + esp + (c + m) + esp + "; fi"@));
    assert(t.skip(head.len() as int) =~= makes_esp(esp));
    assert(t.take(head.len() as int) =~= head);
    assert(others =~= Seq::new(healthy.len(), |k: int| layout.part(healthy[k], 1)));
}

proof fn recreating_keeps(
    layout: LayoutModel,
    disks: Seq<Seq<char>>,
    healthy: Seq<Seq<char>>,
    parts: ReplaceParts,
)
    requires
        parts.esp,
    ensures
        all_keep_to(
            layout,
            disks,
            parts,
            each(disks, |e: Seq<char>| recreate_esp(layout, healthy, e)),
        ),
{
    broadcast use group_all_steps;

    words();
    let p = |s: StepModel| keeps_to(layout, disks, parts, s);
    assert forall|d: Seq<char>| disks.contains(d) implies all_steps(
        #[trigger] recreate_esp(layout, healthy, d),
        p,
    ) by {
        an_esp_is_recreated(layout, healthy, d);
        let s = recreate_esp_step_plan(layout.part(d, 1), layout.subset(healthy).esp_devices());
        assert(script_in_scope(layout, disks, parts, script(s)));
        assert(p(s));
    }
}

proof fn creating_keeps(
    cfg: ConfigModel,
    layout: LayoutModel,
    disks: Seq<Seq<char>>,
    parts: ReplaceParts,
)
    requires
        parts.root,
    ensures
        all_keep_to(layout, disks, parts, create_root_partitions_plan(cfg, layout.subset(disks))),
{
    broadcast use group_all_steps;

    words();
    let p = |s: StepModel| keeps_to(layout, disks, parts, s);
    assert forall|d: Seq<char>| disks.contains(d) implies all_steps(
        #[trigger] create_root_partition(cfg, d),
        p,
    ) by {
        let s = create_root_partition(cfg, d)[0];
        let t = script(s);
        let end = " - 1 )); sgdisk -n3:0:$end -t3:8301 "@ + ("/dev/"@ + d);
        assert(t.skip(t.len() - end.len()) =~= end);
        assert(script_in_scope(layout, disks, parts, t));
    }
}

proof fn crypt_formatting_keeps(
    cfg: ConfigModel,
    layout: LayoutModel,
    disks: Seq<Seq<char>>,
    parts: ReplaceParts,
)
    requires
        parts.root,
    ensures
        all_keep_to(
            layout,
            disks,
            parts,
            crate::stack::crypt_format_disks_plan(cfg, layout.subset(disks)),
        ),
        all_keep_to(
            layout,
            disks,
            parts,
            crate::stack::crypt_open_disks_plan(layout.subset(disks)),
        ),
{
    broadcast use group_all_steps;

    words();
    let sub = layout.subset(disks);
    let p = |s: StepModel| keeps_to(layout, disks, parts, s);
    assert forall|d: Seq<char>| disks.contains(d) implies all_steps(
        #[trigger] crypt_format_disk(cfg, sub, d),
        p,
    ) by {
        assert(sub.part(d, 3) == layout.part(d, 3));
        assert(in_scope(layout, disks, parts, layout.part(d, 3)));
        let s = crypt_preserve_uuid_plan(layout.part(d, 3), sub.crypt_name(d));
        let t = script(s);
        let end = layout.part(d, 3) + " --uuid \"$uuid\"; fi"@;
        assert(t.skip(t.len() - end.len()) =~= end);
        assert(script_in_scope(layout, disks, parts, t));
        assert(p(s));
        let f = crypt_format_disk(cfg, sub, d);
        assert(f[1] == s);
        assert(p(f[0]));
    }
    assert forall|d: Seq<char>| disks.contains(d) implies all_steps(
        #[trigger] crypt_open_disk(sub, d),
        p,
    ) by {
        assert(sub.part(d, 3) == layout.part(d, 3));
        assert(in_scope(layout, disks, parts, layout.part(d, 3)));
    }
}

proof fn integrity_formatting_keeps(
    cfg: ConfigModel,
    layout: LayoutModel,
    disks: Seq<Seq<char>>,
    parts: ReplaceParts,
)
    requires
        parts.root,
    ensures
        all_keep_to(
            layout,
            disks,
            parts,
            integrity_format_disks_plan(cfg, layout.subset(disks)),
        ),
        all_keep_to(layout, disks, parts, integrity_open_disks_plan(cfg, layout.subset(disks))),
{
    broadcast use group_all_steps;

    words();
    let sub = layout.subset(disks);
    let p = |s: StepModel| keeps_to(layout, disks, parts, s);
    let devs = sub.root_devices();
    assert forall|x: Seq<char>| devs.contains(x) implies all_steps(
        #[trigger] integrity_format_disk(cfg, x),
        p,
    ) by {
        let k = choose|k: int| 0 <= k < devs.len() && devs[k] == x;
        assert(disks.contains(disks[k]));
        assert(x == layout.part(disks[k], 3));
        assert(in_scope(layout, disks, parts, x));
    }
    assert forall|d: Seq<char>| disks.contains(d) implies all_steps(
        #[trigger] integrity_open_disk(cfg, sub, d),
        p,
    ) by {
        assert(sub.part(d, 3) == layout.part(d, 3));
        assert(in_scope(layout, disks, parts, layout.part(d, 3)));
    }
}

proof fn preparing_root_keeps(
    cfg: ConfigModel,
    layout: LayoutModel,
    stack: AnyStack,
    disks: Seq<Seq<char>>,
    parts: ReplaceParts,
)
    requires
        parts.root,
    ensures
        all_keep_to(
            layout,
            disks,
            parts,
            stack.partition_root_plan(cfg, layout.subset(disks)),
        ),
{
    broadcast use group_all_steps;

    creating_keeps(cfg, layout, disks, parts);
    if stack is MdIntegrity {
        integrity_formatting_keeps(cfg, layout, disks, parts);
    } else {
        crypt_formatting_keeps(cfg, layout, disks, parts);
    }
}

proof fn partitioning_keeps(
    cfg: ConfigModel,
    layout: LayoutModel,
    stack: AnyStack,
    disks: Seq<Seq<char>>,
    healthy: Seq<Seq<char>>,
    parts: ReplaceParts,
)
    ensures
        all_keep_to(
            layout,
            disks,
            parts,
            replace_partition_plan(cfg, layout, stack, disks, healthy, parts),
        ),
{
    broadcast use group_all_steps;

    repartitioning_keeps(layout, disks, cfg.efi(), parts);
    if parts.esp {
        recreating_keeps(layout, disks, healthy, parts);
    }
    if parts.root {
        preparing_root_keeps(cfg, layout, stack, disks, parts);
    }
}

// -------------------------------------------------------------- reassemble

/// A /boot is made anew by one script, with the uuid of the others where it is found.
pub proof fn a_boot_is_reformatted(layout: LayoutModel, healthy: Seq<Seq<char>>, e: Seq<char>)
    ensures
        ({
            let s = reformat_boot_step_plan(
                layout.part(e, 2),
                layout.subset(healthy).boot_devices(),
            );
            &&& reformat_boot(layout, healthy, e) == seq![s]
            &&& has_suffix(script(s), makes_boot(layout.part(e, 2)))
            &&& looks_for_uuid(
                script(s),
                "/boot"@,
                Seq::new(healthy.len(), |k: int| layout.part(healthy[k], 2)),
            )
            &&& runs(s, "sh"@) && !forgiving(s)
        }),
{
    words();
    let boot = layout.part(e, 2);
    let others = layout.subset(healthy).boot_devices();
    let s = reformat_boot_step_plan(boot, others);
    let t = script(s);
    let head = find_uuid("/boot"@, others);
    assert(t.skip(head.len() as int) =~= makes_boot(boot));
    assert(t.take(head.len() as int) =~= head);
    assert(others =~= Seq::new(healthy.len(), |k: int| layout.part(healthy[k], 2)));
}

proof fn readding_boot_keeps(
    layout: LayoutModel,
    disks: Seq<Seq<char>>,
    healthy: Seq<Seq<char>>,
    parts: ReplaceParts,
)
    requires
        parts.boot,
    ensures
        all_keep_to(layout, disks, parts, each(disks, |d: Seq<char>| readd_boot(layout, d))),
        all_keep_to(
            layout,
            disks,
            parts,
            each(disks, |e: Seq<char>| reformat_boot(layout, healthy, e)),
        ),
{
    broadcast use group_all_steps;

    words();
    let p = |s: StepModel| keeps_to(layout, disks, parts, s);
    assert forall|d: Seq<char>| disks.contains(d) implies all_steps(
        #[trigger] readd_boot(layout, d),
        p,
    ) by {
        assert(in_scope(layout, disks, parts, layout.part(d, 2)));
    }
    assert forall|d: Seq<char>| disks.contains(d) implies all_steps(
        #[trigger] reformat_boot(layout, healthy, d),
        p,
    ) by {
        a_boot_is_reformatted(layout, healthy, d);
        let s = reformat_boot_step_plan(layout.part(d, 2), layout.subset(healthy).boot_devices());
        assert(script_in_scope(layout, disks, parts, script(s)));
        assert(p(s));
    }
}

proof fn readding_md_keeps(
    cfg: ConfigModel,
    layout: LayoutModel,
    stack: AnyStack,
    disks: Seq<Seq<char>>,
    parts: ReplaceParts,
)
    requires
        parts.root,
        stack is MdLvm,
    ensures
        all_keep_to(layout, disks, parts, stack.replace_plan(cfg, layout, disks)),
{
    broadcast use group_all_steps;

    words();
    let p = |s: StepModel| keeps_to(layout, disks, parts, s);
    assert forall|d: Seq<char>| disks.contains(d) implies all_steps(
        #[trigger] md_replace_disk(layout, Layer::Crypt, d),
        p,
    ) by {
        assert(in_scope(layout, disks, parts, layout.crypt_device(d)));
    }
}

proof fn readding_integrity_keeps(
    cfg: ConfigModel,
    layout: LayoutModel,
    stack: AnyStack,
    disks: Seq<Seq<char>>,
    parts: ReplaceParts,
)
    requires
        parts.root,
        stack is MdIntegrity,
    ensures
        all_keep_to(layout, disks, parts, stack.replace_plan(cfg, layout, disks)),
{
    broadcast use group_all_steps;

    words();
    let p = |s: StepModel| keeps_to(layout, disks, parts, s);
    assert forall|d: Seq<char>| disks.contains(d) implies all_steps(
        #[trigger] md_replace_disk(layout, Layer::Integrity, d),
        p,
    ) by {
        assert(in_scope(layout, disks, parts, layout.int_device_of(d)));
    }
}

proof fn readding_zfs_keeps(
    cfg: ConfigModel,
    layout: LayoutModel,
    stack: AnyStack,
    disks: Seq<Seq<char>>,
    parts: ReplaceParts,
)
    requires
        parts.root,
        stack is Zfs,
    ensures
        all_keep_to(layout, disks, parts, stack.replace_plan(cfg, layout, disks)),
{
    broadcast use group_all_steps;

    words();
    let p = |s: StepModel| keeps_to(layout, disks, parts, s);
    assert forall|d: Seq<char>| disks.contains(d) implies all_steps(
        #[trigger] crate::stack::zfs::replace_disk(layout, d),
        p,
    ) by {
        assert(in_scope(layout, disks, parts, layout.crypt_device(d)));
    }
}

proof fn readding_btrfs_keeps(
    cfg: ConfigModel,
    layout: LayoutModel,
    stack: AnyStack,
    disks: Seq<Seq<char>>,
    parts: ReplaceParts,
)
    requires
        parts.root,
        stack is Btrfs,
    ensures
        all_keep_to(layout, disks, parts, stack.replace_plan(cfg, layout, disks)),
{
    broadcast use group_all_steps;

    words();
    let p = |s: StepModel| keeps_to(layout, disks, parts, s);
    assert forall|d: Seq<char>| disks.contains(d) implies all_steps(
        #[trigger] crate::stack::btrfs::replace_disk(layout, d),
        p,
    ) by {
        assert(in_scope(layout, disks, parts, layout.crypt_device(d)));
    }
}

proof fn readding_bcachefs_keeps(
    cfg: ConfigModel,
    layout: LayoutModel,
    stack: AnyStack,
    disks: Seq<Seq<char>>,
    parts: ReplaceParts,
)
    requires
        parts.root,
        stack is Bcachefs,
    ensures
        all_keep_to(layout, disks, parts, stack.replace_plan(cfg, layout, disks)),
{
    broadcast use group_all_steps;

    words();
    let p = |s: StepModel| keeps_to(layout, disks, parts, s);
    assert forall|d: Seq<char>| disks.contains(d) implies all_steps(
        #[trigger] crate::stack::bcachefs::replace_disk(layout, d),
        p,
    ) by {
        assert(in_scope(layout, disks, parts, layout.crypt_device(d)));
    }
}

proof fn readding_root_keeps(
    cfg: ConfigModel,
    layout: LayoutModel,
    stack: AnyStack,
    disks: Seq<Seq<char>>,
    parts: ReplaceParts,
)
    requires
        parts.root,
    ensures
        all_keep_to(layout, disks, parts, stack.replace_plan(cfg, layout, disks)),
{
    match stack {
        AnyStack::MdLvm(_) => readding_md_keeps(cfg, layout, stack, disks, parts),
        AnyStack::MdIntegrity(_) => readding_integrity_keeps(cfg, layout, stack, disks, parts),
        AnyStack::Zfs(_) => readding_zfs_keeps(cfg, layout, stack, disks, parts),
        AnyStack::Btrfs(_) => readding_btrfs_keeps(cfg, layout, stack, disks, parts),
        AnyStack::Bcachefs(_) => readding_bcachefs_keeps(cfg, layout, stack, disks, parts),
    }
}

proof fn reassembling_keeps(
    cfg: ConfigModel,
    layout: LayoutModel,
    stack: AnyStack,
    disks: Seq<Seq<char>>,
    healthy: Seq<Seq<char>>,
    parts: ReplaceParts,
)
    ensures
        all_keep_to(
            layout,
            disks,
            parts,
            replace_reassemble_plan(cfg, layout, stack, disks, healthy, parts),
        ),
{
    broadcast use group_all_steps;

    words();
    if parts.boot {
        readding_boot_keeps(layout, disks, healthy, parts);
    }
    if parts.root {
        readding_root_keeps(cfg, layout, stack, disks, parts);
    }
}

// -------------------------------------------------------------- bootloader

proof fn a_copy_fills(from: Seq<char>, dst: Seq<char>, flags: Seq<char>, marker: Seq<char>)
    ensures
        holds(guarded_copy(from, dst, flags, marker), fills(dst)),
{
    let t = guarded_copy(from, dst, flags, marker);
    let i = (" && test -e "@ + from + "/"@ + marker).len() as int;
    assert(t.subrange(i, i + fills(dst).len()) =~= fills(dst));
    assert(stands_at(t, fills(dst), i));
}

/// What stands in a part of a text stands in the text.
pub proof fn parts_are_held(a: Seq<char>, b: Seq<char>, c: Seq<char>, p: Seq<char>)
    requires
        holds(b, p),
    ensures
        holds(a + b + c, p),
{
    let i = choose|i: int| stands_at(b, p, i);
    let t = a + b + c;
    assert(t.subrange(a.len() + i, a.len() + i + p.len()) =~= b.subrange(i, i + p.len()));
    assert(stands_at(t, p, a.len() + i));
}

/// A clone fills its target.
pub proof fn a_clone_fills(src: Option<Seq<char>>, dst: Seq<char>, marker: Seq<char>)
    ensures
        holds(clone_script(src, dst, marker), fills(dst)),
{
    match src {
        Some(dev) => {
            let flags = "--times --recursive --delete"@;
            let copy = guarded_copy("\"$x\""@, dst, flags, marker);
            a_copy_fills("\"$x\""@, dst, flags, marker);
            parts_are_held(
                "x=$(mktemp -d); y=$(mktemp -d); "@ + attach(dev),
                copy,
                "; umount \"$x\" || ok=1; rmdir \"$x\"; exit $ok"@,
                fills(dst),
            );
        },
        None => {
            let flags = "--one-file-system --times --recursive --delete"@;
            let copy = guarded_copy("/boot"@, dst, flags, marker);
            a_copy_fills("/boot"@, dst, flags, marker);
            parts_are_held(
                "y=$(mktemp -d); mountpoint -q /boot"@,
                copy,
                "; exit $ok"@,
                fills(dst),
            );
        },
    }
}

proof fn repopulating_keeps(
    layout: LayoutModel,
    disks: Seq<Seq<char>>,
    survivor: Seq<char>,
    parts: ReplaceParts,
)
    ensures
        parts.esp ==> all_keep_to(
            layout,
            disks,
            parts,
            each(disks, |d: Seq<char>| repopulate_esp(layout, survivor, d)),
        ),
        all_keep_to(layout, disks, parts, each(disks, |e: Seq<char>| reinstall_grub(e))),
        parts.boot ==> all_keep_to(
            layout,
            disks,
            parts,
            each(disks, |f: Seq<char>| clone_boot(layout, f)),
        ),
{
    broadcast use group_all_steps;

    words();
    let p = |s: StepModel| keeps_to(layout, disks, parts, s);
    assert forall|d: Seq<char>| disks.contains(d) && parts.esp implies all_steps(
        #[trigger] repopulate_esp(layout, survivor, d),
        p,
    ) by {
        let f = repopulate_esp(layout, survivor, d);
        a_clone_fills(Some(layout.part(survivor, 1)), layout.part(d, 1), SHIM_FILE@);
        assert(script_in_scope(layout, disks, parts, script(f[0])));
        assert(p(f[0]));
        assert(whole_disk(disks, "/dev/"@ + d));
        assert(command(f[1])[4] == "/dev/"@ + d);
        assert(p(f[1]));
    }
    assert forall|d: Seq<char>| disks.contains(d) implies all_steps(
        #[trigger] reinstall_grub(d),
        p,
    ) by {
        assert(whole_disk(disks, "/dev/"@ + d));
    }
    assert forall|d: Seq<char>| disks.contains(d) && parts.boot implies all_steps(
        #[trigger] clone_boot(layout, d),
        p,
    ) by {
        let f = clone_boot(layout, d);
        a_clone_fills(None, layout.part(d, 2), BOOT_MARKER@);
        assert(script_in_scope(layout, disks, parts, script(f[0])));
        assert(p(f[0]));
    }
}

proof fn crypttab_keeps(
    layout: LayoutModel,
    stack: AnyStack,
    disks: Seq<Seq<char>>,
    parts: ReplaceParts,
    swapped: bool,
)
    ensures
        all_keep_to(layout, disks, parts, swap_crypttab_plan(layout, stack, swapped)),
{
    broadcast use {group_all_steps, begins_with_its_head};

    words();
    let p = |s: StepModel| keeps_to(layout, disks, parts, s);
    if swapped && !(stack is MdIntegrity) {
        let s = stack.crypttab_regen_plan(layout)->0;
        let t = script(s);
        assert(t.take("{\n"@.len() as int) =~= "{\n"@);
        assert(p(s));
    }
}

proof fn mounting_boot_keeps(
    cfg: ConfigModel,
    layout: LayoutModel,
    disks: Seq<Seq<char>>,
    parts: ReplaceParts,
)
    ensures
        all_keep_to(layout, disks, parts, boot_mount_steps_plan(layout, "/"@, cfg.efi())),
{
    broadcast use group_all_steps;

    words();
    let base = crate::pipeline::below("/"@);
    let q = "mountpoint -q "@;
    let a = mount_first_plan("mount /boot"@, layout.boot_devices(), base + "/boot"@);
    let b = mount_first_plan("mount the primary esp"@, layout.esp_devices(), base + "/boot/efi"@);
    let c = sh_step(
        "mount /boot"@,
        "mountpoint -q "@ + base + "/boot || mount "@ + "/dev/md/boot"@ + " "@ + base + "/boot"@,
    );
    assert(script(a).take(q.len() as int) =~= q);
    assert(script(b).take(q.len() as int) =~= q);
    assert(script(c).take(q.len() as int) =~= q);
}

proof fn verifying_keeps(
    layout: LayoutModel,
    disks: Seq<Seq<char>>,
    parts: ReplaceParts,
    esp: bool,
    boot: bool,
)
    ensures
        all_keep_to(layout, disks, parts, verify_bootloaders_plan(layout, esp, boot)),
{
    broadcast use group_all_steps;

    words();
    let p = |s: StepModel| keeps_to(layout, disks, parts, s);
    assert forall|dev: Seq<char>, markers: Seq<Seq<char>>|
        all_steps(#[trigger] verify_partition(dev, markers), p) by {
        let s = verify_partition(dev, markers)[0];
        let t = script(s);
        let a = "x=$(mktemp -d); "@;
        let b = "{ mount -o ro "@;
        reveal_strlit("x=$(mktemp -d); ");
        reveal_strlit("{ mount -o ro ");
        reveal_strlit("x=$(mktemp -d); { mount -o ro ");
        assert(a + b =~= "x=$(mktemp -d); { mount -o ro "@);
        assert(t.take((a + b).len() as int) =~= a + b);
        assert(p(s));
    }
}

proof fn booting_keeps(
    cfg: ConfigModel,
    layout: LayoutModel,
    stack: AnyStack,
    disks: Seq<Seq<char>>,
    survivor: Seq<char>,
    parts: ReplaceParts,
    swapped: bool,
)
    ensures
        all_keep_to(
            layout,
            disks,
            parts,
            replace_bootloader_plan(cfg, layout, stack, disks, survivor, parts, swapped),
        ),
{
    broadcast use group_all_steps;

    crypttab_keeps(layout, stack, disks, parts, swapped);
    repopulating_keeps(layout, disks, survivor, parts);
    mounting_boot_keeps(cfg, layout, disks, parts);
    verifying_keeps(layout, disks, parts, cfg.efi() && parts.esp, parts.boot);
}

/// Whatever a replace wipes, partitions, formats, stamps, opens, adds to an array, fills
/// or makes bootable belongs to a disk that is rebuilt, and to a layer that is named.
pub proof fn a_replace_keeps_to_the_rebuilt_disks(
    cfg: ConfigModel,
    layout: LayoutModel,
    stack: AnyStack,
    disks: Seq<Seq<char>>,
    parts: ReplaceParts,
    old_disks: Option<Seq<Seq<char>>>,
    i: int,
)
    requires
        0 <= i < replace_plan(cfg, layout, stack, disks, parts, old_disks).len(),
    ensures
        all_keep_to(
            layout,
            disks,
            parts,
            replace_plan(cfg, layout, stack, disks, parts, old_disks)[i].steps,
        ),
{
    let healthy = survivors(layout.members, disks);
    let gone = leaving(disks, old_disks);
    let swapped = old_disks is Some;
    removing_keeps(cfg, layout, stack, gone, disks, healthy[0], parts);
    partitioning_keeps(cfg, layout, stack, disks, healthy, parts);
    reassembling_keeps(cfg, layout, stack, disks, healthy, parts);
    booting_keeps(cfg, layout, stack, disks, healthy[0], parts, swapped);
}

// ---------------------------------------------------------- what is rebuilt

/// Whether a step adds this device to the root.
pub open spec fn readds(stack: AnyStack, s: StepModel, dev: Seq<char>) -> bool {
    let w = command(s);
    let n = w.len() as int;
    match stack {
        AnyStack::Zfs(_) => runs_to(s, "zpool"@, "replace"@) && n == 5 && w[3] == "rpool"@ && w[4]
            == dev,
        AnyStack::Btrfs(_) => runs_to(s, "btrfs"@, "device"@) && n == 5 && w[2] == "add"@ && w[3]
            == dev && w[4] == "/"@,
        AnyStack::Bcachefs(_) => runs_to(s, "bcachefs"@, "device"@) && n == 6 && w[2] == "add"@
            && w[4] == "/"@ && w[5] == dev,
        _ => runs_to(s, "mdadm"@, "--add"@) && n == 4 && w[2] == "/dev/md/root"@ && w[3] == dev,
    }
}

/// Whether a step adds a device to the root, or to the boot array.
pub open spec fn readds_some() -> spec_fn(StepModel) -> bool {
    |s: StepModel|
        {
            let w = command(s);
            ||| runs_to(s, "mdadm"@, "--add"@)
            ||| runs_to(s, "zpool"@, "replace"@)
            ||| runs_to(s, "btrfs"@, "device"@) && w.len() > 2 && w[2] == "add"@
            ||| runs_to(s, "bcachefs"@, "device"@) && w.len() > 2 && w[2] == "add"@
        }
}

proof fn a_root_member_is_readded(
    cfg: ConfigModel,
    layout: LayoutModel,
    stack: AnyStack,
    disks: Seq<Seq<char>>,
    k: int,
)
    requires
        0 <= k < disks.len(),
    ensures
        some_step(
            stack.replace_plan(cfg, layout, disks),
            |s: StepModel|
                readds(stack, s, "/dev/mapper/"@ + mapping_of(stack, layout, disks[k]))
                    && !forgiving(s),
        ),
{
    broadcast use group_some_steps;

    words();
    let d = disks[k];
}

proof fn repartitioning_readds_nothing(
    layout: LayoutModel,
    disks: Seq<Seq<char>>,
    healthy: Seq<Seq<char>>,
    efi: bool,
    parts: ReplaceParts,
)
    ensures
        !some_step(
            partition_replacements_plan(layout, disks, healthy, efi, parts),
            readds_some(),
        ),
        !some_step(
            partition_replacements_plan(layout, disks, healthy, efi, parts),
            formats_a_layer(),
        ),
{
    broadcast use group_some_steps;

    words();
}

proof fn repartitioning_opens_nothing(
    layout: LayoutModel,
    disks: Seq<Seq<char>>,
    healthy: Seq<Seq<char>>,
    efi: bool,
    parts: ReplaceParts,
    stack: AnyStack,
)
    ensures
        !some_step(
            partition_replacements_plan(layout, disks, healthy, efi, parts),
            opens_a_member(stack),
        ),
{
    broadcast use group_some_steps;

    words();
}

proof fn preparing_readds_nothing(cfg: ConfigModel, layout: LayoutModel, stack: AnyStack)
    ensures
        !some_step(stack.partition_root_plan(cfg, layout), readds_some()),
{
    broadcast use group_some_steps;

    words();
}

proof fn prepared_behind(
    stack: AnyStack,
    cfg: ConfigModel,
    layout: LayoutModel,
    d: Seq<char>,
    a: Seq<StepModel>,
    b: Seq<StepModel>,
)
    requires
        prepares_root(stack, cfg, layout, d, b),
        prepares_in_order(stack, b),
        !some_step(a, formats_a_layer()),
        !some_step(a, opens_a_member(stack)),
        !some_step(a, readds_some()),
        !some_step(b, readds_some()),
    ensures
        prepares_root(stack, cfg, layout, d, a + b),
        prepares_in_order(stack, a + b),
        !some_step(a + b, readds_some()),
{
    broadcast use group_some_steps;

}

proof fn names_go_by_the_prefix(
    stack: AnyStack,
    cfg: ConfigModel,
    layout: LayoutModel,
    disks: Seq<Seq<char>>,
    d: Seq<char>,
    v: Seq<StepModel>,
)
    requires
        prepares_root(stack, cfg, layout.subset(disks), d, v),
    ensures
        prepares_root(stack, cfg, layout, d, v),
{
    let sub = layout.subset(disks);
    assert(sub.part(d, 3) == layout.part(d, 3));
    assert(sub.crypt_name(d) == layout.crypt_name(d));
    assert(mapping_of(stack, sub, d) == mapping_of(stack, layout, d));
}

proof fn reassembling_readds(
    cfg: ConfigModel,
    layout: LayoutModel,
    stack: AnyStack,
    disks: Seq<Seq<char>>,
    healthy: Seq<Seq<char>>,
    parts: ReplaceParts,
    p: spec_fn(StepModel) -> bool,
)
    requires
        parts.root,
        some_step(stack.replace_plan(cfg, layout, disks), p),
    ensures
        some_step(replace_reassemble_plan(cfg, layout, stack, disks, healthy, parts), p),
{
    broadcast use {some_of_push, some_of_both};

}

proof fn partitioning_prepares(
    cfg: ConfigModel,
    layout: LayoutModel,
    stack: AnyStack,
    disks: Seq<Seq<char>>,
    healthy: Seq<Seq<char>>,
    parts: ReplaceParts,
    k: int,
)
    requires
        parts.root,
        0 <= k < disks.len(),
    ensures
        ({
            let v = replace_partition_plan(cfg, layout, stack, disks, healthy, parts);
            &&& prepares_root(stack, cfg, layout, disks[k], v)
            &&& prepares_in_order(stack, v)
            &&& !some_step(v, readds_some())
        }),
{
    let sub = layout.subset(disks);
    let d = disks[k];
    let efi = cfg.efi();
    every_member_is_prepared(stack, cfg, sub, k);
    members_are_prepared_in_order(stack, cfg, sub);
    repartitioning_readds_nothing(layout, disks, healthy, efi, parts);
    repartitioning_opens_nothing(layout, disks, healthy, efi, parts, stack);
    preparing_readds_nothing(cfg, sub, stack);
    let tables = partition_replacements_plan(layout, disks, healthy, efi, parts);
    let root = stack.partition_root_plan(cfg, sub);
    prepared_behind(stack, cfg, sub, d, tables, root);
    names_go_by_the_prefix(stack, cfg, layout, disks, d, tables + root);
}

/// The phases of a replace, in order, and what each of them holds.
pub proof fn a_replace_removes_before_it_rebuilds(
    cfg: ConfigModel,
    layout: LayoutModel,
    stack: AnyStack,
    disks: Seq<Seq<char>>,
    parts: ReplaceParts,
    old_disks: Option<Seq<Seq<char>>>,
)
    ensures
        ({
            let plan = replace_plan(cfg, layout, stack, disks, parts, old_disks);
            let healthy = survivors(layout.members, disks);
            let boot = replace_bootloader_plan(
                cfg,
                layout,
                stack,
                disks,
                healthy[0],
                parts,
                old_disks is Some,
            );
            &&& 3 <= plan.len() <= 4
            &&& plan[0].name == "remove"@
            &&& plan[1].name == "partition"@
            &&& plan[2].name == "reassemble"@
            &&& plan[0].steps == replace_remove_plan(
                cfg,
                layout,
                stack,
                leaving(disks, old_disks),
                disks,
                healthy[0],
                parts,
            )
            &&& plan[1].steps == replace_partition_plan(cfg, layout, stack, disks, healthy, parts)
            &&& plan[2].steps == replace_reassemble_plan(
                cfg,
                layout,
                stack,
                disks,
                healthy,
                parts,
            )
            &&& boot.len() > 0 <==> plan.len() == 4
            &&& boot.len() > 0 ==> plan[3].name == "bootloader"@ && plan[3].steps == boot
        }),
{
}

/// A replace that rebuilds the root prepares the root partition of every disk that it
/// rebuilds, and only then adds each to the root again.
pub proof fn a_replace_rebuilds_the_root_of_each_disk(
    cfg: ConfigModel,
    layout: LayoutModel,
    stack: AnyStack,
    disks: Seq<Seq<char>>,
    parts: ReplaceParts,
    old_disks: Option<Seq<Seq<char>>>,
    k: int,
)
    requires
        parts.root,
        0 <= k < disks.len(),
    ensures
        ({
            let plan = replace_plan(cfg, layout, stack, disks, parts, old_disks);
            let dev = "/dev/mapper/"@ + mapping_of(stack, layout, disks[k]);
            &&& plan.len() >= 3
            &&& plan[0].name == "remove"@
            &&& plan[1].name == "partition"@
            &&& plan[2].name == "reassemble"@
            &&& prepares_root(stack, cfg, layout, disks[k], plan[1].steps)
            &&& prepares_in_order(stack, plan[1].steps)
            &&& !some_step(plan[1].steps, readds_some())
            &&& some_step(
                plan[2].steps,
                |s: StepModel| readds(stack, s, dev) && !forgiving(s),
            )
        }),
{
    let healthy = survivors(layout.members, disks);
    let plan = replace_plan(cfg, layout, stack, disks, parts, old_disks);
    a_replace_removes_before_it_rebuilds(cfg, layout, stack, disks, parts, old_disks);
    partitioning_prepares(cfg, layout, stack, disks, healthy, parts, k);
    let dev = "/dev/mapper/"@ + mapping_of(stack, layout, disks[k]);
    let p = |s: StepModel| readds(stack, s, dev) && !forgiving(s);
    a_root_member_is_readded(cfg, layout, stack, disks, k);
    reassembling_readds(cfg, layout, stack, disks, healthy, parts, p);
}

/// The root layer of the rebuilt disks is prepared without a look at the survivors: two
/// layouts that differ in the other members have it prepared and added in the same way.
pub proof fn a_root_replace_ignores_the_survivors(
    cfg: ConfigModel,
    a: LayoutModel,
    b: LayoutModel,
    stack: AnyStack,
    disks: Seq<Seq<char>>,
    i: int,
)
    requires
        a.part_prefix == b.part_prefix,
        a.boot_mode == b.boot_mode,
        0 <= i < 3,
    ensures
        ({
            let parts = ReplaceParts { esp: false, boot: false, root: true };
            replace_plan(cfg, a, stack, disks, parts, None)[i].steps == replace_plan(
                cfg,
                b,
                stack,
                disks,
                parts,
                None,
            )[i].steps
        }),
{
    let parts = ReplaceParts { esp: false, boot: false, root: true };
    assert(a.subset(disks) == b.subset(disks));
    let f = |d: Seq<char>| repartition_disk(cfg.efi(), parts, d);
    if i == 0 {
        removal_goes_by_names(cfg, a, b, stack, disks);
    } else if i == 2 {
        readding_goes_by_names(cfg, a, b, stack, disks);
    }
}

proof fn removal_goes_by_names(
    cfg: ConfigModel,
    a: LayoutModel,
    b: LayoutModel,
    stack: AnyStack,
    disks: Seq<Seq<char>>,
)
    requires
        a.part_prefix == b.part_prefix,
    ensures
        ({
            let parts = ReplaceParts { esp: false, boot: false, root: true };
            replace_plan(cfg, a, stack, disks, parts, None)[0].steps == replace_plan(
                cfg,
                b,
                stack,
                disks,
                parts,
                None,
            )[0].steps
        }),
{
    let parts = ReplaceParts { esp: false, boot: false, root: true };
    assert forall|d: Seq<char>, n: nat| #[trigger] a.part(d, n) == b.part(d, n) by {}
    assert forall|d: Seq<char>| #[trigger] a.crypt_name(d) == b.crypt_name(d) by {}
    assert forall|d: Seq<char>| #[trigger] a.int_name(d) == b.int_name(d) by {}
    assert((|e: Seq<char>| wipe_disk(a, parts, e)) =~= (|e: Seq<char>| wipe_disk(b, parts, e)));
    match stack {
        AnyStack::Zfs(_) => {
            assert((|d: Seq<char>| crate::stack::zfs::remove_disk(a, d)) =~= (|d: Seq<char>|
                crate::stack::zfs::remove_disk(b, d)));
        },
        AnyStack::Btrfs(_) => {
            assert((|d: Seq<char>| crate::stack::btrfs::remove_disk(a, d)) =~= (|d: Seq<char>|
                crate::stack::btrfs::remove_disk(b, d)));
        },
        AnyStack::Bcachefs(_) => {
            assert((|d: Seq<char>| crate::stack::bcachefs::remove_disk(a, d)) =~= (|d: Seq<char>|
                crate::stack::bcachefs::remove_disk(b, d)));
        },
        AnyStack::MdLvm(_) => {
            let l = Layer::Crypt;
            assert((|d: Seq<char>| md_remove_disk(a, l, d)) =~= (|d: Seq<char>|
                md_remove_disk(b, l, d)));
            assert((|e: Seq<char>| md_remove_teardown(a, l, e)) =~= (|e: Seq<char>|
                md_remove_teardown(b, l, e)));
        },
        AnyStack::MdIntegrity(_) => {
            let l = Layer::Integrity;
            assert((|d: Seq<char>| md_remove_disk(a, l, d)) =~= (|d: Seq<char>|
                md_remove_disk(b, l, d)));
            assert((|e: Seq<char>| md_remove_teardown(a, l, e)) =~= (|e: Seq<char>|
                md_remove_teardown(b, l, e)));
        },
    }
}

proof fn readding_goes_by_names(
    cfg: ConfigModel,
    a: LayoutModel,
    b: LayoutModel,
    stack: AnyStack,
    disks: Seq<Seq<char>>,
)
    requires
        a.part_prefix == b.part_prefix,
    ensures
        stack.replace_plan(cfg, a, disks) == stack.replace_plan(cfg, b, disks),
{
    assert forall|d: Seq<char>| #[trigger] a.crypt_device(d) == b.crypt_device(d) by {}
    assert forall|d: Seq<char>| #[trigger] a.int_device_of(d) == b.int_device_of(d) by {}
    match stack {
        AnyStack::Zfs(_) => {
            assert((|d: Seq<char>| crate::stack::zfs::replace_disk(a, d)) =~= (|d: Seq<char>|
                crate::stack::zfs::replace_disk(b, d)));
        },
        AnyStack::Btrfs(_) => {
            assert((|d: Seq<char>| crate::stack::btrfs::replace_disk(a, d)) =~= (|d: Seq<char>|
                crate::stack::btrfs::replace_disk(b, d)));
        },
        AnyStack::Bcachefs(_) => {
            assert((|d: Seq<char>| crate::stack::bcachefs::replace_disk(a, d)) =~= (|d: Seq<char>|
                crate::stack::bcachefs::replace_disk(b, d)));
        },
        AnyStack::MdLvm(_) => {
            let l = Layer::Crypt;
            assert((|d: Seq<char>| md_replace_disk(a, l, d)) =~= (|d: Seq<char>|
                md_replace_disk(b, l, d)));
        },
        AnyStack::MdIntegrity(_) => {
            let l = Layer::Integrity;
            assert((|d: Seq<char>| md_replace_disk(a, l, d)) =~= (|d: Seq<char>|
                md_replace_disk(b, l, d)));
        },
    }
}

} // verus!
