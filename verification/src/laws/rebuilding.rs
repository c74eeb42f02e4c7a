//! What a replace does for each disk: how the old one leaves, and how the boot layers of
//! the new one are made.
use vstd::prelude::*;
use vstd::string::*;

use crate::config::ConfigModel;
use crate::efi::{register_words, SHIM_FILE};
use crate::laws::effects::{
    all_before, command, each_stands_in_a_row, group_some_steps, locks, runs, runs_to, script,
    some_of_both, some_of_push, some_step, unmaps, words,
};
use crate::laws::opening::mapping_of;
use crate::laws::replacing::{
    a_boot_is_reformatted, a_replace_removes_before_it_rebuilds, an_esp_is_recreated, fills,
    looks_for_uuid, makes_boot, makes_esp, numbers_of_partitions,
};
use crate::laws::forgiving;
use crate::layout::LayoutModel;
use crate::ops::{
    boot_detach_plan, clone_boot, clone_script, leaving, readd_boot, recreate_esp, reformat_boot,
    reinstall_grub, relocate_boot_step_plan, repartition_disk, replace_bootloader_plan,
    replace_plan, replace_reassemble_plan, replace_remove_plan, repopulate_esp, survivors,
    swap_crypttab_plan, unmount_esp, wipe_disk, BOOT_MARKER, ReplaceParts,
};
use crate::pipeline::boot_mount_steps_plan;
use crate::stack::{AnyStack, Stack};
use crate::step::{each, StepModel};
use crate::text::{has_prefix, has_suffix, holds, joined, stands_at};

verus! {

/// Whether a step wipes this device.
pub open spec fn wipes(s: StepModel, dev: Seq<char>) -> bool {
    runs_to(s, "wipefs"@, "-a"@) && command(s).len() == 3 && command(s)[2] == dev
}

/// Whether a step wipes a device.
pub open spec fn wipes_some() -> spec_fn(StepModel) -> bool {
    |s: StepModel| runs(s, "wipefs"@)
}

/// Whether a step takes a device out of a running array or pool.
pub open spec fn takes_out() -> spec_fn(StepModel) -> bool {
    |s: StepModel|
        runs_to(s, "mdadm"@, "--fail"@) || runs_to(s, "mdadm"@, "--remove"@) || runs_to(
            s,
            "zpool"@,
            "offline"@,
        )
}

/// Whether a step takes this device out of this array.
pub open spec fn takes_out_of(s: StepModel, verb: Seq<char>, array: Seq<char>, dev: Seq<char>) -> bool {
    runs_to(s, "mdadm"@, verb) && command(s).len() == 4 && command(s)[2] == array && command(s)[3]
        == dev
}

// ----------------------------------------------------------------- leaving

/// A disk that leaves is taken out of the root, and its mapping closed.
pub proof fn a_root_member_leaves(
    cfg: ConfigModel,
    layout: LayoutModel,
    stack: AnyStack,
    gone: Seq<Seq<char>>,
    k: int,
)
    requires
        0 <= k < gone.len(),
    ensures
        ({
            let v = stack.remove_plan(cfg, layout, gone);
            let name = mapping_of(stack, layout, gone[k]);
            let dev = "/dev/mapper/"@ + name;
            &&& some_step(v, |s: StepModel| unmaps(s, name))
            &&& stack is MdLvm || stack is MdIntegrity ==> some_step(
                v,
                |s: StepModel| takes_out_of(s, "--fail"@, "/dev/md/root"@, dev),
            ) && some_step(v, |s: StepModel| takes_out_of(s, "--remove"@, "/dev/md/root"@, dev))
            &&& stack is Zfs ==> some_step(
                v,
                |s: StepModel|
                    runs_to(s, "zpool"@, "offline"@) && command(s)[2] == "rpool"@ && command(s)[3]
                        == dev,
            )
        }),
{
    broadcast use group_some_steps;

    words();
    let d = gone[k];
}

/// A disk that leaves is taken out of the boot array, and its esp unmounted.
pub proof fn a_boot_member_leaves(layout: LayoutModel, gone: Seq<Seq<char>>, k: int)
    requires
        0 <= k < gone.len(),
    ensures
        layout.boot_raid() ==> some_step(
            boot_detach_plan(layout, gone),
            |s: StepModel| takes_out_of(s, "--fail"@, "/dev/md/boot"@, layout.part(gone[k], 2)),
        ) && some_step(
            boot_detach_plan(layout, gone),
            |s: StepModel| takes_out_of(s, "--remove"@, "/dev/md/boot"@, layout.part(gone[k], 2)),
        ),
        some_step(
            each(gone, |d: Seq<char>| unmount_esp(layout, d)),
            |s: StepModel| runs_to(s, "umount"@, layout.part(gone[k], 1)),
        ),
{
    broadcast use group_some_steps;

    words();
    let d = gone[k];
}

proof fn detaching_wipes_nothing(
    cfg: ConfigModel,
    layout: LayoutModel,
    stack: AnyStack,
    gone: Seq<Seq<char>>,
)
    ensures
        !some_step(stack.remove_plan(cfg, layout, gone), wipes_some()),
        !some_step(boot_detach_plan(layout, gone), wipes_some()),
        !some_step(each(gone, |d: Seq<char>| unmount_esp(layout, d)), wipes_some()),
{
    broadcast use group_some_steps;

    words();
}

proof fn wiping_only_wipes(layout: LayoutModel, disks: Seq<Seq<char>>, parts: ReplaceParts)
    ensures
        !some_step(each(disks, |e: Seq<char>| wipe_disk(layout, parts, e)), locks()),
        !some_step(each(disks, |e: Seq<char>| wipe_disk(layout, parts, e)), takes_out()),
{
    broadcast use group_some_steps;

    words();
}

proof fn a_disk_is_wiped(layout: LayoutModel, disks: Seq<Seq<char>>, parts: ReplaceParts, k: int)
    requires
        0 <= k < disks.len(),
    ensures
        ({
            let v = each(disks, |e: Seq<char>| wipe_disk(layout, parts, e));
            let d = disks[k];
            &&& parts.esp ==> some_step(v, |s: StepModel| wipes(s, layout.part(d, 1)))
            &&& parts.boot ==> some_step(v, |s: StepModel| wipes(s, layout.part(d, 2)))
            &&& parts.root ==> some_step(v, |s: StepModel| wipes(s, layout.part(d, 3)))
        }),
{
    broadcast use group_some_steps;

    words();
    let d = disks[k];
}

/// In a replace whatever still holds a disk that leaves lets go of it first: its root
/// and boot members are taken out of their arrays, its mapping is closed and its esp
/// unmounted. The layers of the rebuilt disks are wiped only behind that.
pub proof fn a_replace_detaches_before_it_wipes(
    cfg: ConfigModel,
    layout: LayoutModel,
    stack: AnyStack,
    disks: Seq<Seq<char>>,
    parts: ReplaceParts,
    old_disks: Option<Seq<Seq<char>>>,
)
    ensures
        ({
            let v = replace_plan(cfg, layout, stack, disks, parts, old_disks)[0].steps;
            &&& all_before(v, locks(), wipes_some())
            &&& all_before(v, takes_out(), wipes_some())
        }),
{
    let healthy = survivors(layout.members, disks);
    a_replace_removes_before_it_rebuilds(cfg, layout, stack, disks, parts, old_disks);
    removing_is_ordered(
        cfg,
        layout,
        stack,
        leaving(disks, old_disks),
        disks,
        healthy[0],
        parts,
    );
}

proof fn removing_is_ordered(
    cfg: ConfigModel,
    layout: LayoutModel,
    stack: AnyStack,
    gone: Seq<Seq<char>>,
    disks: Seq<Seq<char>>,
    survivor: Seq<char>,
    parts: ReplaceParts,
)
    ensures
        ({
            let v = replace_remove_plan(cfg, layout, stack, gone, disks, survivor, parts);
            &&& all_before(v, locks(), wipes_some())
            &&& all_before(v, takes_out(), wipes_some())
        }),
{
    broadcast use group_some_steps;

    words();
    detaching_wipes_nothing(cfg, layout, stack, gone);
    wiping_only_wipes(layout, disks, parts);
}

/// Every disk that leaves is detached, in each layer that is named.
pub proof fn every_leaving_disk_is_detached(
    cfg: ConfigModel,
    layout: LayoutModel,
    stack: AnyStack,
    disks: Seq<Seq<char>>,
    parts: ReplaceParts,
    old_disks: Option<Seq<Seq<char>>>,
    k: int,
)
    requires
        0 <= k < leaving(disks, old_disks).len(),
    ensures
        ({
            let v = replace_plan(cfg, layout, stack, disks, parts, old_disks)[0].steps;
            let d = match old_disks {
                Some(old) => old[k],
                None => disks[k],
            };
            let name = mapping_of(stack, layout, d);
            let dev = "/dev/mapper/"@ + name;
            &&& parts.root ==> some_step(v, |s: StepModel| unmaps(s, name))
            &&& parts.root && (stack is MdLvm || stack is MdIntegrity) ==> some_step(
                v,
                |s: StepModel| takes_out_of(s, "--fail"@, "/dev/md/root"@, dev),
            ) && some_step(v, |s: StepModel| takes_out_of(s, "--remove"@, "/dev/md/root"@, dev))
            &&& parts.root && stack is Zfs ==> some_step(
                v,
                |s: StepModel|
                    runs_to(s, "zpool"@, "offline"@) && command(s)[2] == "rpool"@ && command(s)[3]
                        == dev,
            )
            &&& parts.boot && layout.boot_raid() ==> some_step(
                v,
                |s: StepModel| takes_out_of(s, "--fail"@, "/dev/md/boot"@, layout.part(d, 2)),
            ) && some_step(
                v,
                |s: StepModel| takes_out_of(s, "--remove"@, "/dev/md/boot"@, layout.part(d, 2)),
            )
            &&& parts.esp ==> some_step(
                v,
                |s: StepModel| runs_to(s, "umount"@, layout.part(d, 1)),
            )
        }),
{
    let healthy = survivors(layout.members, disks);
    let gone = leaving(disks, old_disks);
    a_replace_removes_before_it_rebuilds(cfg, layout, stack, disks, parts, old_disks);
    a_root_member_leaves(cfg, layout, stack, gone, k);
    a_boot_member_leaves(layout, gone, k);
    let d = gone[k];
    let name = mapping_of(stack, layout, d);
    let dev = "/dev/mapper/"@ + name;
    removing_holds(cfg, layout, stack, gone, disks, healthy[0], parts, |s: StepModel|
        unmaps(s, name));
    removing_holds(cfg, layout, stack, gone, disks, healthy[0], parts, |s: StepModel|
        takes_out_of(s, "--fail"@, "/dev/md/root"@, dev));
    removing_holds(cfg, layout, stack, gone, disks, healthy[0], parts, |s: StepModel|
        takes_out_of(s, "--remove"@, "/dev/md/root"@, dev));
    removing_holds(cfg, layout, stack, gone, disks, healthy[0], parts, |s: StepModel|
        runs_to(s, "zpool"@, "offline"@) && command(s)[2] == "rpool"@ && command(s)[3] == dev);
    removing_holds(cfg, layout, stack, gone, disks, healthy[0], parts, |s: StepModel|
        takes_out_of(s, "--fail"@, "/dev/md/boot"@, layout.part(d, 2)));
    removing_holds(cfg, layout, stack, gone, disks, healthy[0], parts, |s: StepModel|
        takes_out_of(s, "--remove"@, "/dev/md/boot"@, layout.part(d, 2)));
    removing_holds(cfg, layout, stack, gone, disks, healthy[0], parts, |s: StepModel|
        runs_to(s, "umount"@, layout.part(d, 1)));
}

proof fn removing_holds(
    cfg: ConfigModel,
    layout: LayoutModel,
    stack: AnyStack,
    gone: Seq<Seq<char>>,
    disks: Seq<Seq<char>>,
    survivor: Seq<char>,
    parts: ReplaceParts,
    p: spec_fn(StepModel) -> bool,
)
    ensures
        ({
            let v = replace_remove_plan(cfg, layout, stack, gone, disks, survivor, parts);
            &&& parts.root && some_step(stack.remove_plan(cfg, layout, gone), p) ==> some_step(v, p)
            &&& parts.boot && some_step(boot_detach_plan(layout, gone), p) ==> some_step(v, p)
            &&& parts.esp && some_step(each(gone, |d: Seq<char>| unmount_esp(layout, d)), p)
                ==> some_step(v, p)
            &&& some_step(each(disks, |e: Seq<char>| wipe_disk(layout, parts, e)), p)
                ==> some_step(v, p)
            &&& parts.boot && !layout.boot_raid() && p(
                relocate_boot_step_plan(layout, gone, survivor),
            ) ==> some_step(v, p)
        }),
{
    broadcast use {some_of_push, some_of_both};

}

/// Every layer that is named is wiped on every disk that is rebuilt.
pub proof fn every_rebuilt_layer_is_wiped(
    cfg: ConfigModel,
    layout: LayoutModel,
    stack: AnyStack,
    disks: Seq<Seq<char>>,
    parts: ReplaceParts,
    old_disks: Option<Seq<Seq<char>>>,
    k: int,
)
    requires
        0 <= k < disks.len(),
    ensures
        ({
            let v = replace_plan(cfg, layout, stack, disks, parts, old_disks)[0].steps;
            let d = disks[k];
            &&& parts.esp ==> some_step(v, |s: StepModel| wipes(s, layout.part(d, 1)))
            &&& parts.boot ==> some_step(v, |s: StepModel| wipes(s, layout.part(d, 2)))
            &&& parts.root ==> some_step(v, |s: StepModel| wipes(s, layout.part(d, 3)))
        }),
{
    let healthy = survivors(layout.members, disks);
    let gone = leaving(disks, old_disks);
    let d = disks[k];
    a_replace_removes_before_it_rebuilds(cfg, layout, stack, disks, parts, old_disks);
    a_disk_is_wiped(layout, disks, parts, k);
    removing_holds(cfg, layout, stack, gone, disks, healthy[0], parts, |s: StepModel|
        wipes(s, layout.part(d, 1)));
    removing_holds(cfg, layout, stack, gone, disks, healthy[0], parts, |s: StepModel|
        wipes(s, layout.part(d, 2)));
    removing_holds(cfg, layout, stack, gone, disks, healthy[0], parts, |s: StepModel|
        wipes(s, layout.part(d, 3)));
}

/// An independent /boot that is mounted from a disk that leaves is moved to a survivor.
pub proof fn boot_moves_to_a_survivor(
    cfg: ConfigModel,
    layout: LayoutModel,
    stack: AnyStack,
    disks: Seq<Seq<char>>,
    parts: ReplaceParts,
    old_disks: Option<Seq<Seq<char>>>,
)
    requires
        parts.boot,
        !layout.boot_raid(),
    ensures
        ({
            let v = replace_plan(cfg, layout, stack, disks, parts, old_disks)[0].steps;
            let gone = leaving(disks, old_disks);
            let devs = Seq::new(gone.len(), |k: int| layout.part(gone[k], 2));
            let home = layout.part(survivors(layout.members, disks)[0], 2);
            some_step(
                v,
                |s: StepModel|
                    holds(script(s), "; for r in "@ + joined(devs, " "@) + "; do if [ "@) && holds(
                        script(s),
                        "umount -R /boot && mount "@ + home + " /boot; "@,
                    ) && !forgiving(s),
            )
        }),
{
    let healthy = survivors(layout.members, disks);
    let gone = leaving(disks, old_disks);
    a_replace_removes_before_it_rebuilds(cfg, layout, stack, disks, parts, old_disks);
    relocating_moves(layout, gone, healthy[0]);
    let devs = Seq::new(gone.len(), |k: int| layout.part(gone[k], 2));
    let home = layout.part(survivors(layout.members, disks)[0], 2);
    removing_holds(cfg, layout, stack, gone, disks, healthy[0], parts, |s: StepModel|
        holds(script(s), "; for r in "@ + joined(devs, " "@) + "; do if [ "@) && holds(
            script(s),
            "umount -R /boot && mount "@ + home + " /boot; "@,
        ) && !forgiving(s));
}

proof fn relocating_moves(layout: LayoutModel, gone: Seq<Seq<char>>, survivor: Seq<char>)
    ensures
        ({
            let s = relocate_boot_step_plan(layout, gone, survivor);
            let devs = Seq::new(gone.len(), |k: int| layout.part(gone[k], 2));
            let home = layout.part(survivor, 2);
            &&& holds(script(s), "; for r in "@ + joined(devs, " "@) + "; do if [ "@)
            &&& holds(script(s), "umount -R /boot && mount "@ + home + " /boot; "@)
            &&& !forgiving(s)
        }),
{
    words();
    let s = relocate_boot_step_plan(layout, gone, survivor);
    let devs = Seq::new(gone.len(), |k: int| layout.part(gone[k], 2));
    assert(layout.subset(gone).boot_devices() =~= devs);
    let list = joined(devs, " "@);
    let live = layout.part(survivor, 2);
    let a = "src=$(findmnt -no SOURCE /boot 2>/dev/null || true); for r in "@;
    let b = "; do if [ \"$src\" = \"$r\" ]; then umount -R /boot && mount "@;
    let c = " /boot; break; fi; done"@;
    let t = script(s);
    assert(t == a + list + b + live + c);
    reveal_strlit("src=$(findmnt -no SOURCE /boot 2>/dev/null || true); for r in ");
    reveal_strlit("; do if [ \"$src\" = \"$r\" ]; then umount -R /boot && mount ");
    reveal_strlit(" /boot; break; fi; done");
    reveal_strlit("; for r in ");
    reveal_strlit("; do if [ ");
    reveal_strlit("umount -R /boot && mount ");
    reveal_strlit(" /boot; ");
    let p = "; for r in "@ + list + "; do if [ "@;
    let i = a.len() - "; for r in "@.len();
    assert(t.subrange(i, i + p.len()) =~= p);
    assert(stands_at(t, p, i));
    let q = "umount -R /boot && mount "@ + live + " /boot; "@;
    let j = a.len() + list.len() + b.len() - "umount -R /boot && mount "@.len();
    assert(t.subrange(j, j + q.len()) =~= q);
    assert(stands_at(t, q, j));
}

// ------------------------------------------------------------------ tables

/// Whether a step asks the partition table of this disk for this, and fails where it
/// cannot be had.
pub open spec fn asks_table(s: StepModel, words: Seq<Seq<char>>, d: Seq<char>) -> bool {
    command(s) == seq!["sgdisk"@] + words + seq!["/dev/"@ + d] && !forgiving(s)
}

/// What the first partition of a disk is: an esp, or a bios boot partition.
pub open spec fn first_of_disk(efi: bool) -> Seq<Seq<char>> {
    if efi {
        seq!["-n1:1M:+512M"@, "-t1:EF00"@]
    } else {
        seq!["-n1:1M:+16M"@, "-t1:EF02"@]
    }
}

/// What the second partition of a disk is: half a gigabyte for /boot.
pub open spec fn second_of_disk() -> Seq<Seq<char>> {
    seq!["-n2:0:+512M"@, "-t2:8301"@]
}

/// Whether the table of a disk is written: anew where the whole disk is rebuilt, else one
/// partition by one, each deleted before it is made.
pub open spec fn writes_table(
    efi: bool,
    parts: ReplaceParts,
    d: Seq<char>,
    v: Seq<StepModel>,
    i: int,
) -> bool {
    if parts.esp && parts.boot && parts.root {
        &&& 0 <= i && i + 3 <= v.len()
        &&& asks_table(v[i], seq!["--zap-all"@], d)
        &&& asks_table(v[i + 1], first_of_disk(efi), d)
        &&& asks_table(v[i + 2], second_of_disk(), d)
    } else {
        let b = if parts.esp {
            i + 2
        } else {
            i
        };
        let r = if parts.boot {
            b + 2
        } else {
            b
        };
        &&& 0 <= i
        &&& parts.esp ==> i + 2 <= v.len() && asks_table(v[i], seq!["-d1"@], d) && asks_table(
            v[i + 1],
            first_of_disk(efi),
            d,
        )
        &&& parts.boot ==> b + 2 <= v.len() && asks_table(v[b], seq!["-d2"@], d) && asks_table(
            v[b + 1],
            second_of_disk(),
            d,
        )
        &&& parts.root ==> r + 1 <= v.len() && asks_table(v[r], seq!["-d3"@], d)
    }
}

proof fn a_disk_is_repartitioned(efi: bool, parts: ReplaceParts, d: Seq<char>)
    ensures
        writes_table(efi, parts, d, repartition_disk(efi, parts, d), 0),
{
    numbers_of_partitions();
    let dev = "/dev/"@ + d;
    let v = repartition_disk(efi, parts, d);
    assert(seq!["sgdisk"@].push("--zap-all"@).push(dev) =~= seq!["sgdisk"@] + seq!["--zap-all"@]
        + seq![dev]);
    assert(seq!["sgdisk"@].push("-n1:1M:+512M"@).push("-t1:EF00"@).push(dev) =~= seq!["sgdisk"@]
        + seq!["-n1:1M:+512M"@, "-t1:EF00"@] + seq![dev]);
    assert(seq!["sgdisk"@].push("-n1:1M:+16M"@).push("-t1:EF02"@).push(dev) =~= seq!["sgdisk"@]
        + seq!["-n1:1M:+16M"@, "-t1:EF02"@] + seq![dev]);
    assert(seq!["sgdisk"@].push("-n2:0:+512M"@).push("-t2:8301"@).push(dev) =~= seq!["sgdisk"@]
        + seq!["-n2:0:+512M"@, "-t2:8301"@] + seq![dev]);
    assert(seq!["sgdisk"@].push("-d1"@).push(dev) =~= seq!["sgdisk"@] + seq!["-d1"@] + seq![dev]);
    assert(seq!["sgdisk"@].push("-d2"@).push(dev) =~= seq!["sgdisk"@] + seq!["-d2"@] + seq![dev]);
    assert(seq!["sgdisk"@].push("-d3"@).push(dev) =~= seq!["sgdisk"@] + seq!["-d3"@] + seq![dev]);
}

/// The table of every rebuilt disk is written for the layers that are named.
pub proof fn every_table_is_written(
    cfg: ConfigModel,
    layout: LayoutModel,
    stack: AnyStack,
    disks: Seq<Seq<char>>,
    parts: ReplaceParts,
    old_disks: Option<Seq<Seq<char>>>,
    k: int,
) -> (i: int)
    requires
        0 <= k < disks.len(),
    ensures
        writes_table(
            cfg.install.boot_mode == "efi"@,
            parts,
            disks[k],
            replace_plan(cfg, layout, stack, disks, parts, old_disks)[1].steps,
            i,
        ),
{
    let efi = cfg.efi();
    let healthy = survivors(layout.members, disks);
    let d = disks[k];
    let f = |d: Seq<char>| repartition_disk(efi, parts, d);
    let tables = each(disks, f);
    let i = each_stands_in_a_row(disks, f, k);
    a_disk_is_repartitioned(efi, parts, d);
    a_replace_removes_before_it_rebuilds(cfg, layout, stack, disks, parts, old_disks);
    let v = replace_plan(cfg, layout, stack, disks, parts, old_disks)[1].steps;
    let one = f(d);
    let n = one.len() as int;
    assert forall|j: int| 0 <= j < n implies v[i + j] == #[trigger] one[j] by {
        assert(tables.subrange(i, i + n)[j] == tables[i + j]);
    }
    assert(v.len() >= tables.len());
    the_row_is_written(efi, parts, d, v, i);
    i
}

proof fn the_row_is_written(
    efi: bool,
    parts: ReplaceParts,
    d: Seq<char>,
    v: Seq<StepModel>,
    i: int,
)
    requires
        0 <= i,
        i + repartition_disk(efi, parts, d).len() <= v.len(),
        forall|j: int|
            0 <= j < repartition_disk(efi, parts, d).len() ==> v[i + j]
                == #[trigger] repartition_disk(efi, parts, d)[j],
    ensures
        writes_table(efi, parts, d, v, i),
{
    let one = repartition_disk(efi, parts, d);
    a_disk_is_repartitioned(efi, parts, d);
    if parts.esp && parts.boot && parts.root {
        assert(v[i + 0] == one[0] && v[i + 1] == one[1] && v[i + 2] == one[2]);
    } else {
        let b: int = if parts.esp {
            2
        } else {
            0
        };
        let r: int = if parts.boot {
            b + 2
        } else {
            b
        };
        if parts.esp {
            assert(v[i + 0] == one[0] && v[i + 1] == one[1]);
        }
        if parts.boot {
            assert(v[i + b] == one[b] && v[i + (b + 1)] == one[b + 1]);
        }
        if parts.root {
            assert(v[i + r] == one[r]);
        }
    }
}

// ------------------------------------------------------------- boot layers

/// The partitions of this number on these disks.
pub open spec fn partitions(layout: LayoutModel, disks: Seq<Seq<char>>, n: nat) -> Seq<Seq<char>> {
    Seq::new(disks.len(), |k: int| layout.part(disks[k], n))
}

/// Every rebuilt esp is made anew, with the uuid that the survivors share.
pub proof fn every_esp_is_recreated(
    cfg: ConfigModel,
    layout: LayoutModel,
    stack: AnyStack,
    disks: Seq<Seq<char>>,
    parts: ReplaceParts,
    old_disks: Option<Seq<Seq<char>>>,
    k: int,
)
    requires
        0 <= k < disks.len(),
        cfg.install.boot_mode == "efi"@,
        parts.esp,
    ensures
        some_step(
            replace_plan(cfg, layout, stack, disks, parts, old_disks)[1].steps,
            |s: StepModel|
                has_suffix(script(s), makes_esp(layout.part(disks[k], 1))) && looks_for_uuid(
                    script(s),
                    "/boot/efi"@,
                    partitions(layout, survivors(layout.members, disks), 1),
                ) && !forgiving(s),
        ),
{
    broadcast use {some_of_push, some_of_both};

    let healthy = survivors(layout.members, disks);
    let p = |s: StepModel|
        has_suffix(script(s), makes_esp(layout.part(disks[k], 1))) && looks_for_uuid(
            script(s),
            "/boot/efi"@,
            partitions(layout, healthy, 1),
        ) && !forgiving(s);
    a_replace_removes_before_it_rebuilds(cfg, layout, stack, disks, parts, old_disks);
    let f = |e: Seq<char>| recreate_esp(layout, healthy, e);
    assert(some_step(each(disks, f), p)) by {
        broadcast use group_some_steps;

        an_esp_is_recreated(layout, healthy, disks[k]);
    }
}

/// Every rebuilt /boot is added to the boot array; an independent one is made anew, with
/// the uuid that the survivors share.
pub proof fn every_boot_is_rebuilt(
    cfg: ConfigModel,
    layout: LayoutModel,
    stack: AnyStack,
    disks: Seq<Seq<char>>,
    parts: ReplaceParts,
    old_disks: Option<Seq<Seq<char>>>,
    k: int,
)
    requires
        0 <= k < disks.len(),
        parts.boot,
    ensures
        ({
            let v = replace_plan(cfg, layout, stack, disks, parts, old_disks)[2].steps;
            let dev = layout.part(disks[k], 2);
            &&& layout.boot_mode is Raid ==> some_step(
                v,
                |s: StepModel|
                    takes_out_of(s, "--add"@, "/dev/md/boot"@, dev) && !forgiving(s),
            )
            &&& layout.boot_mode is Independent ==> some_step(
                v,
                |s: StepModel|
                    has_suffix(script(s), makes_boot(dev)) && looks_for_uuid(
                        script(s),
                        "/boot"@,
                        partitions(layout, survivors(layout.members, disks), 2),
                    ) && !forgiving(s),
            )
        }),
{
    let healthy = survivors(layout.members, disks);
    let dev = layout.part(disks[k], 2);
    let p = |s: StepModel| takes_out_of(s, "--add"@, "/dev/md/boot"@, dev) && !forgiving(s);
    let q = |s: StepModel|
        has_suffix(script(s), makes_boot(dev)) && looks_for_uuid(
            script(s),
            "/boot"@,
            partitions(layout, healthy, 2),
        ) && !forgiving(s);
    a_replace_removes_before_it_rebuilds(cfg, layout, stack, disks, parts, old_disks);
    let f = |d: Seq<char>| readd_boot(layout, d);
    let g = |e: Seq<char>| reformat_boot(layout, healthy, e);
    assert(some_step(each(disks, f), p)) by {
        broadcast use group_some_steps;

        words();
        let d = disks[k];
    }
    assert(some_step(each(disks, g), q)) by {
        broadcast use group_some_steps;

        a_boot_is_reformatted(layout, healthy, disks[k]);
    }
    reassembling_holds(cfg, layout, stack, disks, healthy, parts, p);
    reassembling_holds(cfg, layout, stack, disks, healthy, parts, q);
}

proof fn reassembling_holds(
    cfg: ConfigModel,
    layout: LayoutModel,
    stack: AnyStack,
    disks: Seq<Seq<char>>,
    healthy: Seq<Seq<char>>,
    parts: ReplaceParts,
    p: spec_fn(StepModel) -> bool,
)
    ensures
        ({
            let v = replace_reassemble_plan(cfg, layout, stack, disks, healthy, parts);
            &&& parts.boot && layout.boot_raid() && some_step(
                each(disks, |d: Seq<char>| readd_boot(layout, d)),
                p,
            ) ==> some_step(v, p)
            &&& parts.boot && !layout.boot_raid() && some_step(
                each(disks, |e: Seq<char>| reformat_boot(layout, healthy, e)),
                p,
            ) ==> some_step(v, p)
            &&& parts.root && some_step(stack.replace_plan(cfg, layout, disks), p) ==> some_step(
                v,
                p,
            )
        }),
{
    broadcast use {some_of_push, some_of_both};

}

/// Whether a script copies one esp to another: mounts the source, if it can so that
/// nothing is written to it, and where shim is there, fills the target and tests that shim
/// arrived.
pub open spec fn copies_esp(t: Seq<char>, src: Seq<char>, dst: Seq<char>) -> bool {
    &&& has_prefix(
        t,
        "x=$(mktemp -d); y=$(mktemp -d); "@ + "{ mount -o ro "@ + src + " \"$x\" 2>/dev/null || mount "@
            + src + " \"$x\"; }"@ + " && test -e "@ + "\"$x\""@ + "/"@ + "EFI/debian/shimx64.efi"@
            + " && mount "@ + dst + " \"$y\" && rsync "@ + "--times --recursive --delete"@ + " "@
            + "\"$x\""@ + "/ \"$y\"/ && test -e \"$y\"/"@ + "EFI/debian/shimx64.efi"@ + "; ok=$?"@,
    )
    &&& has_suffix(t, "; exit $ok"@)
}

/// Whether a script copies the mounted /boot to a partition, where it can be booted from.
pub open spec fn copies_boot(t: Seq<char>, dst: Seq<char>) -> bool {
    &&& has_prefix(
        t,
        "y=$(mktemp -d); mountpoint -q /boot"@ + " && test -e "@ + "/boot"@ + "/"@ + "grub/grub.cfg"@
            + " && mount "@ + dst + " \"$y\" && rsync "@
            + "--one-file-system --times --recursive --delete"@ + " "@ + "/boot"@
            + "/ \"$y\"/ && test -e \"$y\"/"@ + "grub/grub.cfg"@ + "; ok=$?"@,
    )
    &&& has_suffix(t, "; exit $ok"@)
}

proof fn an_esp_is_copied(src: Seq<char>, dst: Seq<char>)
    ensures
        copies_esp(clone_script(Some(src), dst, SHIM_FILE@), src, dst),
{
    let t = clone_script(Some(src), dst, SHIM_FILE@);
    reveal_strlit("; ok=$?; umount \"$y\" || ok=1; rmdir \"$y\"");
    reveal_strlit("; ok=$?");
    reveal_strlit("; umount \"$x\" || ok=1; rmdir \"$x\"; exit $ok");
    reveal_strlit("; exit $ok");
    let head = "x=$(mktemp -d); y=$(mktemp -d); "@ + "{ mount -o ro "@ + src
        + " \"$x\" 2>/dev/null || mount "@ + src + " \"$x\"; }"@ + " && test -e "@ + "\"$x\""@ + "/"@
        + "EFI/debian/shimx64.efi"@ + " && mount "@ + dst + " \"$y\" && rsync "@
        + "--times --recursive --delete"@ + " "@ + "\"$x\""@ + "/ \"$y\"/ && test -e \"$y\"/"@
        + "EFI/debian/shimx64.efi"@ + "; ok=$?"@;
    assert(t.take(head.len() as int) =~= head);
    assert(t.skip(t.len() - "; exit $ok"@.len()) =~= "; exit $ok"@);
}

proof fn a_boot_is_copied(dst: Seq<char>)
    ensures
        copies_boot(clone_script(None, dst, BOOT_MARKER@), dst),
{
    let t = clone_script(None, dst, BOOT_MARKER@);
    reveal_strlit("; ok=$?; umount \"$y\" || ok=1; rmdir \"$y\"");
    reveal_strlit("; ok=$?");
    reveal_strlit("; exit $ok");
    let head = "y=$(mktemp -d); mountpoint -q /boot"@ + " && test -e "@ + "/boot"@ + "/"@
        + "grub/grub.cfg"@ + " && mount "@ + dst + " \"$y\" && rsync "@
        + "--one-file-system --times --recursive --delete"@ + " "@ + "/boot"@
        + "/ \"$y\"/ && test -e \"$y\"/"@ + "grub/grub.cfg"@ + "; ok=$?"@;
    assert(t.take(head.len() as int) =~= head);
    assert(t.skip(t.len() - "; exit $ok"@.len()) =~= "; exit $ok"@);
}

/// Whether a step registers a boot entry that loads shim from the esp of this disk.
pub open spec fn registers(s: StepModel, d: Seq<char>) -> bool {
    let w = command(s);
    &&& runs(s, "efibootmgr"@) && w.len() == 11
    &&& w[1] == "-c"@ && w[3] == "-d"@ && w[4] == "/dev/"@ + d && w[5] == "-p"@ && w[6] == "1"@
    &&& w[7] == "-L"@ && w[8] == "debian-"@ + d
    &&& w[9] == "-l"@ && w[10] == "\\EFI\\debian\\shimx64.efi"@
}

/// A rebuilt disk can be booted from again: its esp is copied from a survivor's and
/// registered, or grub is installed to it, and its independent /boot is copied.
pub proof fn every_rebuilt_disk_boots(
    cfg: ConfigModel,
    layout: LayoutModel,
    stack: AnyStack,
    disks: Seq<Seq<char>>,
    parts: ReplaceParts,
    old_disks: Option<Seq<Seq<char>>>,
    k: int,
)
    requires
        0 <= k < disks.len(),
        parts.esp || parts.boot,
    ensures
        ({
            let plan = replace_plan(cfg, layout, stack, disks, parts, old_disks);
            let v = plan[3].steps;
            let efi = cfg.install.boot_mode == "efi"@;
            let d = disks[k];
            let home = survivors(layout.members, disks)[0];
            &&& plan.len() == 4 && plan[3].name == "bootloader"@
            &&& efi && parts.esp ==> some_step(
                v,
                |s: StepModel|
                    copies_esp(script(s), layout.part(home, 1), layout.part(d, 1)) && !forgiving(s),
            ) && some_step(v, |s: StepModel| registers(s, d) && !forgiving(s))
            &&& !efi ==> some_step(
                v,
                |s: StepModel|
                    runs_to(s, "grub-install"@, "/dev/"@ + d) && command(s).len() == 2
                        && !forgiving(s),
            )
            &&& parts.boot && layout.boot_mode is Independent ==> some_step(
                v,
                |s: StepModel| copies_boot(script(s), layout.part(d, 2)) && !forgiving(s),
            )
        }),
{
    let healthy = survivors(layout.members, disks);
    let home = healthy[0];
    let d = disks[k];
    let efi = cfg.efi();
    let swapped = old_disks is Some;
    a_replace_removes_before_it_rebuilds(cfg, layout, stack, disks, parts, old_disks);
    let v = replace_bootloader_plan(cfg, layout, stack, disks, home, parts, swapped);
    assert(boot_mount_steps_plan(layout, "/"@, efi).len() > 0);
    assert(v.len() > 0);
    let p = |s: StepModel|
        copies_esp(script(s), layout.part(home, 1), layout.part(d, 1)) && !forgiving(s);
    let q = |s: StepModel| registers(s, d) && !forgiving(s);
    let r = |s: StepModel|
        runs_to(s, "grub-install"@, "/dev/"@ + d) && command(s).len() == 2 && !forgiving(s);
    let b = |s: StepModel| copies_boot(script(s), layout.part(d, 2)) && !forgiving(s);
    repopulating_esps(layout, disks, home, k);
    repopulating_boots(layout, disks, k);
    booting_holds(cfg, layout, stack, disks, home, parts, swapped, p);
    booting_holds(cfg, layout, stack, disks, home, parts, swapped, q);
    booting_holds(cfg, layout, stack, disks, home, parts, swapped, r);
    booting_holds(cfg, layout, stack, disks, home, parts, swapped, b);
}

proof fn repopulating_esps(
    layout: LayoutModel,
    disks: Seq<Seq<char>>,
    home: Seq<char>,
    k: int,
)
    requires
        0 <= k < disks.len(),
    ensures
        ({
            let v = each(disks, |d: Seq<char>| repopulate_esp(layout, home, d));
            let d = disks[k];
            &&& some_step(
                v,
                |s: StepModel|
                    copies_esp(script(s), layout.part(home, 1), layout.part(d, 1)) && !forgiving(s),
            )
            &&& some_step(v, |s: StepModel| registers(s, d) && !forgiving(s))
        }),
{
    broadcast use group_some_steps;

    let d = disks[k];
    an_esp_is_copied(layout.part(home, 1), layout.part(d, 1));
    let f = repopulate_esp(layout, home, d);
    let p = |s: StepModel|
        copies_esp(script(s), layout.part(home, 1), layout.part(d, 1)) && !forgiving(s);
    let q = |s: StepModel| registers(s, d) && !forgiving(s);
    assert(p(f[0]));
    assert(command(f[1]) == register_words(d));
    assert(q(f[1]));
    assert(some_step(f, p) && some_step(f, q));
}

proof fn repopulating_boots(layout: LayoutModel, disks: Seq<Seq<char>>, k: int)
    requires
        0 <= k < disks.len(),
    ensures
        ({
            let d = disks[k];
            &&& some_step(
                each(disks, |e: Seq<char>| reinstall_grub(e)),
                |s: StepModel|
                    runs_to(s, "grub-install"@, "/dev/"@ + d) && command(s).len() == 2
                        && !forgiving(s),
            )
            &&& some_step(
                each(disks, |f: Seq<char>| clone_boot(layout, f)),
                |s: StepModel| copies_boot(script(s), layout.part(d, 2)) && !forgiving(s),
            )
        }),
{
    broadcast use group_some_steps;

    let d = disks[k];
    a_boot_is_copied(layout.part(d, 2));
    let f = clone_boot(layout, d);
    let b = |s: StepModel| copies_boot(script(s), layout.part(d, 2)) && !forgiving(s);
    assert(b(f[0]));
    assert(some_step(f, b));
}

/// What the last phase of a replace holds.
pub proof fn booting_holds(
    cfg: ConfigModel,
    layout: LayoutModel,
    stack: AnyStack,
    disks: Seq<Seq<char>>,
    survivor: Seq<char>,
    parts: ReplaceParts,
    swapped: bool,
    p: spec_fn(StepModel) -> bool,
)
    ensures
        ({
            let v = replace_bootloader_plan(cfg, layout, stack, disks, survivor, parts, swapped);
            let efi = cfg.efi();
            &&& efi && parts.esp && some_step(
                each(disks, |d: Seq<char>| repopulate_esp(layout, survivor, d)),
                p,
            ) ==> some_step(v, p)
            &&& !efi && (parts.esp || parts.boot) && some_step(
                each(disks, |e: Seq<char>| reinstall_grub(e)),
                p,
            ) ==> some_step(v, p)
            &&& parts.boot && !layout.boot_raid() && some_step(
                each(disks, |f: Seq<char>| clone_boot(layout, f)),
                p,
            ) ==> some_step(v, p)
            &&& parts.root && some_step(swap_crypttab_plan(layout, stack, swapped), p)
                ==> some_step(v, p)
        }),
{
    broadcast use {some_of_push, some_of_both};

}

// ------------------------------------------------------------- the rebuild

/// What is done behind the new members of the root: the rebuild is waited for, or the
/// missing devices are dropped and the data is spread over the new ones, at the
/// configured levels.
pub proof fn a_replace_restores_the_redundancy(
    cfg: ConfigModel,
    layout: LayoutModel,
    stack: AnyStack,
    disks: Seq<Seq<char>>,
)
    ensures
        ({
            let v = stack.replace_plan(cfg, layout, disks);
            let n = v.len() as int;
            let end = command(v[n - 1]);
            let metadata = if cfg.raid.metadata_level.len() == 0 {
                cfg.raid.level
            } else {
                cfg.raid.metadata_level
            };
            &&& n > 0 && !forgiving(v[n - 1])
            &&& stack is MdLvm || stack is MdIntegrity ==> end == seq![
                "mdadm"@,
                "--wait"@,
                "/dev/md/root"@,
            ]
            &&& stack is Zfs ==> end == seq!["zpool"@, "wait"@, "rpool"@]
            &&& stack is Btrfs ==> end == seq![
                "btrfs"@,
                "balance"@,
                "start"@,
                "-dconvert="@ + cfg.raid.level + ",soft"@,
                "-mconvert="@ + metadata + ",soft"@,
                "/"@,
            ]
            &&& stack is Bcachefs ==> n > 1 && end == seq![
                "bcachefs"@,
                "data"@,
                "rereplicate"@,
                "/"@,
            ] && command(v[n - 2]) == seq![
                "bcachefs"@,
                "device"@,
                "remove"@,
                "--force"@,
                "missing"@,
                "/"@,
            ]
        }),
{
    let v = stack.replace_plan(cfg, layout, disks);
    let n = v.len() as int;
    let metadata = cfg.metadata_level();
    assert(seq!["mdadm"@].push("--wait"@).push("/dev/md/root"@) =~= seq![
        "mdadm"@,
        "--wait"@,
        "/dev/md/root"@,
    ]);
    assert(seq!["zpool"@].push("wait"@).push("rpool"@) =~= seq!["zpool"@, "wait"@, "rpool"@]);
    assert(seq!["btrfs"@].push("balance"@).push("start"@).push(
        "-dconvert="@ + cfg.raid.level + ",soft"@,
    ).push("-mconvert="@ + metadata + ",soft"@).push("/"@) =~= seq![
        "btrfs"@,
        "balance"@,
        "start"@,
        "-dconvert="@ + cfg.raid.level + ",soft"@,
        "-mconvert="@ + metadata + ",soft"@,
        "/"@,
    ]);
    assert(seq!["bcachefs"@].push("data"@).push("rereplicate"@).push("/"@) =~= seq![
        "bcachefs"@,
        "data"@,
        "rereplicate"@,
        "/"@,
    ]);
    assert(seq!["bcachefs"@].push("device"@).push("remove"@).push("--force"@).push("missing"@).push(
        "/"@,
    ) =~= seq!["bcachefs"@, "device"@, "remove"@, "--force"@, "missing"@, "/"@]);
}

/// A replace in place leaves the crypttab as it is: its last phase is the same for every
/// stack, also for the one that keeps no member in the crypttab, and where only the root
/// is rebuilt there is none.
pub proof fn a_replace_in_place_keeps_the_crypttab(
    cfg: ConfigModel,
    layout: LayoutModel,
    a: AnyStack,
    b: AnyStack,
    disks: Seq<Seq<char>>,
    parts: ReplaceParts,
)
    ensures
        ({
            let p = replace_plan(cfg, layout, a, disks, parts, None);
            let q = replace_plan(cfg, layout, b, disks, parts, None);
            &&& p.len() == q.len()
            &&& p.len() == 4 ==> p[3] == q[3]
            &&& !parts.esp && !parts.boot ==> p.len() == 3
        }),
{
    let healthy = survivors(layout.members, disks);
    let none = Seq::<StepModel>::empty();
    a_replace_removes_before_it_rebuilds(cfg, layout, a, disks, parts, None);
    a_replace_removes_before_it_rebuilds(cfg, layout, b, disks, parts, None);
    assert(swap_crypttab_plan(layout, a, false) =~= none);
    assert(swap_crypttab_plan(layout, b, false) =~= none);
    let p = replace_bootloader_plan(cfg, layout, a, disks, healthy[0], parts, false);
    let q = replace_bootloader_plan(cfg, layout, b, disks, healthy[0], parts, false);
    assert(p =~= q);
    if !parts.esp && !parts.boot {
        assert(p =~= none);
    }
}

} // verus!
