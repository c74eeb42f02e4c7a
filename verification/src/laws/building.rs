//! What an install builds.
use vstd::prelude::*;
use vstd::string::*;

use crate::config::ConfigModel;
use crate::laws::effects::{
    all_before, before_in_few, command, each_stands_in_a_row, formats_a_layer, group_some_steps,
    maps_device, runs, runs_to, script, some_of_both, some_of_push, some_step, words,
};
use crate::laws::members::{
    every_member_is_prepared, luks_formats_as, luks_is_formatted_as_configured,
    members_are_prepared_in_order, prepares_in_order, prepares_root,
};
use crate::laws::opening::{mapping_of, opens_a_member};
use crate::laws::rebuilding::{asks_table, first_of_disk, partitions, second_of_disk};
use crate::laws::replacing::the_words_of_an_esp;
use crate::laws::forgiving;
use crate::layout::LayoutModel;
use crate::pipeline::{
    apt_phase_plan, bind_phase_plan, bootloader_phase_plan, close_phase_plan, finish_phase_plan,
    format_boot_copy, format_boot_independent_plan, format_esp_copy, format_esps_plan,
    format_phase_plan, install_base_phase_plan, install_plan, partition_disk, partition_disks_plan,
    partition_phase_plan, prepare_phase_plan, reset_phase_plan, strap_phase_plan, Staging,
};
use crate::stack::{md_create_plan, AnyStack, Stack};
use crate::step::{each, StepModel};
use crate::text::{dec, joined, opt_text, rest};

verus! {

/// The phases of an install, in order.
pub proof fn an_install_has_twelve_phases(
    cfg: ConfigModel,
    layout: LayoutModel,
    stack: AnyStack,
    staging: Staging,
)
    ensures
        ({
            let plan = install_plan(cfg, layout, stack, staging);
            &&& plan.len() == 12
            &&& plan[0].name == "apt"@
            &&& plan[1].name == "prepare"@
            &&& plan[2].name == "reset"@
            &&& plan[3].name == "partition"@
            &&& plan[4].name == "format"@
            &&& plan[5].name == "mount"@
            &&& plan[6].name == "strap"@
            &&& plan[7].name == "bind"@
            &&& plan[8].name == "install"@
            &&& plan[9].name == "bootloader"@
            &&& plan[10].name == "finish"@
            &&& plan[11].name == "close"@
        }),
{
}

/// What each phase of an install holds.
pub proof fn the_phases_hold(
    cfg: ConfigModel,
    layout: LayoutModel,
    stack: AnyStack,
    staging: Staging,
)
    ensures
        ({
            let plan = install_plan(cfg, layout, stack, staging);
            &&& plan[0] == apt_phase_plan(cfg, stack)
            &&& plan[1] == prepare_phase_plan()
            &&& plan[2] == reset_phase_plan(cfg, layout, stack)
            &&& plan[3] == partition_phase_plan(cfg, layout, stack)
            &&& plan[4] == format_phase_plan(cfg, layout, stack)
            &&& plan[5].steps == stack.mount_root_plan(cfg, layout)
            &&& plan[6] == strap_phase_plan(cfg)
            &&& plan[7] == bind_phase_plan(cfg, layout)
            &&& plan[8] == install_base_phase_plan(cfg, stack, staging.auto_root_password)
            &&& plan[9] == bootloader_phase_plan(cfg, layout)
            &&& plan[10] == finish_phase_plan(
                cfg,
                layout,
                stack,
                opt_text(staging.raiden_bin),
                staging.manifest@,
            )
            &&& plan[11] == close_phase_plan(cfg, layout, stack)
        }),
{
}

// --------------------------------------------------------------- the members

/// Whether the table of a disk is written anew, in a row of steps.
pub open spec fn writes_new_table(efi: bool, d: Seq<char>, v: Seq<StepModel>, i: int) -> bool {
    &&& 0 <= i && i + 3 <= v.len()
    &&& asks_table(v[i], seq!["--zap-all"@], d)
    &&& asks_table(v[i + 1], first_of_disk(efi), d)
    &&& asks_table(v[i + 2], second_of_disk(), d)
}

proof fn a_disk_is_partitioned(efi: bool, d: Seq<char>)
    ensures
        writes_new_table(efi, d, partition_disk(efi, d), 0),
        partition_disk(efi, d).len() == 3,
{
    let dev = "/dev/"@ + d;
    assert(seq!["sgdisk"@].push("--zap-all"@).push(dev) =~= seq!["sgdisk"@] + seq!["--zap-all"@]
        + seq![dev]);
    assert(seq!["sgdisk"@].push("-n1:1M:+512M"@).push("-t1:EF00"@).push(dev) =~= seq!["sgdisk"@]
        + seq!["-n1:1M:+512M"@, "-t1:EF00"@] + seq![dev]);
    assert(seq!["sgdisk"@].push("-n1:1M:+16M"@).push("-t1:EF02"@).push(dev) =~= seq!["sgdisk"@]
        + seq!["-n1:1M:+16M"@, "-t1:EF02"@] + seq![dev]);
    assert(seq!["sgdisk"@].push("-n2:0:+512M"@).push("-t2:8301"@).push(dev) =~= seq!["sgdisk"@]
        + seq!["-n2:0:+512M"@, "-t2:8301"@] + seq![dev]);
}

proof fn partitioning_disks_formats_nothing(
    layout: LayoutModel,
    efi: bool,
    stack: AnyStack,
)
    ensures
        !some_step(partition_disks_plan(layout, efi), formats_a_layer()),
        !some_step(partition_disks_plan(layout, efi), opens_a_member(stack)),
{
    broadcast use group_some_steps;

    words();
}

/// An install wipes all members first, then writes a new table to each.
pub proof fn every_member_gets_a_table(
    cfg: ConfigModel,
    layout: LayoutModel,
    stack: AnyStack,
    staging: Staging,
    k: int,
) -> (i: int)
    requires
        0 <= k < layout.members.len(),
    ensures
        ({
            let v = install_plan(cfg, layout, stack, staging)[3].steps;
            &&& runs_to(v[0], "wipefs"@, "-a"@) && !forgiving(v[0])
            &&& command(v[0]).len() == 2 + layout.members.len()
            &&& command(v[0])[2 + k] == "/dev/"@ + layout.members[k]
            &&& i > 0 && writes_new_table(
                cfg.install.boot_mode == "efi"@,
                layout.members[k],
                v,
                i,
            )
        }),
{
    let efi = cfg.efi();
    let d = layout.members[k];
    let f = |d: Seq<char>| partition_disk(efi, d);
    let tables = each(layout.members, f);
    let j = each_stands_in_a_row(layout.members, f, k);
    a_disk_is_partitioned(efi, d);
    let v = install_plan(cfg, layout, stack, staging)[3].steps;
    assert(v == partition_phase_plan(cfg, layout, stack).steps);
    let one = partition_disk(efi, d);
    assert(f(d) == one);
    let row = tables.subrange(j, j + 3);
    assert(row[0] == tables[j] && row[1] == tables[j + 1] && row[2] == tables[j + 2]);
    assert(v[j + 1] == tables[j] && v[j + 2] == tables[j + 1] && v[j + 3] == tables[j + 2]);
    j + 1
}

proof fn prepared_behind_tables(
    stack: AnyStack,
    cfg: ConfigModel,
    layout: LayoutModel,
    d: Seq<char>,
    a: Seq<StepModel>,
    b: Seq<StepModel>,
)
    requires
        prepares_root(stack, cfg, layout, d, b),
        prepares_in_order(stack, b),
        !some_step(a, formats_a_layer()),
        !some_step(a, opens_a_member(stack)),
    ensures
        prepares_root(stack, cfg, layout, d, a + b),
        prepares_in_order(stack, a + b),
{
    broadcast use group_some_steps;

}

proof fn tables_format_nothing(cfg: ConfigModel, layout: LayoutModel, stack: AnyStack) -> (a: Seq<
    StepModel,
>)
    ensures
        partition_phase_plan(cfg, layout, stack).steps == a + stack.partition_root_plan(
            cfg,
            layout,
        ),
        !some_step(a, formats_a_layer()),
        !some_step(a, opens_a_member(stack)),
{
    broadcast use group_some_steps;

    words();
    partitioning_disks_formats_nothing(layout, cfg.efi(), stack);
    let w = partition_phase_plan(cfg, layout, stack).steps[0];
    let a = seq![w] + partition_disks_plan(layout, cfg.efi());
    assert(partition_phase_plan(cfg, layout, stack).steps =~= a + stack.partition_root_plan(
        cfg,
        layout,
    ));
    a
}

/// An install prepares the root partition of every member: it is created, its layer is
/// formatted and opened, in this order.
pub proof fn an_install_prepares_every_member(
    cfg: ConfigModel,
    layout: LayoutModel,
    stack: AnyStack,
    staging: Staging,
    k: int,
)
    requires
        0 <= k < layout.members.len(),
    ensures
        ({
            let v = install_plan(cfg, layout, stack, staging)[3].steps;
            &&& prepares_root(stack, cfg, layout, layout.members[k], v)
            &&& prepares_in_order(stack, v)
        }),
{
    every_member_is_prepared(stack, cfg, layout, k);
    members_are_prepared_in_order(stack, cfg, layout);
    let a = tables_format_nothing(cfg, layout, stack);
    let b = stack.partition_root_plan(cfg, layout);
    prepared_behind_tables(stack, cfg, layout, layout.members[k], a, b);
    the_phases_hold(cfg, layout, stack, staging);
}

// ----------------------------------------------------------------- the array

/// The level of the metadata: that of the data where none is configured.
pub open spec fn metadata_of(cfg: ConfigModel) -> Seq<char> {
    if cfg.raid.metadata_level.len() == 0 {
        cfg.raid.level
    } else {
        cfg.raid.metadata_level
    }
}

/// Whether the command ends with these words.
pub open spec fn closes_with(w: Seq<Seq<char>>, end: Seq<Seq<char>>) -> bool {
    w.len() >= end.len() && w.skip(w.len() - end.len()) == end
}

/// The mapped devices of the members, in order.
pub open spec fn member_devices(stack: AnyStack, layout: LayoutModel) -> Seq<Seq<char>> {
    Seq::new(
        layout.members.len(),
        |k: int| "/dev/mapper/"@ + mapping_of(stack, layout, layout.members[k]),
    )
}

/// Whether a step creates an md array of this level over these devices.
pub open spec fn creates_md(
    s: StepModel,
    name: Seq<char>,
    level: Seq<char>,
    bitmap: Seq<char>,
    devices: Seq<Seq<char>>,
) -> bool {
    script(s) == "yes | mdadm --create --name="@ + name + " --level="@ + level
        + " --raid-devices="@ + dec(devices.len()) + " --bitmap="@ + bitmap + " /dev/md/"@ + name
        + " "@ + joined(devices, " "@)
}

/// Whether a step creates the root array or pool, of this level and over these devices.
pub open spec fn creates_array(
    stack: AnyStack,
    s: StepModel,
    level: Seq<char>,
    metadata: Seq<char>,
    bitmap: Seq<char>,
    devices: Seq<Seq<char>>,
) -> bool {
    match stack {
        AnyStack::Zfs(_) => runs_to(s, "zpool"@, "create"@) && closes_with(
            command(s),
            seq!["rpool"@, level] + devices,
        ),
        AnyStack::Btrfs(_) => runs(s, "mkfs.btrfs"@) && closes_with(
            command(s),
            seq!["-m"@, metadata, "-d"@, level] + devices,
        ),
        AnyStack::Bcachefs(_) => runs(s, "mkfs.bcachefs"@) && closes_with(
            command(s),
            seq!["--replicas="@ + level] + devices,
        ),
        _ => creates_md(s, "root"@, level, bitmap, devices),
    }
}

proof fn the_devices_are_the_members(stack: AnyStack, layout: LayoutModel)
    ensures
        !(stack is MdIntegrity) ==> layout.crypt_devices() == member_devices(stack, layout),
        stack is MdIntegrity ==> layout.int_devices() == member_devices(stack, layout),
{
    if stack is MdIntegrity {
        assert(layout.int_devices() =~= member_devices(stack, layout));
    } else {
        assert(layout.crypt_devices() =~= member_devices(stack, layout));
    }
}

proof fn formatting_creates_the_array(cfg: ConfigModel, layout: LayoutModel, stack: AnyStack)
    ensures
        some_step(
            stack.format_root_plan(cfg, layout),
            |s: StepModel|
                creates_array(
                    stack,
                    s,
                    cfg.raid.level,
                    metadata_of(cfg),
                    cfg.boot.bitmap,
                    member_devices(stack, layout),
                ) && !forgiving(s),
        ),
{
    broadcast use group_some_steps;

    words();
    the_devices_are_the_members(stack, layout);
    let devs = member_devices(stack, layout);
    let level = cfg.raid.level;
    let v = stack.format_root_plan(cfg, layout);
    let p = |s: StepModel|
        creates_array(
            stack,
            s,
            cfg.raid.level,
            metadata_of(cfg),
            cfg.boot.bitmap,
            devs,
        ) && !forgiving(s);
    match stack {
        AnyStack::Zfs(_) => {
            let w = command(v[1]);
            let end = seq!["rpool"@, level] + devs;
            assert(w.skip(w.len() - end.len()) =~= end);
            assert(p(v[1]));
        },
        AnyStack::Btrfs(_) => {
            let w = command(v[0]);
            let end = seq!["-m"@, metadata_of(cfg), "-d"@, level] + devs;
            assert(w.skip(w.len() - end.len()) =~= end);
            assert(p(v[0]));
        },
        AnyStack::Bcachefs(_) => {
            let w = command(v[1]);
            let end = seq!["--replicas="@ + level] + devs;
            assert(w.skip(w.len() - end.len()) =~= end);
            assert(p(v[1]));
        },
        _ => {
            assert(p(v[0]));
        },
    }
}

/// An install creates the root array or pool with the configured level, over the mapped
/// devices of all members, in order.
pub proof fn an_install_creates_the_array(
    cfg: ConfigModel,
    layout: LayoutModel,
    stack: AnyStack,
    staging: Staging,
)
    ensures
        some_step(
            install_plan(cfg, layout, stack, staging)[4].steps,
            |s: StepModel|
                creates_array(
                    stack,
                    s,
                    cfg.raid.level,
                    metadata_of(cfg),
                    cfg.boot.bitmap,
                    member_devices(stack, layout),
                ) && !forgiving(s),
        ),
{
    formatting_creates_the_array(cfg, layout, stack);
    let p = |s: StepModel|
        creates_array(
            stack,
            s,
            cfg.raid.level,
            metadata_of(cfg),
            cfg.boot.bitmap,
            member_devices(stack, layout),
        ) && !forgiving(s);
    formatting_holds(cfg, layout, stack, p);
    the_phases_hold(cfg, layout, stack, staging);
}

proof fn formatting_holds(
    cfg: ConfigModel,
    layout: LayoutModel,
    stack: AnyStack,
    p: spec_fn(StepModel) -> bool,
)
    ensures
        ({
            let v = format_phase_plan(cfg, layout, stack).steps;
            &&& some_step(stack.format_root_plan(cfg, layout), p) ==> some_step(v, p)
            &&& cfg.efi() && some_step(format_esps_plan(layout.esp_devices()), p) ==> some_step(
                v,
                p,
            )
            &&& !layout.boot_raid() && some_step(
                format_boot_independent_plan(layout.boot_devices()),
                p,
            ) ==> some_step(v, p)
        }),
{
    broadcast use {some_of_push, some_of_both};

}

/// The command that creates the array tells the levels apart: no command creates it with
/// two of them.
pub proof fn levels_are_told_apart(
    stack: AnyStack,
    s: StepModel,
    a: Seq<char>,
    b: Seq<char>,
    metadata: Seq<char>,
    bitmap: Seq<char>,
    devices: Seq<Seq<char>>,
)
    requires
        creates_array(stack, s, a, metadata, bitmap, devices),
        creates_array(stack, s, b, metadata, bitmap, devices),
    ensures
        a == b,
{
    let w = command(s);
    let n = (w.len() - devices.len()) as int;
    match stack {
        AnyStack::Zfs(_) => {
            assert((seq!["rpool"@, a] + devices)[1] == a);
            assert((seq!["rpool"@, b] + devices)[1] == b);
        },
        AnyStack::Btrfs(_) => {
            assert((seq!["-m"@, metadata, "-d"@, a] + devices)[3] == a);
            assert((seq!["-m"@, metadata, "-d"@, b] + devices)[3] == b);
        },
        AnyStack::Bcachefs(_) => {
            let o = "--replicas="@;
            assert((seq![o + a] + devices)[0] == o + a);
            assert((seq![o + b] + devices)[0] == o + b);
            assert((o + a).skip(o.len() as int) =~= a);
            assert((o + b).skip(o.len() as int) =~= b);
        },
        _ => {
            let t = script(s);
            let head = "yes | mdadm --create --name="@ + "root"@ + " --level="@;
            let i = head.len() as int;
            let tail = " --raid-devices="@ + dec(devices.len()) + " --bitmap="@ + bitmap
                + " /dev/md/"@ + "root"@ + " "@ + joined(devices, " "@);
            assert(t =~= head + a + tail);
            assert(t =~= head + b + tail);
            assert(t.subrange(i, i + a.len()) =~= a);
            assert(t.subrange(i, i + b.len()) =~= b);
            assert(a.len() == b.len());
        },
    }
}

// ------------------------------------------------------------ the root volume

/// Whether a step runs this program on this device, the last of its words.
pub open spec fn runs_on(s: StepModel, program: Seq<char>, dev: Seq<char>) -> bool {
    runs(s, program) && command(s).len() > 1 && command(s)[command(s).len() - 1] == dev
        && !forgiving(s)
}

/// The device that the volume group stands on.
pub open spec fn volume_device(stack: AnyStack) -> Seq<char> {
    if stack is MdIntegrity {
        "/dev/mapper/md_root_crypt"@
    } else {
        "/dev/md/root"@
    }
}

/// The root volume of an md stack is built from the array up: the crypt layer where it
/// stands on the array, the physical volume, the volume group, the volume, and the
/// filesystem on it.
pub proof fn the_root_volume_is_built_from_below(
    cfg: ConfigModel,
    layout: LayoutModel,
    stack: AnyStack,
)
    requires
        stack is MdLvm || stack is MdIntegrity,
    ensures
        ({
            let v = stack.format_root_plan(cfg, layout);
            let pv = volume_device(stack);
            let physical = |s: StepModel| runs_on(s, "pvcreate"@, pv);
            let group = |s: StepModel|
                runs_on(s, "vgcreate"@, pv) && command(s)[1] == "vg0"@;
            let volume = |s: StepModel|
                runs_on(s, "lvcreate"@, "vg0"@) && command(s)[2] == "--name=root"@;
            let made = |s: StepModel|
                runs_on(s, "mkfs.ext4"@, "/dev/vg0/root"@) || runs_on(
                    s,
                    "mkfs.xfs"@,
                    "/dev/vg0/root"@,
                );
            let sealed = |s: StepModel| luks_formats_as(cfg, s, "/dev/md/root"@) && !forgiving(s);
            let unsealed = |s: StepModel|
                maps_device(s, "/dev/md/root"@, "md_root_crypt"@) && !forgiving(s);
            &&& some_step(v, physical) && some_step(v, group) && some_step(v, volume)
            &&& some_step(v, made)
            &&& all_before(v, physical, group) && all_before(v, group, volume) && all_before(
                v,
                volume,
                made,
            )
            &&& stack is MdIntegrity ==> some_step(v, sealed) && some_step(v, unsealed)
                && all_before(v, sealed, unsealed) && all_before(v, unsealed, physical)
        }),
{
    broadcast use {group_some_steps, before_in_few};

    words();
    luks_is_formatted_as_configured(cfg, "/dev/md/root"@, "luks-format "@ + "/dev/md/root"@);
    reveal_strlit("--name=root");
    reveal_strlit("vg0");
    reveal_strlit("--extents=90%FREE");
}

// -------------------------------------------------------------- boot and esps

/// Whether a step makes an ext4 /boot on this device, with the uuid of another.
pub open spec fn makes_boot_like(s: StepModel, first: Seq<char>, dev: Seq<char>) -> bool {
    script(s) == "u=$(blkid -s UUID -o value "@ + first
        + "); mkfs.ext4 -m 0 -F -U \"$u\" -L boot "@ + dev && !forgiving(s)
}

/// Whether a step makes an esp on this device, with the uuid of another.
pub open spec fn makes_esp_like(s: StepModel, first: Seq<char>, dev: Seq<char>) -> bool {
    script(s) == "u=$(blkid -s UUID -o value "@ + first
        + " | tr -d -); mkfs.msdos -F 32 -s 1 -n EFI -i \"$u\" "@ + dev && !forgiving(s)
}

proof fn boots_share_a_uuid(layout: LayoutModel, k: int)
    requires
        0 <= k < layout.members.len(),
    ensures
        ({
            let v = format_boot_independent_plan(layout.boot_devices());
            let first = layout.part(layout.members[0], 2);
            let dev = layout.part(layout.members[k], 2);
            &&& k == 0 ==> some_step(v, |s: StepModel| runs_on(s, "mkfs.ext4"@, dev))
            &&& k > 0 ==> some_step(v, |s: StepModel| makes_boot_like(s, first, dev))
        }),
{
    broadcast use group_some_steps;

    words();
    let boot = layout.boot_devices();
    assert(boot[0] == layout.part(layout.members[0], 2));
    assert(boot[k] == layout.part(layout.members[k], 2));
    let f = |dev: Seq<char>| format_boot_copy(boot, dev);
    if k > 0 {
        assert(rest(boot)[k - 1] == boot[k]);
        let first = layout.part(layout.members[0], 2);
        let dev = layout.part(layout.members[k], 2);
        let p = |s: StepModel| makes_boot_like(s, first, dev);
        assert(p(format_boot_copy(boot, dev)[0]));
        assert(some_step(f(rest(boot)[k - 1]), p));
    }
}

proof fn esps_share_a_uuid(layout: LayoutModel, k: int)
    requires
        0 <= k < layout.members.len(),
    ensures
        ({
            let v = format_esps_plan(layout.esp_devices());
            let first = layout.part(layout.members[0], 1);
            let dev = layout.part(layout.members[k], 1);
            &&& k == 0 ==> some_step(v, |s: StepModel| runs_on(s, "mkfs.msdos"@, dev))
            &&& k > 0 ==> some_step(v, |s: StepModel| makes_esp_like(s, first, dev))
        }),
{
    broadcast use group_some_steps;

    words();
    let esps = layout.esp_devices();
    assert(esps[0] == layout.part(layout.members[0], 1));
    assert(esps[k] == layout.part(layout.members[k], 1));
    let f = |dev: Seq<char>| format_esp_copy(esps, dev);
    if k > 0 {
        assert(rest(esps)[k - 1] == esps[k]);
        let first = layout.part(layout.members[0], 1);
        let dev = layout.part(layout.members[k], 1);
        the_words_of_an_esp(dev);
        let p = |s: StepModel| makes_esp_like(s, first, dev);
        let s = format_esp_copy(esps, dev)[0];
        let a = " | tr -d -); "@;
        let b = "mkfs.msdos -F 32 -s 1 -n EFI -i \"$u\" "@;
        let c = " | tr -d -); mkfs.msdos -F 32 -s 1 -n EFI -i \"$u\" "@;
        reveal_strlit(" | tr -d -); ");
        reveal_strlit("mkfs.msdos -F 32 -s 1 -n EFI -i \"$u\" ");
        reveal_strlit(" | tr -d -); mkfs.msdos -F 32 -s 1 -n EFI -i \"$u\" ");
        assert(a + b =~= c);
        let head = "u=$(blkid -s UUID -o value "@ + first;
        assert(script(s) =~= head + (a + b) + dev);
        assert(p(s));
        assert(some_step(f(rest(esps)[k - 1]), p));
    }
}

/// The boot partitions of an install: one array over all members with a filesystem on it,
/// or a filesystem on each of them, all with the uuid of the first.
pub proof fn an_install_makes_every_boot(
    cfg: ConfigModel,
    layout: LayoutModel,
    stack: AnyStack,
    staging: Staging,
    k: int,
)
    requires
        0 <= k < layout.members.len(),
    ensures
        ({
            let v = install_plan(cfg, layout, stack, staging)[4].steps;
            let first = layout.part(layout.members[0], 2);
            let dev = layout.part(layout.members[k], 2);
            &&& runs_to(v[0], "mdadm"@, "--zero-superblock"@)
            &&& command(v[0]) == seq!["mdadm"@, "--zero-superblock"@] + partitions(
                layout,
                layout.members,
                2,
            )
            &&& layout.boot_mode is Raid ==> creates_md(
                v[1],
                "boot"@,
                dec(cfg.boot.level as nat),
                cfg.boot.bitmap,
                partitions(layout, layout.members, 2),
            ) && runs_on(v[2], "mkfs.ext4"@, "/dev/md/boot"@)
            &&& layout.boot_mode is Independent && k == 0 ==> some_step(
                v,
                |s: StepModel| runs_on(s, "mkfs.ext4"@, dev),
            )
            &&& layout.boot_mode is Independent && k > 0 ==> some_step(
                v,
                |s: StepModel| makes_boot_like(s, first, dev),
            )
        }),
{
    words();
    the_phases_hold(cfg, layout, stack, staging);
    boots_share_a_uuid(layout, k);
    let first = layout.part(layout.members[0], 2);
    let dev = layout.part(layout.members[k], 2);
    formatting_holds(cfg, layout, stack, |s: StepModel| runs_on(s, "mkfs.ext4"@, dev));
    formatting_holds(cfg, layout, stack, |s: StepModel| makes_boot_like(s, first, dev));
    formatting_begins(cfg, layout, stack);
}

proof fn formatting_begins(cfg: ConfigModel, layout: LayoutModel, stack: AnyStack)
    ensures
        ({
            let v = format_phase_plan(cfg, layout, stack).steps;
            let devs = partitions(layout, layout.members, 2);
            &&& v.len() > 0
            &&& command(v[0]) == seq!["mdadm"@, "--zero-superblock"@] + devs
            &&& layout.boot_mode is Raid ==> v.len() > 2 && v[1] == md_create_plan(
                "boot"@,
                dec(cfg.boot.level as nat),
                cfg.boot.bitmap,
                devs,
            ) && command(v[2]) == seq!["mkfs.ext4"@, "-m"@, "0"@, "/dev/md/boot"@] && !forgiving(
                v[2],
            )
        }),
{
    let devs = partitions(layout, layout.members, 2);
    assert(layout.boot_devices() =~= devs);
    let v = format_phase_plan(cfg, layout, stack).steps;
    assert(seq!["mdadm"@].push("--zero-superblock"@) + devs =~= seq!["mdadm"@, "--zero-superblock"@]
        + devs);
    assert(seq!["mkfs.ext4"@].push("-m"@).push("0"@).push("/dev/md/boot"@) =~= seq![
        "mkfs.ext4"@,
        "-m"@,
        "0"@,
        "/dev/md/boot"@,
    ]);
}

/// Every member's esp is made, all with the uuid of the first.
pub proof fn an_install_makes_every_esp(
    cfg: ConfigModel,
    layout: LayoutModel,
    stack: AnyStack,
    staging: Staging,
    k: int,
)
    requires
        0 <= k < layout.members.len(),
        cfg.install.boot_mode == "efi"@,
    ensures
        ({
            let v = install_plan(cfg, layout, stack, staging)[4].steps;
            let first = layout.part(layout.members[0], 1);
            let dev = layout.part(layout.members[k], 1);
            &&& k == 0 ==> some_step(v, |s: StepModel| runs_on(s, "mkfs.msdos"@, dev))
            &&& k > 0 ==> some_step(v, |s: StepModel| makes_esp_like(s, first, dev))
        }),
{
    the_phases_hold(cfg, layout, stack, staging);
    esps_share_a_uuid(layout, k);
    let first = layout.part(layout.members[0], 1);
    let dev = layout.part(layout.members[k], 1);
    formatting_holds(cfg, layout, stack, |s: StepModel| runs_on(s, "mkfs.msdos"@, dev));
    formatting_holds(cfg, layout, stack, |s: StepModel| makes_esp_like(s, first, dev));
}

} // verus!
