//! Post-install operations, assembled from the stack's methods and the reusable
//! phase builders. Each gives a plan, so all share the dry run, the execution and
//! the resume of install.
use vstd::prelude::*;
use vstd::string::*;

use crate::config::{Config, ConfigModel};
use crate::efi::{
    mkfs_esp_argv, mkfs_esp_words, register_argv, register_words, GRUB_FILE, SHIM_FILE,
};
use crate::layout::{Layout, LayoutModel, BOOT_MD_DEVICE, ESP_MOUNT};
use crate::pipeline::{
    apt_phase, apt_phase_plan, bind_phase, bind_phase_plan, boot_mount_steps, boot_mount_steps_plan,
    close_phase, close_phase_plan, first_partition, first_partition_plan, prepare_phase,
    prepare_phase_plan, sgdisk, sgdisk_plan,
};
use crate::stack::{md_drop_missing, md_drop_missing_plan, Stack};
use crate::step::{
    add_phase, add_step, add_steps, each, each_disk, models, no_steps, one_phase, one_step, phases, run_step,
    sh_step, Phase, PhaseModel, Step, StepModel,
};
use crate::text::{
    cmd, copy_texts, dec, decimal, join, joined, lists, push_text, show_text, shown_text, texts,
    ArgList,
};

verus! {

/// What a bootable /boot carries, relative to its mount point.
pub const BOOT_MARKER: &'static str = "grub/grub.cfg";

/// The plan of `rescue`.
pub open spec fn rescue_plan<S: Stack>(
    cfg: ConfigModel,
    layout: LayoutModel,
    stack: S,
) -> Seq<PhaseModel> {
    seq![
        apt_phase_plan(cfg, stack),
        prepare_phase_plan(),
        close_phase_plan(cfg, layout, stack),
        PhaseModel { name: "map"@, steps: stack.map_plan(cfg, layout) },
        PhaseModel { name: "mount"@, steps: stack.mount_root_plan(cfg, layout) },
        bind_phase_plan(cfg, layout),
    ]
}

/// Assembles, unlocks and mounts from a livecd, after first installing tools and
/// tearing down any partial state.
pub fn rescue<S: Stack>(cfg: &Config, layout: &Layout, stack: &S) -> (r: Vec<Phase>)
    ensures
        phases(r@) == rescue_plan(cfg@, layout@, *stack),
{
    let mut v = one_phase(apt_phase(cfg, stack));
    add_phase(&mut v, prepare_phase());
    add_phase(&mut v, close_phase(cfg, layout, stack));
    add_phase(&mut v, Phase::new("map", stack.map(cfg, layout)));
    add_phase(&mut v, Phase::new("mount", stack.mount_root(cfg, layout)));
    add_phase(&mut v, bind_phase(cfg, layout));
    v
}

/// Unmounts, stops the arrays and locks the crypt devices.
pub fn close<S: Stack>(cfg: &Config, layout: &Layout, stack: &S) -> (r: Vec<Phase>)
    ensures
        phases(r@) == seq![close_phase_plan(cfg@, layout@, *stack)],
{
    one_phase(close_phase(cfg, layout, stack))
}

/// The plan of `mount_steps`.
pub open spec fn mount_steps_plan<S: Stack>(
    cfg: ConfigModel,
    layout: LayoutModel,
    stack: S,
    boot_only: bool,
    at: Seq<char>,
) -> Seq<StepModel> {
    let s = Seq::<StepModel>::empty();
    let s = if !boot_only {
        let s = s + stack.map_plan(cfg, layout);
        s + stack.mount_root_plan(cfg, layout)
    } else {
        s
    };
    s + boot_mount_steps_plan(layout, at, cfg.efi())
}

/// The steps of `mount`.
pub fn mount_steps<S: Stack>(
    cfg: &Config,
    layout: &Layout,
    stack: &S,
    boot_only: bool,
    at: &str,
) -> (r: Vec<Step>)
    ensures
        models(r@) == mount_steps_plan(cfg@, layout@, *stack, boot_only, at@),
{
    let mut s = no_steps();
    if !boot_only {
        add_steps(&mut s, stack.map(cfg, layout));
        add_steps(&mut s, stack.mount_root(cfg, layout));
    }
    add_steps(&mut s, boot_mount_steps(layout, at, cfg.boots_efi()));
    s
}

/// Ensures that the stack is open and mounted. The full form opens the crypt layer,
/// assembles the array, activates lvm, and mounts root plus /boot and the esp;
/// `boot_only` mounts just /boot and the esp under `at`.
pub fn mount<S: Stack>(
    cfg: &Config,
    layout: &Layout,
    stack: &S,
    boot_only: bool,
    at: &str,
) -> (r: Vec<Phase>)
    ensures
        phases(r@) == seq![
            PhaseModel {
                name: "mount"@,
                steps: mount_steps_plan(cfg@, layout@, *stack, boot_only, at@),
            },
        ],
{
    one_phase(Phase::new("mount", mount_steps(cfg, layout, stack, boot_only, at)))
}

/// The plan of `scrub_steps`.
pub open spec fn scrub_steps_plan<S: Stack>(
    cfg: ConfigModel,
    layout: LayoutModel,
    stack: S,
) -> Seq<StepModel> {
    let s = Seq::<StepModel>::empty();
    let s = if layout.boot_raid() {
        let s = s.push(
            run_step(
                "start a check scrub on /boot"@,
                seq!["mdadm"@].push("--action=check"@).push(BOOT_MD_DEVICE@),
            ).best_effort(),
        );
        s.push(
            run_step(
                "wait for the boot scrub"@,
                seq!["mdadm"@].push("--wait"@).push(BOOT_MD_DEVICE@),
            ).best_effort(),
        )
    } else {
        s
    };
    s + stack.scrub_plan(cfg, layout)
}

/// The steps of `scrub`. An independent /boot has no array to scrub.
pub fn scrub_steps<S: Stack>(cfg: &Config, layout: &Layout, stack: &S) -> (r: Vec<Step>)
    ensures
        models(r@) == scrub_steps_plan(cfg@, layout@, *stack),
{
    let mut s = no_steps();
    if layout.boot_raid() {
        add_step(
            &mut s,
            Step::run_owned(
                "start a check scrub on /boot",
                cmd("mdadm").arg("--action=check").arg(BOOT_MD_DEVICE),
            ).best_effort(),
        );
        add_step(
            &mut s,
            Step::run_owned(
                "wait for the boot scrub",
                cmd("mdadm").arg("--wait").arg(BOOT_MD_DEVICE),
            ).best_effort(),
        );
    }
    add_steps(&mut s, stack.scrub(cfg, layout));
    s
}

/// Scrubs the arrays.
pub fn scrub<S: Stack>(cfg: &Config, layout: &Layout, stack: &S) -> (r: Vec<Phase>)
    ensures
        phases(r@) == seq![
            PhaseModel { name: "scrub"@, steps: scrub_steps_plan(cfg@, layout@, *stack) },
        ],
{
    one_phase(Phase::new("scrub", scrub_steps(cfg, layout, stack)))
}

/// Why an operation on named disks is refused.
#[derive(Debug)]
pub enum OpsError {
    NoDisks,
    NotAMember(String),
    /// At least one member must survive to clone from.
    NoSurvivor,
}

/// What is wrong with the named disks.
pub enum OpsFault {
    NoDisks,
    NotAMember(Seq<char>),
    NoSurvivor,
}

impl View for OpsError {
    type V = OpsFault;

    open spec fn view(&self) -> OpsFault {
        match self {
            OpsError::NoDisks => OpsFault::NoDisks,
            OpsError::NotAMember(d) => OpsFault::NotAMember(d@),
            OpsError::NoSurvivor => OpsFault::NoSurvivor,
        }
    }
}

impl OpsFault {
    /// What is printed of the fault.
    pub open spec fn text(self) -> Seq<char> {
        match self {
            OpsFault::NoDisks => "no disks specified"@,
            OpsFault::NotAMember(d) => shown_text(d) + " is not a configured member disk"@,
            OpsFault::NoSurvivor =>
                "cannot replace every disk at once; at least one member must survive to clone from"@,
        }
    }
}

impl OpsError {
    /// What is printed of the error.
    pub fn message(&self) -> (r: String)
        ensures
            r@ == self@.text(),
    {
        match self {
            OpsError::NoDisks => "no disks specified".to_owned(),
            OpsError::NotAMember(d) => show_text(d.as_str()).concat(
                " is not a configured member disk",
            ),
            OpsError::NoSurvivor =>
                "cannot replace every disk at once; at least one member must survive to clone from".to_owned(),
        }
    }
}

/// The first of the disks that is no member.
pub open spec fn first_stranger(members: Seq<Seq<char>>, disks: Seq<Seq<char>>) -> Option<Seq<char>>
    decreases disks.len(),
{
    if disks.len() == 0 {
        None
    } else if !members.contains(disks[0]) {
        Some(disks[0])
    } else {
        first_stranger(members, disks.skip(1))
    }
}

/// What keeps the named disks from being operated on.
pub open spec fn members_fault(layout: LayoutModel, disks: Seq<Seq<char>>) -> Option<OpsFault> {
    if disks.len() == 0 {
        Some(OpsFault::NoDisks)
    } else {
        match first_stranger(layout.members, disks) {
            Some(d) => Some(OpsFault::NotAMember(d)),
            None => None,
        }
    }
}

/// No disk is a stranger exactly where every disk is a member.
pub proof fn no_stranger_means_all_members(members: Seq<Seq<char>>, disks: Seq<Seq<char>>)
    ensures
        first_stranger(members, disks) is None <==> forall|i: int|
            0 <= i < disks.len() ==> members.contains(#[trigger] disks[i]),
    decreases disks.len(),
{
    if disks.len() > 0 {
        let tail = disks.skip(1);
        no_stranger_means_all_members(members, tail);
        if first_stranger(members, disks) is None {
            assert forall|i: int| 0 <= i < disks.len() implies members.contains(
                #[trigger] disks[i],
            ) by {
                if i > 0 {
                    assert(tail[i - 1] == disks[i]);
                }
            }
        } else if members.contains(disks[0]) {
            let i = choose|i: int| 0 <= i < tail.len() && !members.contains(#[trigger] tail[i]);
            assert(disks[i + 1] == tail[i]);
        }
    }
}

fn check_members(layout: &Layout, disks: &Vec<String>) -> (res: Result<(), OpsError>)
    ensures
        res is Ok <==> members_fault(layout@, texts(disks@)) is None,
        res is Err ==> members_fault(layout@, texts(disks@)) == Some(res->Err_0@),
{
    let ghost all = texts(disks@);
    if disks.len() == 0 {
        return Err(OpsError::NoDisks);
    }
    let mut i: usize = 0;
    assert(all.skip(0) =~= all);
    while i < disks.len()
        invariant
            i <= disks.len(),
            all == texts(disks@),
            first_stranger(layout@.members, all) == first_stranger(
                layout@.members,
                all.skip(i as int),
            ),
        decreases disks.len() - i,
    {
        assert(all.skip(i as int)[0] == all[i as int]);
        if !lists(&layout.members, disks[i].as_str()) {
            return Err(OpsError::NotAMember(disks[i].clone()));
        }
        assert(all.skip(i as int).skip(1) =~= all.skip(i + 1));
        i += 1;
    }
    Ok(())
}

/// The plan of `remove_steps`.
pub open spec fn remove_steps_plan<S: Stack>(
    cfg: ConfigModel,
    layout: LayoutModel,
    stack: S,
    disks: Seq<Seq<char>>,
) -> Seq<StepModel> {
    boot_detach_plan(layout, disks) + stack.remove_plan(cfg, layout, disks)
}

/// The steps of `remove`.
pub fn remove_steps<S: Stack>(
    cfg: &Config,
    layout: &Layout,
    stack: &S,
    disks: &Vec<String>,
) -> (r: Vec<Step>)
    ensures
        models(r@) == remove_steps_plan(cfg@, layout@, *stack, texts(disks@)),
{
    let mut s = no_steps();
    add_steps(&mut s, boot_detach(layout, disks));
    add_steps(&mut s, stack.remove(cfg, layout, disks));
    s
}

/// Detaches disks from the arrays.
pub fn remove<S: Stack>(
    cfg: &Config,
    layout: &Layout,
    stack: &S,
    disks: &Vec<String>,
) -> (res: Result<Vec<Phase>, OpsError>)
    ensures
        res is Ok <==> members_fault(layout@, texts(disks@)) is None,
        res is Err ==> members_fault(layout@, texts(disks@)) == Some(res->Err_0@),
        res is Ok ==> phases(res->Ok_0@) == seq![
            PhaseModel {
                name: "remove"@,
                steps: remove_steps_plan(cfg@, layout@, *stack, texts(disks@)),
            },
        ],
{
    match check_members(layout, disks) {
        Ok(()) => Ok(one_phase(Phase::new("remove", remove_steps(cfg, layout, stack, disks)))),
        Err(e) => Err(e),
    }
}

/// Which per-disk layers a replace rebuilds.
#[derive(Clone, Copy)]
pub struct ReplaceParts {
    pub esp: bool,
    pub boot: bool,
    pub root: bool,
}

impl ReplaceParts {
    /// The layers that the flags name; no flag means all of them (the whole disk).
    pub fn from_flags(esp: bool, boot: bool, root: bool) -> (r: Self)
        ensures
            r == (if !esp && !boot && !root {
                ReplaceParts { esp: true, boot: true, root: true }
            } else {
                ReplaceParts { esp, boot, root }
            }),
    {
        if !esp && !boot && !root {
            Self { esp: true, boot: true, root: true }
        } else {
            Self { esp, boot, root }
        }
    }

    /// Whether the whole disk is rebuilt.
    pub open spec fn whole(self) -> bool {
        self.esp && self.boot && self.root
    }

    /// Whether the whole disk is rebuilt.
    pub fn full(&self) -> (r: bool)
        ensures
            r == self.whole(),
    {
        self.esp && self.boot && self.root
    }
}

/// The members that are not among the disks, in order.
pub open spec fn survivors(members: Seq<Seq<char>>, disks: Seq<Seq<char>>) -> Seq<Seq<char>>
    decreases members.len(),
{
    if members.len() == 0 {
        Seq::empty()
    } else if disks.contains(members.last()) {
        survivors(members.drop_last(), disks)
    } else {
        survivors(members.drop_last(), disks).push(members.last())
    }
}

fn healthy_members(layout: &Layout, disks: &Vec<String>) -> (r: Vec<String>)
    ensures
        texts(r@) == survivors(layout@.members, texts(disks@)),
{
    let ghost all = layout@.members;
    let mut out: Vec<String> = Vec::new();
    assert(texts(out@) =~= Seq::<Seq<char>>::empty());
    let mut i: usize = 0;
    while i < layout.members.len()
        invariant
            i <= layout.members.len(),
            all == layout@.members,
            texts(out@) == survivors(all.take(i as int), texts(disks@)),
        decreases layout.members.len() - i,
    {
        assert(all.take(i + 1).drop_last() =~= all.take(i as int));
        if !lists(disks, layout.members[i].as_str()) {
            push_text(&mut out, layout.members[i].as_str());
        }
        i += 1;
    }
    assert(all.take(all.len() as int) =~= all);
    out
}

/// A survivor is a member, and none of the disks that are rebuilt.
pub proof fn survivors_are_the_others(members: Seq<Seq<char>>, disks: Seq<Seq<char>>, d: Seq<char>)
    ensures
        survivors(members, disks).contains(d) <==> members.contains(d) && !disks.contains(d),
    decreases members.len(),
{
    let s = survivors(members, disks);
    if members.len() > 0 {
        let rest = members.drop_last();
        survivors_are_the_others(rest, disks, d);
        if members.contains(d) {
            let i = choose|i: int| 0 <= i < members.len() && members[i] == d;
            if i < rest.len() {
                assert(rest[i] == d);
            }
        }
        if rest.contains(d) {
            let i = choose|i: int| 0 <= i < rest.len() && rest[i] == d;
            assert(members[i] == d);
        }
        assert(members[members.len() - 1] == members.last());
        if !disks.contains(members.last()) {
            let r = survivors(rest, disks);
            assert(s == r.push(members.last()));
            if r.contains(d) {
                let i = choose|i: int| 0 <= i < r.len() && r[i] == d;
                assert(s[i] == d);
            }
            assert(s[s.len() - 1] == members.last());
            if s.contains(d) {
                let i = choose|i: int| 0 <= i < s.len() && s[i] == d;
                if i < r.len() {
                    assert(r[i] == d);
                }
            }
        }
    }
}

/// The disks that leave: the old ones of a swap, or the ones that are rebuilt in place.
pub open spec fn leaving(disks: Seq<Seq<char>>, old: Option<Seq<Seq<char>>>) -> Seq<Seq<char>> {
    match old {
        Some(v) => v,
        None => disks,
    }
}

/// The steps of `replace_remove` for one disk.
pub open spec fn unmount_esp(layout: LayoutModel, d: Seq<char>) -> Seq<StepModel> {
    let esp = layout.part(d, 1);
    seq![
        run_step("unmount "@ + esp + " if mounted"@, seq!["umount"@].push(esp)).best_effort(),
    ]
}

/// The steps of `replace_remove` for one disk.
pub open spec fn wipe_disk(
    layout: LayoutModel,
    parts: ReplaceParts,
    e: Seq<char>,
) -> Seq<StepModel> {
    let s = Seq::<StepModel>::empty();
    let s = if parts.esp {
        s.push(wipe_step_plan(layout.part(e, 1)))
    } else {
        s
    };
    let s = if parts.boot {
        s.push(wipe_step_plan(layout.part(e, 2)))
    } else {
        s
    };
    if parts.root {
        s.push(wipe_step_plan(layout.part(e, 3)))
    } else {
        s
    }
}

/// The plan of `replace_remove`.
pub open spec fn replace_remove_plan<S: Stack>(
    cfg: ConfigModel,
    layout: LayoutModel,
    stack: S,
    gone: Seq<Seq<char>>,
    disks: Seq<Seq<char>>,
    survivor: Seq<char>,
    parts: ReplaceParts,
) -> Seq<StepModel> {
    let s = Seq::<StepModel>::empty();
    let s = if parts.boot {
        let s = s + boot_detach_plan(layout, gone);
        if !layout.boot_raid() {
            s.push(relocate_boot_step_plan(layout, gone, survivor))
        } else {
            s
        }
    } else {
        s
    };
    let s = if parts.root {
        s + stack.remove_plan(cfg, layout, gone)
    } else {
        s
    };
    let s = if parts.esp {
        s + each(gone, |d: Seq<char>| unmount_esp(layout, d))
    } else {
        s
    };
    let s = s.push(
        run_step("settle udev after teardown"@, seq!["udevadm"@].push("settle"@)).best_effort(),
    );
    s + each(disks, |e: Seq<char>| wipe_disk(layout, parts, e))
}

/// Detaches the selected layers of the leaving disks, and wipes the partitions of the
/// ones that are rebuilt. The old disks of a swap are never wiped.
pub fn replace_remove<S: Stack>(
    cfg: &Config,
    layout: &Layout,
    stack: &S,
    gone: &Vec<String>,
    disks: &Vec<String>,
    survivor: &str,
    parts: &ReplaceParts,
) -> (r: Vec<Step>)
    ensures
        models(r@) == replace_remove_plan(
            cfg@,
            layout@,
            *stack,
            texts(gone@),
            texts(disks@),
            survivor@,
            *parts,
        ),
{
    let mut s = no_steps();
    if parts.boot {
        add_steps(&mut s, boot_detach(layout, gone));
        // an independent /boot mounts by the shared uuid, so it may sit on a disk that is
        // about to be rebuilt; move it to a survivor first.
        if !layout.boot_raid() {
            add_step(&mut s, relocate_boot_step(layout, gone, survivor));
        }
    }
    if parts.root {
        add_steps(&mut s, stack.remove(cfg, layout, gone));
    }
    if parts.esp {
        // a mounted esp cannot be reformatted; best-effort, since a mirror is not mounted.
        let each_d = |d: &str| -> (s: Vec<Step>)
            ensures
                models(s@) == unmount_esp(layout@, d@),
        {
            let mut s = no_steps();
            let esp_text = layout.part(d, 1);
            let esp = esp_text.as_str();
            add_step(
                &mut s,
                Step::run_owned(
                    "unmount ".to_owned().concat(esp).concat(" if mounted").as_str(),
                    cmd("umount").arg(esp),
                ).best_effort(),
            );
            s
        };
        add_steps(&mut s, each_disk(gone, each_d, Ghost(|d: Seq<char>| unmount_esp(layout@, d))));
    }
    // udev frees the just-closed devices asynchronously.
    add_step(
        &mut s,
        Step::run_owned("settle udev after teardown", cmd("udevadm").arg("settle")).best_effort(),
    );
    let each_e = |e: &str| -> (s: Vec<Step>)
        ensures
            models(s@) == wipe_disk(layout@, *parts, e@),
    {
        let mut s = no_steps();
        if parts.esp {
            add_step(&mut s, wipe_step(layout.part(e, 1).as_str()));
        }
        if parts.boot {
            add_step(&mut s, wipe_step(layout.part(e, 2).as_str()));
        }
        if parts.root {
            add_step(&mut s, wipe_step(layout.part(e, 3).as_str()));
        }
        s
    };
    add_steps(
        &mut s,
        each_disk(disks, each_e, Ghost(|e: Seq<char>| wipe_disk(layout@, *parts, e))),
    );
    s
}

/// The plan of `wipe_step`.
pub open spec fn wipe_step_plan(dev: Seq<char>) -> StepModel {
    run_step("wipe "@ + dev, seq!["wipefs"@].push("-a"@).push(dev)).best_effort()
}

/// Wipes the signatures of a partition, best-effort: it may be gone.
pub fn wipe_step(dev: &str) -> (r: Step)
    ensures
        r@ == wipe_step_plan(dev@),
{
    Step::run_owned(
        "wipe ".to_owned().concat(dev).as_str(),
        cmd("wipefs").arg("-a").arg(dev),
    ).best_effort()
}

/// The steps of `replace_reassemble` for one disk.
pub open spec fn readd_boot(layout: LayoutModel, d: Seq<char>) -> Seq<StepModel> {
    let bdev = layout.part(d, 2);
    seq![
        run_step(
            "add "@ + bdev + " to the boot array"@,
            seq!["mdadm"@].push("--add"@).push(BOOT_MD_DEVICE@).push(bdev),
        ),
    ]
}

/// The steps of `replace_reassemble` for one disk.
pub open spec fn reformat_boot(
    layout: LayoutModel,
    healthy: Seq<Seq<char>>,
    e: Seq<char>,
) -> Seq<StepModel> {
    seq![reformat_boot_step_plan(layout.part(e, 2), layout.subset(healthy).boot_devices())]
}

/// The start of a script that finds the uuid of a mount: that of its fstab entry, or
/// else of the first of the devices that has one. It is left empty where none has.
pub open spec fn find_uuid(mount: Seq<char>, devices: Seq<Seq<char>>) -> Seq<char> {
    "uuid=$(awk '$2==\""@ + mount + "\" {print $1}' /etc/fstab | sed 's/^UUID=//'); for d in "@
        + joined(devices, " "@)
        + "; do [ -n \"$uuid\" ] && break; uuid=$(blkid -s UUID -o value \"$d\" 2>/dev/null); done; "@
}

fn uuid_script(mount: &str, devices: &Vec<String>) -> (r: String)
    ensures
        r@ == find_uuid(mount@, texts(devices@)),
{
    "uuid=$(awk '$2==\"".to_owned().concat(mount).concat(
        "\" {print $1}' /etc/fstab | sed 's/^UUID=//'); for d in ",
    ).concat(join(devices, " ").as_str()).concat(
        "; do [ -n \"$uuid\" ] && break; uuid=$(blkid -s UUID -o value \"$d\" 2>/dev/null); done; ",
    )
}

/// The plan of `reformat_boot_step`.
pub open spec fn reformat_boot_step_plan(bdev: Seq<char>, others: Seq<Seq<char>>) -> StepModel {
    sh_step(
        "format "@ + bdev + " as ext4 sharing the /boot uuid"@,
        find_uuid("/boot"@, others)
            + "if [ -n \"$uuid\" ]; then mkfs.ext4 -m 0 -F -U \"$uuid\" -L boot "@ + bdev
            + "; else mkfs.ext4 -m 0 -F -L boot "@ + bdev + "; fi"@,
    )
}

/// Formats an independent /boot with the uuid that all copies share: that of the fstab
/// entry, or else of a surviving copy. Only where every copy is gone does it get a fresh
/// one.
pub fn reformat_boot_step(bdev: &str, others: &Vec<String>) -> (r: Step)
    ensures
        r@ == reformat_boot_step_plan(bdev@, texts(others@)),
{
    Step::sh(
        "format ".to_owned().concat(bdev).concat(" as ext4 sharing the /boot uuid").as_str(),
        uuid_script("/boot", others).concat(
            "if [ -n \"$uuid\" ]; then mkfs.ext4 -m 0 -F -U \"$uuid\" -L boot ",
        ).concat(bdev).concat("; else mkfs.ext4 -m 0 -F -L boot ").concat(bdev).concat(
            "; fi",
        ).as_str(),
    )
}

/// The plan of `replace_reassemble`.
pub open spec fn replace_reassemble_plan<S: Stack>(
    cfg: ConfigModel,
    layout: LayoutModel,
    stack: S,
    disks: Seq<Seq<char>>,
    healthy: Seq<Seq<char>>,
    parts: ReplaceParts,
) -> Seq<StepModel> {
    let s = seq![
        run_step(
            "settle udev after repartitioning"@,
            seq!["udevadm"@].push("settle"@),
        ).best_effort(),
    ];
    let s = if parts.boot {
        if layout.boot_raid() {
            s + each(disks, |d: Seq<char>| readd_boot(layout, d))
        } else {
            s + each(disks, |e: Seq<char>| reformat_boot(layout, healthy, e))
        }
    } else {
        s
    };
    let s = if parts.root {
        s + stack.replace_plan(cfg, layout, disks)
    } else {
        s
    };
    if parts.boot && layout.boot_raid() {
        s.push(
            run_step(
                "wait for the boot array rebuild"@,
                seq!["mdadm"@].push("--wait"@).push(BOOT_MD_DEVICE@),
            ).best_effort(),
        )
    } else {
        s
    }
}

/// Re-adds the rebuilt boot and root members and waits for the rebuild.
pub fn replace_reassemble<S: Stack>(
    cfg: &Config,
    layout: &Layout,
    stack: &S,
    disks: &Vec<String>,
    healthy: &Vec<String>,
    parts: &ReplaceParts,
) -> (r: Vec<Step>)
    ensures
        models(r@) == replace_reassemble_plan(
            cfg@,
            layout@,
            *stack,
            texts(disks@),
            texts(healthy@),
            *parts,
        ),
{
    let mut s = no_steps();
    add_step(
        &mut s,
        Step::run_owned(
            "settle udev after repartitioning",
            cmd("udevadm").arg("settle"),
        ).best_effort(),
    );
    if parts.boot {
        if layout.boot_raid() {
            let each_d = |d: &str| -> (s: Vec<Step>)
                ensures
                    models(s@) == readd_boot(layout@, d@),
            {
                let mut s = no_steps();
                let bdev_text = layout.part(d, 2);
                let bdev = bdev_text.as_str();
                add_step(
                    &mut s,
                    Step::run_owned(
                        "add ".to_owned().concat(bdev).concat(" to the boot array").as_str(),
                        cmd("mdadm").arg("--add").arg(BOOT_MD_DEVICE).arg(bdev),
                    ),
                );
                s
            };
            add_steps(
                &mut s,
                each_disk(disks, each_d, Ghost(|d: Seq<char>| readd_boot(layout@, d))),
            );
        } else {
            // no array: each /boot is created anew with the shared uuid, so its grub finds a
            // local copy; the content is cloned in the bootloader phase.
            let each_e = |e: &str| -> (s: Vec<Step>)
                ensures
                    models(s@) == reformat_boot(layout@, texts(healthy@), e@),
            {
                let mut s = no_steps();
                let bdev_text = layout.part(e, 2);
                let bdev = bdev_text.as_str();
                add_step(
                    &mut s,
                    reformat_boot_step(bdev, &layout.subset(healthy).boot_devices()),
                );
                s
            };
            add_steps(
                &mut s,
                each_disk(
                    disks,
                    each_e,
                    Ghost(|e: Seq<char>| reformat_boot(layout@, texts(healthy@), e)),
                ),
            );
        }
    }
    if parts.root {
        add_steps(&mut s, stack.replace(cfg, layout, disks));
    }
    if parts.boot && layout.boot_raid() {
        // returning with /boot mid-rebuild leaves it unreadable by grub.
        add_step(
            &mut s,
            Step::run_owned(
                "wait for the boot array rebuild",
                cmd("mdadm").arg("--wait").arg(BOOT_MD_DEVICE),
            ).best_effort(),
        );
    }
    s
}

/// The plan of `replace_partition`.
pub open spec fn replace_partition_plan<S: Stack>(
    cfg: ConfigModel,
    layout: LayoutModel,
    stack: S,
    disks: Seq<Seq<char>>,
    healthy: Seq<Seq<char>>,
    parts: ReplaceParts,
) -> Seq<StepModel> {
    let s = partition_replacements_plan(layout, disks, healthy, cfg.efi(), parts);
    if parts.root {
        s + stack.partition_root_plan(cfg, layout.subset(disks))
    } else {
        s
    }
}

/// The steps that recreate the partitions and bring up the root layer.
pub fn replace_partition<S: Stack>(
    cfg: &Config,
    layout: &Layout,
    stack: &S,
    disks: &Vec<String>,
    healthy: &Vec<String>,
    parts: &ReplaceParts,
) -> (r: Vec<Step>)
    ensures
        models(r@) == replace_partition_plan(
            cfg@,
            layout@,
            *stack,
            texts(disks@),
            texts(healthy@),
            *parts,
        ),
{
    let mut s = no_steps();
    add_steps(&mut s, partition_replacements(layout, disks, healthy, cfg.boots_efi(), parts));
    if parts.root {
        add_steps(&mut s, stack.partition_root(cfg, &layout.subset(disks)));
    }
    s
}

/// Rewrites the crypttab for the swapped members, where it names them.
pub open spec fn swap_crypttab_plan<S: Stack>(
    layout: LayoutModel,
    stack: S,
    swapped: bool,
) -> Seq<StepModel> {
    match stack.crypttab_regen_plan(layout) {
        Some(step) => if swapped {
            seq![step]
        } else {
            Seq::empty()
        },
        None => Seq::empty(),
    }
}

fn swap_crypttab<S: Stack>(layout: &Layout, stack: &S, swapped: bool) -> (r: Vec<Step>)
    ensures
        models(r@) == swap_crypttab_plan(layout@, *stack, swapped),
{
    let mut s = no_steps();
    if swapped {
        if let Some(step) = stack.crypttab_regen(layout) {
            add_step(&mut s, step);
        }
    }
    s
}

/// The script of `verify_marker_step`.
pub open spec fn verify_script(dev: Seq<char>, markers: Seq<Seq<char>>) -> Seq<char> {
    "x=$(mktemp -d); "@ + attach(dev) + tests_of(markers)
        + "; ok=$?; umount \"$x\" || ok=1; rmdir \"$x\"; [ $ok = 0 ] || echo '"@ + dev
        + " does not carry its bootloader' >&2; exit $ok"@
}

/// The part of a script that tests for each marker below `$x`.
pub open spec fn tests_of(markers: Seq<Seq<char>>) -> Seq<char>
    decreases markers.len(),
{
    if markers.len() == 0 {
        Seq::empty()
    } else {
        tests_of(markers.drop_last()) + " && test -e \"$x\"/"@ + markers.last()
    }
}

fn marker_tests(markers: &Vec<String>) -> (r: String)
    ensures
        r@ == tests_of(texts(markers@)),
{
    let ghost all = texts(markers@);
    let mut out = "".to_owned();
    proof {
        reveal_strlit("");
        assert(out@ =~= tests_of(all.take(0)));
    }
    let mut i: usize = 0;
    while i < markers.len()
        invariant
            i <= markers.len(),
            all == texts(markers@),
            out@ == tests_of(all.take(i as int)),
        decreases markers.len() - i,
    {
        assert(all.take(i + 1).drop_last() =~= all.take(i as int));
        assert(all.take(i + 1).last() == markers@[i as int]@);
        out = out.concat(" && test -e \"$x\"/").concat(markers[i].as_str());
        i += 1;
    }
    assert(all.take(all.len() as int) =~= all);
    out
}

/// The plan of `verify_marker_step`.
pub open spec fn verify_marker_step_plan(dev: Seq<char>, markers: Seq<Seq<char>>) -> StepModel {
    sh_step("verify the bootloader on "@ + dev, verify_script(dev, markers))
}

/// Fails where the partition cannot be mounted or lacks one of the markers.
pub fn verify_marker_step(dev: &str, markers: &Vec<String>) -> (r: Step)
    ensures
        r@ == verify_marker_step_plan(dev@, texts(markers@)),
{
    Step::sh(
        "verify the bootloader on ".to_owned().concat(dev).as_str(),
        "x=$(mktemp -d); ".to_owned().concat(attach_script(dev).as_str()).concat(
            marker_tests(markers).as_str(),
        ).concat(
            "; ok=$?; umount \"$x\" || ok=1; rmdir \"$x\"; [ $ok = 0 ] || echo '",
        ).concat(dev).concat(" does not carry its bootloader' >&2; exit $ok").as_str(),
    )
}

/// The steps of `verify_bootloaders` for one partition.
pub open spec fn verify_partition(dev: Seq<char>, markers: Seq<Seq<char>>) -> Seq<StepModel> {
    seq![verify_marker_step_plan(dev, markers)]
}

/// The plan of `verify_bootloaders`.
pub open spec fn verify_bootloaders_plan(
    layout: LayoutModel,
    esp: bool,
    boot: bool,
) -> Seq<StepModel> {
    let s = if esp {
        each(
            layout.esp_devices(),
            |d: Seq<char>| verify_partition(d, seq![SHIM_FILE@].push(GRUB_FILE@)),
        )
    } else {
        Seq::empty()
    };
    if boot && !layout.boot_raid() {
        s + each(
            layout.boot_devices(),
            |e: Seq<char>| verify_partition(e, seq![BOOT_MARKER@]),
        )
    } else {
        s
    }
}

/// Verifies that every member carries its own bootloader: shim and grub on its esp,
/// and grub's configuration on its independent /boot. An incomplete mirror makes the
/// plan fail.
pub fn verify_bootloaders(layout: &Layout, esp: bool, boot: bool) -> (r: Vec<Step>)
    ensures
        models(r@) == verify_bootloaders_plan(layout@, esp, boot),
{
    let mut s = no_steps();
    if esp {
        let markers = cmd(SHIM_FILE).arg(GRUB_FILE);
        let each_d = |d: &str| -> (s: Vec<Step>)
            ensures
                models(s@) == verify_partition(d@, seq![SHIM_FILE@].push(GRUB_FILE@)),
        {
            one_step(verify_marker_step(d, &markers))
        };
        add_steps(
            &mut s,
            each_disk(
                &layout.esp_devices(),
                each_d,
                Ghost(|d: Seq<char>| verify_partition(d, seq![SHIM_FILE@].push(GRUB_FILE@))),
            ),
        );
    }
    if boot && !layout.boot_raid() {
        let markers = cmd(BOOT_MARKER);
        let each_e = |e: &str| -> (s: Vec<Step>)
            ensures
                models(s@) == verify_partition(e@, seq![BOOT_MARKER@]),
        {
            one_step(verify_marker_step(e, &markers))
        };
        add_steps(
            &mut s,
            each_disk(
                &layout.boot_devices(),
                each_e,
                Ghost(|e: Seq<char>| verify_partition(e, seq![BOOT_MARKER@])),
            ),
        );
    }
    s
}

/// The plan of `replace_bootloader`.
pub open spec fn replace_bootloader_plan<S: Stack>(
    cfg: ConfigModel,
    layout: LayoutModel,
    stack: S,
    disks: Seq<Seq<char>>,
    survivor: Seq<char>,
    parts: ReplaceParts,
    swapped: bool,
) -> Seq<StepModel> {
    let s = Seq::<StepModel>::empty();
    let s = if parts.root {
        s + swap_crypttab_plan(layout, stack, swapped)
    } else {
        s
    };
    let s = s + repopulate_boot_plan(layout, disks, survivor, cfg.efi(), parts);
    let s = if parts.esp || parts.boot {
        s + boot_mount_steps_plan(layout, "/"@, cfg.efi())
    } else {
        s
    };
    s + verify_bootloaders_plan(layout, cfg.efi() && parts.esp, parts.boot)
}

/// The steps of the last phase: the crypttab of a swap, the boot layers, and the
/// mounts, so that the running system is left consistent. Then every member's rebuilt
/// boot layers are verified.
pub fn replace_bootloader<S: Stack>(
    cfg: &Config,
    layout: &Layout,
    stack: &S,
    disks: &Vec<String>,
    survivor: &str,
    parts: &ReplaceParts,
    swapped: bool,
) -> (r: Vec<Step>)
    ensures
        models(r@) == replace_bootloader_plan(
            cfg@,
            layout@,
            *stack,
            texts(disks@),
            survivor@,
            *parts,
            swapped,
        ),
{
    let mut s = no_steps();
    if parts.root {
        add_steps(&mut s, swap_crypttab(layout, stack, swapped));
    }
    add_steps(&mut s, repopulate_boot(layout, disks, survivor, cfg.boots_efi(), parts));
    if parts.esp || parts.boot {
        add_steps(&mut s, boot_mount_steps(layout, "/", cfg.boots_efi()));
    }
    add_steps(&mut s, verify_bootloaders(layout, cfg.boots_efi() && parts.esp, parts.boot));
    s
}

/// The plan of `replace`, for the disks that are rebuilt and the old disks of a swap.
pub open spec fn replace_plan<S: Stack>(
    cfg: ConfigModel,
    layout: LayoutModel,
    stack: S,
    disks: Seq<Seq<char>>,
    parts: ReplaceParts,
    old: Option<Seq<Seq<char>>>,
) -> Seq<PhaseModel> {
    let healthy = survivors(layout.members, disks);
    let gone = leaving(disks, old);
    let base = seq![
        PhaseModel {
            name: "remove"@,
            steps: replace_remove_plan(cfg, layout, stack, gone, disks, healthy[0], parts),
        },
        PhaseModel {
            name: "partition"@,
            steps: replace_partition_plan(cfg, layout, stack, disks, healthy, parts),
        },
        PhaseModel {
            name: "reassemble"@,
            steps: replace_reassemble_plan(cfg, layout, stack, disks, healthy, parts),
        },
    ];
    let boot = replace_bootloader_plan(cfg, layout, stack, disks, healthy[0], parts, old is Some);
    if boot.len() > 0 {
        base.push(PhaseModel { name: "bootloader"@, steps: boot })
    } else {
        base
    }
}

/// What keeps the named disks from being replaced.
pub open spec fn replace_fault(layout: LayoutModel, disks: Seq<Seq<char>>) -> Option<OpsFault> {
    if members_fault(layout, disks) is Some {
        members_fault(layout, disks)
    } else if survivors(layout.members, disks).len() == 0 {
        Some(OpsFault::NoSurvivor)
    } else {
        None
    }
}

/// Rebuilds the named disks' selected layers: detach, repartition, re-add to the
/// arrays, and repopulate boot and esp. A partial replace rebuilds only the selected
/// partitions in place. With `old` disks it is a swap: those are detached and never
/// wiped, and the named disks take their place.
pub fn replace<S: Stack>(
    cfg: &Config,
    layout: &Layout,
    stack: &S,
    disks: &Vec<String>,
    parts: &ReplaceParts,
    old: Option<&Vec<String>>,
) -> (res: Result<Vec<Phase>, OpsError>)
    ensures
        res is Ok <==> replace_fault(layout@, texts(disks@)) is None,
        res is Err ==> replace_fault(layout@, texts(disks@)) == Some(res->Err_0@),
        res is Ok ==> phases(res->Ok_0@) == replace_plan(
            cfg@,
            layout@,
            *stack,
            texts(disks@),
            *parts,
            match old {
                Some(v) => Some(texts(v@)),
                None => None,
            },
        ),
{
    match check_members(layout, disks) {
        Ok(()) => {},
        Err(e) => {
            return Err(e);
        },
    }
    let healthy = healthy_members(layout, disks);
    assert(texts(healthy@).len() == healthy@.len());
    if healthy.len() == 0 {
        return Err(OpsError::NoSurvivor);
    }
    let survivor = healthy[0].as_str();
    assert(survivor@ == texts(healthy@)[0]);
    let gone = match old {
        Some(v) => v,
        None => disks,
    };
    let mut v = one_phase(
        Phase::new("remove", replace_remove(cfg, layout, stack, gone, disks, survivor, parts)),
    );
    add_phase(
        &mut v,
        Phase::new("partition", replace_partition(cfg, layout, stack, disks, &healthy, parts)),
    );
    add_phase(
        &mut v,
        Phase::new("reassemble", replace_reassemble(cfg, layout, stack, disks, &healthy, parts)),
    );
    let boot = replace_bootloader(cfg, layout, stack, disks, survivor, parts, old.is_some());
    assert(models(boot@).len() == boot@.len());
    if boot.len() > 0 {
        add_phase(&mut v, Phase::new("bootloader", boot));
    }
    Ok(v)
}

/// The plan of `status_steps`.
pub open spec fn status_steps_plan<S: Stack>(
    cfg: ConfigModel,
    layout: LayoutModel,
    stack: S,
) -> Seq<StepModel> {
    let s = Seq::<StepModel>::empty();
    let s = if layout.boot_raid() {
        s.push(
            run_step(
                "boot array detail"@,
                seq!["mdadm"@].push("--detail"@).push(BOOT_MD_DEVICE@),
            ).best_effort(),
        )
    } else {
        s.push(run_step("boot mount"@, seq!["findmnt"@].push("/boot"@)).best_effort())
    };
    s + stack.status_plan(cfg, layout)
}

/// Read-only health report steps: the boot array or mount, and the stack's native
/// status.
pub fn status_steps<S: Stack>(cfg: &Config, layout: &Layout, stack: &S) -> (r: Vec<Step>)
    ensures
        models(r@) == status_steps_plan(cfg@, layout@, *stack),
{
    let mut s = no_steps();
    if layout.boot_raid() {
        add_step(
            &mut s,
            Step::run_owned(
                "boot array detail",
                cmd("mdadm").arg("--detail").arg(BOOT_MD_DEVICE),
            ).best_effort(),
        );
    } else {
        add_step(&mut s, Step::run_owned("boot mount", cmd("findmnt").arg("/boot")).best_effort());
    }
    add_steps(&mut s, stack.status(cfg, layout));
    s
}

/// The steps of `boot_detach` for one disk.
pub open spec fn boot_detach_disk(layout: LayoutModel, d: Seq<char>) -> Seq<StepModel> {
    let bdev = layout.part(d, 2);
    seq![
        run_step(
            "fail "@ + bdev + " in the boot array"@,
            seq!["mdadm"@].push("--fail"@).push(BOOT_MD_DEVICE@).push(bdev),
        ).best_effort(),
        run_step(
            "remove "@ + bdev + " from the boot array"@,
            seq!["mdadm"@].push("--remove"@).push(BOOT_MD_DEVICE@).push(bdev),
        ).best_effort(),
    ]
}

/// The plan of `boot_detach`.
pub open spec fn boot_detach_plan(layout: LayoutModel, disks: Seq<Seq<char>>) -> Seq<StepModel> {
    let s = Seq::<StepModel>::empty();
    if layout.boot_raid() {
        let s = s + each(disks, |d: Seq<char>| boot_detach_disk(layout, d));
        s + md_drop_missing_plan(BOOT_MD_DEVICE@)
    } else {
        s
    }
}

/// Fails and removes each disk's boot member from the boot array (best-effort). An
/// independent /boot has no array, so there is nothing to detach.
pub fn boot_detach(layout: &Layout, disks: &Vec<String>) -> (r: Vec<Step>)
    ensures
        models(r@) == boot_detach_plan(layout@, texts(disks@)),
{
    let mut s = no_steps();
    if layout.boot_raid() {
        let each_d = |d: &str| -> (s: Vec<Step>)
            ensures
                models(s@) =~= boot_detach_disk(layout@, d@),
        {
            let mut s = no_steps();
            let bdev_text = layout.part(d, 2);
            let bdev = bdev_text.as_str();
            add_step(
                &mut s,
                Step::run_owned(
                    "fail ".to_owned().concat(bdev).concat(" in the boot array").as_str(),
                    cmd("mdadm").arg("--fail").arg(BOOT_MD_DEVICE).arg(bdev),
                ).best_effort(),
            );
            add_step(
                &mut s,
                Step::run_owned(
                    "remove ".to_owned().concat(bdev).concat(" from the boot array").as_str(),
                    cmd("mdadm").arg("--remove").arg(BOOT_MD_DEVICE).arg(bdev),
                ).best_effort(),
            );
            s
        };
        add_steps(
            &mut s,
            each_disk(disks, each_d, Ghost(|d: Seq<char>| boot_detach_disk(layout@, d))),
        );
        // clear any slot left behind by a wholly-lost disk.
        add_steps(&mut s, md_drop_missing(BOOT_MD_DEVICE));
    }
    s
}

/// The plan of `relocate_boot_step`.
pub open spec fn relocate_boot_step_plan(
    layout: LayoutModel,
    disks: Seq<Seq<char>>,
    survivor: Seq<char>,
) -> StepModel {
    let replaced = joined(layout.subset(disks).boot_devices(), " "@);
    let live = layout.part(survivor, 2);
    sh_step(
        "move /boot off any disk being replaced"@,
        "src=$(findmnt -no SOURCE /boot 2>/dev/null || true); for r in "@ + replaced
            + "; do if [ \"$src\" = \"$r\" ]; then umount -R /boot && mount "@ + live
            + " /boot; break; fi; done"@,
    )
}

/// If the live /boot is mounted from one of the disks, remounts it from a survivor.
pub fn relocate_boot_step(layout: &Layout, disks: &Vec<String>, survivor: &str) -> (r: Step)
    ensures
        r@ == relocate_boot_step_plan(layout@, texts(disks@), survivor@),
{
    let replaced_text = join(&layout.subset(disks).boot_devices(), " ");
    let replaced = replaced_text.as_str();
    let live_text = layout.part(survivor, 2);
    let live = live_text.as_str();
    Step::sh(
        "move /boot off any disk being replaced",
        "src=$(findmnt -no SOURCE /boot 2>/dev/null || true); for r in ".to_owned().concat(replaced)
            .concat("; do if [ \"$src\" = \"$r\" ]; then umount -R /boot && mount ").concat(live)
            .concat(" /boot; break; fi; done").as_str(),
    )
}

/// The steps of `partition_replacements` for one disk.
pub open spec fn repartition_disk(efi: bool, parts: ReplaceParts, d: Seq<char>) -> Seq<StepModel> {
    let s = Seq::<StepModel>::empty();
    let dev = "/dev/"@ + d;
    if parts.whole() {
        let s = s.push(
            run_step("zap gpt on "@ + dev, seq!["sgdisk"@].push("--zap-all"@).push(dev)),
        );
        let s = s.push(first_partition_plan(dev, efi));
        s.push(sgdisk_plan(dev, "create boot member"@, "-n2:0:+512M"@, "-t2:8301"@))
    } else {
        let s = if parts.esp {
            let s = s.push(sgdisk_delete_plan(dev, 1));
            s.push(first_partition_plan(dev, efi))
        } else {
            s
        };
        let s = if parts.boot {
            let s = s.push(sgdisk_delete_plan(dev, 2));
            s.push(sgdisk_plan(dev, "create boot member"@, "-n2:0:+512M"@, "-t2:8301"@))
        } else {
            s
        };
        if parts.root {
            s.push(sgdisk_delete_plan(dev, 3))
        } else {
            s
        }
    }
}

/// The steps of `partition_replacements` for one disk.
pub open spec fn recreate_esp(
    layout: LayoutModel,
    healthy: Seq<Seq<char>>,
    e: Seq<char>,
) -> Seq<StepModel> {
    let esp = layout.part(e, 1);
    seq![recreate_esp_step_plan(esp, layout.subset(healthy).esp_devices())]
}

/// The plan of `partition_replacements`.
pub open spec fn partition_replacements_plan(
    layout: LayoutModel,
    disks: Seq<Seq<char>>,
    healthy: Seq<Seq<char>>,
    efi: bool,
    parts: ReplaceParts,
) -> Seq<StepModel> {
    let s = each(disks, |d: Seq<char>| repartition_disk(efi, parts, d));
    if efi && parts.esp {
        s + each(disks, |e: Seq<char>| recreate_esp(layout, healthy, e))
    } else {
        s
    }
}

/// Recreates the selected partitions of each disk (a whole replace zaps the disk; a
/// partial one recreates just those in place), and the esps with the shared uuid.
pub fn partition_replacements(
    layout: &Layout,
    disks: &Vec<String>,
    healthy: &Vec<String>,
    efi: bool,
    parts: &ReplaceParts,
) -> (r: Vec<Step>)
    ensures
        models(r@) == partition_replacements_plan(
            layout@,
            texts(disks@),
            texts(healthy@),
            efi,
            *parts,
        ),
{
    let mut s = no_steps();
    let each_d = |d: &str| -> (s: Vec<Step>)
        ensures
            models(s@) == repartition_disk(efi, *parts, d@),
    {
        let mut s = no_steps();
        let dev_text = "/dev/".to_owned().concat(d);
        let dev = dev_text.as_str();
        if parts.full() {
            add_step(
                &mut s,
                Step::run_owned(
                    "zap gpt on ".to_owned().concat(dev).as_str(),
                    cmd("sgdisk").arg("--zap-all").arg(dev),
                ),
            );
            add_step(&mut s, first_partition(dev, efi));
            add_step(&mut s, sgdisk(dev, "create boot member", "-n2:0:+512M", "-t2:8301"));
        } else {
            // the gpt and the unselected partitions (and their uuids) stay untouched.
            if parts.esp {
                add_step(&mut s, sgdisk_delete(dev, 1));
                add_step(&mut s, first_partition(dev, efi));
            }
            if parts.boot {
                add_step(&mut s, sgdisk_delete(dev, 2));
                add_step(&mut s, sgdisk(dev, "create boot member", "-n2:0:+512M", "-t2:8301"));
            }
            if parts.root {
                // the stack recreates the root partition; just clear the old one first.
                add_step(&mut s, sgdisk_delete(dev, 3));
            }
        }
        s
    };
    add_steps(
        &mut s,
        each_disk(disks, each_d, Ghost(|d: Seq<char>| repartition_disk(efi, *parts, d))),
    );
    if efi && parts.esp {
        let each_e = |e: &str| -> (s: Vec<Step>)
            ensures
                models(s@) == recreate_esp(layout@, texts(healthy@), e@),
        {
            let mut s = no_steps();
            let esp_text = layout.part(e, 1);
            let esp = esp_text.as_str();
            add_step(&mut s, recreate_esp_step(esp, &layout.subset(healthy).esp_devices()));
            s
        };
        add_steps(
            &mut s,
            each_disk(
                disks,
                each_e,
                Ghost(|e: Seq<char>| recreate_esp(layout@, texts(healthy@), e)),
            ),
        );
    }
    s
}

/// The plan of `recreate_esp_step`.
pub open spec fn recreate_esp_step_plan(esp: Seq<char>, others: Seq<Seq<char>>) -> StepModel {
    let stamped = joined(mkfs_esp_words(esp, Some("\"$(echo $uuid | tr -d -)\""@)), " "@);
    let fresh = joined(mkfs_esp_words(esp, None), " "@);
    sh_step(
        "recreate esp on "@ + esp + " preserving the shared uuid"@,
        find_uuid(ESP_MOUNT@, others) + "if [ -n \"$uuid\" ]; then "@ + stamped + "; else "@ + fresh
            + "; fi"@,
    )
}

/// Recreates an esp with the volume id that all esps share: that of the fstab entry,
/// or else of a surviving esp.
pub fn recreate_esp_step(esp: &str, others: &Vec<String>) -> (r: Step)
    ensures
        r@ == recreate_esp_step_plan(esp@, texts(others@)),
{
    let stamped_text = join(&mkfs_esp_argv(esp, Some("\"$(echo $uuid | tr -d -)\"")), " ");
    let stamped = stamped_text.as_str();
    let fresh_text = join(&mkfs_esp_argv(esp, None), " ");
    let fresh = fresh_text.as_str();
    Step::sh(
        "recreate esp on ".to_owned().concat(esp).concat(" preserving the shared uuid").as_str(),
        uuid_script(ESP_MOUNT, others).concat("if [ -n \"$uuid\" ]; then ").concat(stamped).concat(
            "; else ",
        ).concat(fresh).concat("; fi").as_str(),
    )
}

/// Mounts a partition at `$x`, read-only where it is not mounted for writing elsewhere.
pub open spec fn attach(dev: Seq<char>) -> Seq<char> {
    "{ mount -o ro "@ + dev + " \"$x\" 2>/dev/null || mount "@ + dev + " \"$x\"; }"@
}

fn attach_script(dev: &str) -> (r: String)
    ensures
        r@ == attach(dev@),
{
    "{ mount -o ro ".to_owned().concat(dev).concat(" \"$x\" 2>/dev/null || mount ").concat(
        dev,
    ).concat(" \"$x\"; }")
}

/// The guarded part of a clone, on the mounted partition at `$y`: nothing is deleted
/// there unless the source carries its marker, and the copy must carry it too.
pub open spec fn guarded_copy(
    from: Seq<char>,
    dst: Seq<char>,
    flags: Seq<char>,
    marker: Seq<char>,
) -> Seq<char> {
    " && test -e "@ + from + "/"@ + marker + " && mount "@ + dst + " \"$y\" && rsync "@ + flags + " "@
        + from + "/ \"$y\"/ && test -e \"$y\"/"@ + marker
        + "; ok=$?; umount \"$y\" || ok=1; rmdir \"$y\""@
}

fn copy_script(from: &str, dst: &str, flags: &str, marker: &str) -> (r: String)
    ensures
        r@ == guarded_copy(from@, dst@, flags@, marker@),
{
    " && test -e ".to_owned().concat(from).concat("/").concat(marker).concat(" && mount ").concat(
        dst,
    ).concat(" \"$y\" && rsync ").concat(flags).concat(" ").concat(from).concat(
        "/ \"$y\"/ && test -e \"$y\"/",
    ).concat(marker).concat("; ok=$?; umount \"$y\" || ok=1; rmdir \"$y\"")
}

/// The script of `clone_partition`.
pub open spec fn clone_script(
    src: Option<Seq<char>>,
    dst: Seq<char>,
    marker: Seq<char>,
) -> Seq<char> {
    match src {
        Some(dev) => "x=$(mktemp -d); y=$(mktemp -d); "@ + attach(dev) + guarded_copy(
            "\"$x\""@,
            dst,
            "--times --recursive --delete"@,
            marker,
        ) + "; umount \"$x\" || ok=1; rmdir \"$x\"; exit $ok"@,
        None => "y=$(mktemp -d); mountpoint -q /boot"@ + guarded_copy(
            "/boot"@,
            dst,
            "--one-file-system --times --recursive --delete"@,
            marker,
        ) + "; exit $ok"@,
    }
}

/// Clones a partition, or the live /boot where no partition is given, onto `dst`. The
/// mirroring rsync runs only once the source is mounted and carries its marker, so an
/// empty source never empties the copy; and the clone fails where the marker did not
/// land on it.
pub fn clone_partition(note: &str, src: Option<&str>, dst: &str, marker: &str) -> (r: Step)
    ensures
        r@ == sh_step(
            note@,
            clone_script(
                match src {
                    Some(dev) => Some(dev@),
                    None => None,
                },
                dst@,
                marker@,
            ),
        ),
{
    match src {
        Some(dev) => Step::sh(
            note,
            "x=$(mktemp -d); y=$(mktemp -d); ".to_owned().concat(
                attach_script(dev).as_str(),
            ).concat(
                copy_script("\"$x\"", dst, "--times --recursive --delete", marker).as_str(),
            ).concat("; umount \"$x\" || ok=1; rmdir \"$x\"; exit $ok").as_str(),
        ),
        None => Step::sh(
            note,
            "y=$(mktemp -d); mountpoint -q /boot".to_owned().concat(
                copy_script(
                    "/boot",
                    dst,
                    "--one-file-system --times --recursive --delete",
                    marker,
                ).as_str(),
            ).concat("; exit $ok").as_str(),
        ),
    }
}

/// The steps of `repopulate_boot` for one disk.
pub open spec fn repopulate_esp(
    layout: LayoutModel,
    healthy: Seq<char>,
    d: Seq<char>,
) -> Seq<StepModel> {
    let src = layout.part(healthy, 1);
    let dst = layout.part(d, 1);
    seq![
        sh_step("clone esp from "@ + src + " to "@ + dst, clone_script(Some(src), dst, SHIM_FILE@)),
        run_step("register efi boot entry for "@ + d, register_words(d)),
    ]
}

/// The steps of `repopulate_boot` for one disk.
pub open spec fn reinstall_grub(e: Seq<char>) -> Seq<StepModel> {
    seq![run_step("install grub to "@ + e, seq!["grub-install"@].push("/dev/"@ + e))]
}

/// The steps of `repopulate_boot` for one disk.
pub open spec fn clone_boot(layout: LayoutModel, f: Seq<char>) -> Seq<StepModel> {
    let dst = layout.part(f, 2);
    seq![sh_step("clone /boot to "@ + dst, clone_script(None, dst, BOOT_MARKER@))]
}

/// The plan of `repopulate_boot`.
pub open spec fn repopulate_boot_plan(
    layout: LayoutModel,
    disks: Seq<Seq<char>>,
    healthy: Seq<char>,
    efi: bool,
    parts: ReplaceParts,
) -> Seq<StepModel> {
    let s = Seq::<StepModel>::empty();
    let s = if efi && parts.esp {
        s + each(disks, |d: Seq<char>| repopulate_esp(layout, healthy, d))
    } else {
        s
    };
    let s = if !efi && (parts.esp || parts.boot) {
        s + each(disks, |e: Seq<char>| reinstall_grub(e))
    } else {
        s
    };
    if parts.boot && !layout.boot_raid() {
        s + each(disks, |f: Seq<char>| clone_boot(layout, f))
    } else {
        s
    }
}

/// Repopulates the rebuilt boot layers: clones the esp from a survivor and registers
/// its firmware boot entry (efi), reinstalls grub (bios), and clones the independent
/// /boot.
pub fn repopulate_boot(
    layout: &Layout,
    disks: &Vec<String>,
    healthy: &str,
    efi: bool,
    parts: &ReplaceParts,
) -> (r: Vec<Step>)
    ensures
        models(r@) == repopulate_boot_plan(layout@, texts(disks@), healthy@, efi, *parts),
{
    let mut s = no_steps();
    if efi && parts.esp {
        let each_d = |d: &str| -> (s: Vec<Step>)
            ensures
                models(s@) =~= repopulate_esp(layout@, healthy@, d@),
        {
            let mut s = no_steps();
            let src_text = layout.part(healthy, 1);
            let src = src_text.as_str();
            let dst_text = layout.part(d, 1);
            let dst = dst_text.as_str();
            add_step(
                &mut s,
                clone_partition(
                    "clone esp from ".to_owned().concat(src).concat(" to ").concat(dst).as_str(),
                    Some(src),
                    dst,
                    SHIM_FILE,
                ),
            );
            add_step(
                &mut s,
                Step::run_owned(
                    "register efi boot entry for ".to_owned().concat(d).as_str(),
                    copy_texts(&register_argv(d)),
                ),
            );
            s
        };
        add_steps(
            &mut s,
            each_disk(disks, each_d, Ghost(|d: Seq<char>| repopulate_esp(layout@, healthy@, d))),
        );
    }
    if !efi && (parts.esp || parts.boot) {
        // the bootloader spans the bios-boot partition and /boot.
        let each_e = |e: &str| -> (s: Vec<Step>)
            ensures
                models(s@) == reinstall_grub(e@),
        {
            let mut s = no_steps();
            add_step(
                &mut s,
                Step::run_owned(
                    "install grub to ".to_owned().concat(e).as_str(),
                    cmd("grub-install").arg("/dev/".to_owned().concat(e).as_str()),
                ),
            );
            s
        };
        add_steps(&mut s, each_disk(disks, each_e, Ghost(|e: Seq<char>| reinstall_grub(e))));
    }
    if parts.boot && !layout.boot_raid() {
        let each_f = |f: &str| -> (s: Vec<Step>)
            ensures
                models(s@) == clone_boot(layout@, f@),
        {
            let mut s = no_steps();
            let dst_text = layout.part(f, 2);
            let dst = dst_text.as_str();
            add_step(
                &mut s,
                clone_partition(
                    "clone /boot to ".to_owned().concat(dst).as_str(),
                    None,
                    dst,
                    BOOT_MARKER,
                ),
            );
            s
        };
        add_steps(&mut s, each_disk(disks, each_f, Ghost(|f: Seq<char>| clone_boot(layout@, f))));
    }
    s
}

/// The plan of `sgdisk_delete`.
pub open spec fn sgdisk_delete_plan(dev: Seq<char>, n: u32) -> StepModel {
    let num = dec(n as nat);
    run_step(
        "delete partition "@ + num + " on "@ + dev,
        seq!["sgdisk"@].push("-d"@ + num).push(dev),
    )
}

/// Deletes a single partition by number.
pub fn sgdisk_delete(dev: &str, n: u32) -> (r: Step)
    ensures
        r@ == sgdisk_delete_plan(dev@, n),
{
    let num_text = decimal(n as u64);
    let num = num_text.as_str();
    Step::run_owned(
        "delete partition ".to_owned().concat(num).concat(" on ").concat(dev).as_str(),
        cmd("sgdisk").arg("-d".to_owned().concat(num).as_str()).arg(dev),
    )
}

} // verus!
