//! What rescuing, mounting and closing are for.
use vstd::prelude::*;
use vstd::string::*;

use crate::config::ConfigModel;
use crate::laws::effects::{
    activates, all_before, assembles, before_in_few, closes, command, deactivates, group_some_steps,
    locks, maps_device, mounts_root, opens, opens_integrity, runs_to, script, some_step, stops, unlocks,
    unmaps, unmounts_root, words,
};
use crate::laws::{all_steps, forgiving, group_all_steps};
use crate::layout::LayoutModel;
use crate::ops::{mount_steps_plan, rescue_plan};
use crate::pipeline::{apt_phase_plan, bind_phase_plan, close_phase_plan, prepare_phase_plan};
use crate::stack::{md_stop_holders_plan, AnyStack, Stack};
use crate::step::StepModel;
use crate::text::{has_prefix, headed, holds, joined, stands_at};

verus! {

/// Whether none of the steps opens or closes anything of the root.
pub open spec fn leaves_open(v: Seq<StepModel>) -> bool {
    !some_step(v, opens()) && !some_step(v, closes())
}

proof fn installing_tools_leaves_open(cfg: ConfigModel, stack: AnyStack)
    ensures
        leaves_open(apt_phase_plan(cfg, stack).steps),
{
    broadcast use group_some_steps;

    words();
}

proof fn preparing_leaves_open()
    ensures
        leaves_open(prepare_phase_plan().steps),
{
    broadcast use group_some_steps;

    words();
}

proof fn closing_opens_nothing(cfg: ConfigModel, layout: LayoutModel, stack: AnyStack)
    ensures
        !some_step(close_phase_plan(cfg, layout, stack).steps, opens()),
{
    broadcast use group_some_steps;

    words();
}

proof fn mapping_closes_nothing(cfg: ConfigModel, layout: LayoutModel, stack: AnyStack)
    ensures
        !some_step(stack.map_plan(cfg, layout), closes()),
{
    broadcast use group_some_steps;

    words();
}

proof fn mounting_leaves_open(cfg: ConfigModel, layout: LayoutModel, stack: AnyStack)
    ensures
        leaves_open(stack.mount_root_plan(cfg, layout)),
{
    broadcast use group_some_steps;

    words();
}

proof fn binding_leaves_open(cfg: ConfigModel, layout: LayoutModel)
    ensures
        leaves_open(bind_phase_plan(cfg, layout).steps),
{
    broadcast use group_some_steps;

    words();
}

/// A rescue tears down what is left of the stack before it opens anything, and the root
/// is mounted only when all of it is open.
pub proof fn a_rescue_closes_and_then_opens(
    cfg: ConfigModel,
    layout: LayoutModel,
    stack: AnyStack,
)
    ensures
        ({
            let plan = rescue_plan(cfg, layout, stack);
            &&& plan.len() == 6
            &&& plan[0].name == "apt"@
            &&& plan[1].name == "prepare"@
            &&& plan[2].name == "close"@
            &&& plan[3].name == "map"@
            &&& plan[4].name == "mount"@
            &&& plan[5].name == "bind"@
            &&& forall|i: int|
                0 <= i < 6 && i != 3 ==> !some_step((#[trigger] plan[i]).steps, opens())
            &&& forall|i: int|
                0 <= i < 6 && i != 2 ==> !some_step((#[trigger] plan[i]).steps, closes())
            &&& forall|i: int|
                0 <= i < 6 && i != (if stack is Zfs {
                    3int
                } else {
                    4int
                }) ==> !some_step((#[trigger] plan[i]).steps, mounts_root())
            &&& all_before(plan[3].steps, opens(), mounts_root())
        }),
{
    let plan = rescue_plan(cfg, layout, stack);
    installing_tools_leaves_open(cfg, stack);
    preparing_leaves_open();
    closing_opens_nothing(cfg, layout, stack);
    mapping_closes_nothing(cfg, layout, stack);
    mounting_leaves_open(cfg, layout, stack);
    binding_leaves_open(cfg, layout);
    tools_mount_nothing(cfg, stack);
    closing_mounts_nothing(cfg, layout, stack);
    binding_mounts_no_root(cfg, layout);
    mapping_mounts_only_datasets(cfg, layout, stack);
    mapping_opens_before_it_mounts(cfg, layout, stack);
}

proof fn tools_mount_nothing(cfg: ConfigModel, stack: AnyStack)
    ensures
        !some_step(apt_phase_plan(cfg, stack).steps, mounts_root()),
        !some_step(prepare_phase_plan().steps, mounts_root()),
{
    broadcast use group_some_steps;

    words();
}

proof fn closing_mounts_nothing(cfg: ConfigModel, layout: LayoutModel, stack: AnyStack)
    ensures
        !some_step(close_phase_plan(cfg, layout, stack).steps, mounts_root()),
{
    broadcast use group_some_steps;

    words();
}

proof fn binding_mounts_no_root(cfg: ConfigModel, layout: LayoutModel)
    ensures
        !some_step(bind_phase_plan(cfg, layout).steps, mounts_root()),
{
    broadcast use group_some_steps;

    words();
}

proof fn mapping_mounts_only_datasets(cfg: ConfigModel, layout: LayoutModel, stack: AnyStack)
    ensures
        !(stack is Zfs) ==> !some_step(stack.map_plan(cfg, layout), mounts_root()),
        stack is Zfs ==> !some_step(stack.mount_root_plan(cfg, layout), mounts_root()),
{
    broadcast use group_some_steps;

    words();
}

proof fn mapping_opens_before_it_mounts(cfg: ConfigModel, layout: LayoutModel, stack: AnyStack)
    ensures
        all_before(stack.map_plan(cfg, layout), opens(), mounts_root()),
{
    broadcast use group_some_steps;

    words();
}

/// The mapping of a member, by the layer that stands on its root partition.
pub open spec fn mapping_of(stack: AnyStack, layout: LayoutModel, d: Seq<char>) -> Seq<char> {
    if stack is MdIntegrity {
        layout.int_name(d)
    } else {
        layout.crypt_name(d)
    }
}

/// Whether a step opens the layer that stands on the members.
pub open spec fn opens_a_member(stack: AnyStack) -> spec_fn(StepModel) -> bool {
    if stack is MdIntegrity {
        opens_integrity()
    } else {
        unlocks()
    }
}

/// Opening the root opens every member's root partition as its own mapping, and the
/// array only when all of them are open.
pub proof fn every_member_is_opened(
    cfg: ConfigModel,
    layout: LayoutModel,
    stack: AnyStack,
    k: int,
)
    requires
        0 <= k < layout.members.len(),
    ensures
        ({
            let d = layout.members[k];
            some_step(
                rescue_plan(cfg, layout, stack)[3].steps,
                |s: StepModel|
                    maps_device(s, layout.part(d, 3), mapping_of(stack, layout, d))
                        && !forgiving(s) && (stack is MdIntegrity ==> command(s)[2]
                        == "--integrity="@ + cfg.integrity_algorithm),
            )
        }),
{
    broadcast use group_some_steps;

    words();
    let d = layout.members[k];
}

/// The layers of the root are opened from the members up: their mappings, the array, the
/// crypt layer that stands on it, the volume group.
pub proof fn the_root_is_opened_from_below(
    cfg: ConfigModel,
    layout: LayoutModel,
    stack: AnyStack,
)
    ensures
        ({
            let v = rescue_plan(cfg, layout, stack)[3].steps;
            &&& all_before(v, opens_a_member(stack), assembles())
            &&& all_before(v, assembles(), activates())
            &&& stack is MdIntegrity ==> all_before(v, assembles(), unlocks()) && all_before(
                v,
                unlocks(),
                activates(),
            ) && some_step(v, |s: StepModel| maps_device(s, "/dev/md/root"@, "md_root_crypt"@))
            &&& stack is MdLvm || stack is MdIntegrity ==> some_step(
                v,
                |s: StepModel|
                    runs_to(s, "mdadm"@, "--assemble"@) && command(s)[command(s).len() - 1]
                        == "/dev/md/root"@,
            ) && some_step(v, |s: StepModel| activates()(s) && command(s)[3] == "vg0"@)
            &&& stack is Zfs ==> some_step(
                v,
                |s: StepModel|
                    runs_to(s, "zpool"@, "import"@) && command(s)[command(s).len() - 1]
                        == "rpool"@,
            )
        }),
{
    the_layers_are_ordered(cfg, layout, stack);
    the_layers_are_there(cfg, layout, stack);
}

proof fn the_layers_are_ordered(cfg: ConfigModel, layout: LayoutModel, stack: AnyStack)
    ensures
        ({
            let v = stack.map_plan(cfg, layout);
            &&& all_before(v, opens_a_member(stack), assembles())
            &&& all_before(v, assembles(), activates())
            &&& stack is MdIntegrity ==> all_before(v, assembles(), unlocks()) && all_before(
                v,
                unlocks(),
                activates(),
            )
        }),
{
    broadcast use group_some_steps;

    words();
}

proof fn the_layers_are_there(cfg: ConfigModel, layout: LayoutModel, stack: AnyStack)
    ensures
        ({
            let v = stack.map_plan(cfg, layout);
            &&& stack is MdIntegrity ==> some_step(
                v,
                |s: StepModel| maps_device(s, "/dev/md/root"@, "md_root_crypt"@),
            )
            &&& stack is MdLvm || stack is MdIntegrity ==> some_step(
                v,
                |s: StepModel|
                    runs_to(s, "mdadm"@, "--assemble"@) && command(s)[command(s).len() - 1]
                        == "/dev/md/root"@,
            ) && some_step(v, |s: StepModel| activates()(s) && command(s)[3] == "vg0"@)
            &&& stack is Zfs ==> some_step(
                v,
                |s: StepModel|
                    runs_to(s, "zpool"@, "import"@) && command(s)[command(s).len() - 1]
                        == "rpool"@,
            )
        }),
{
    broadcast use group_some_steps;

    words();
    reveal_strlit("/dev/md/");
    reveal_strlit("root");
    reveal_strlit("/dev/md/root");
    assert("/dev/md/"@ + "root"@ =~= "/dev/md/root"@);
}

/// What is mounted at /mnt is the root: the volume that stands on the array, the
/// filesystem over the members, or the dataset of the pool.
pub proof fn the_root_is_mounted(cfg: ConfigModel, layout: LayoutModel, stack: AnyStack)
    requires
        layout.members.len() > 0,
    ensures
        ({
            let plan = rescue_plan(cfg, layout, stack);
            let v = plan[3].steps + plan[4].steps;
            some_step(
                v,
                |s: StepModel|
                    {
                        &&& mounts_root()(s)
                        &&& !forgiving(s)
                        &&& match stack {
                            AnyStack::MdLvm(_) => command(s)[1] == "/dev/vg0/root"@,
                            AnyStack::MdIntegrity(_) => command(s)[1] == "/dev/vg0/root"@,
                            AnyStack::Btrfs(_) => command(s)[1] == "/dev/mapper/"@
                                + layout.crypt_name(layout.members[0]),
                            AnyStack::Bcachefs(_) => command(s)[2] == "bcachefs"@ && command(s)[3]
                                == joined(
                                headed("/dev/mapper/"@, layout.crypt_names()),
                                ":"@,
                            ),
                            AnyStack::Zfs(_) => command(s)[2] == "rpool/ROOT/debian"@,
                        }
                    },
            )
        }),
{
    broadcast use group_some_steps;

    words();
    let names = layout.crypt_names();
    assert(names[0] == layout.crypt_name(layout.members[0]));
    assert(layout.crypt_devices()[0] == "/dev/mapper/"@ + names[0]);
}

/// Mounting the whole stack opens and mounts the root as a rescue does, and then does
/// what mounting /boot alone does.
pub proof fn mounting_is_rescuing_and_mounting_boot(
    cfg: ConfigModel,
    layout: LayoutModel,
    stack: AnyStack,
    at: Seq<char>,
)
    ensures
        ({
            let plan = rescue_plan(cfg, layout, stack);
            mount_steps_plan(cfg, layout, stack, false, at) == plan[3].steps + plan[4].steps
                + mount_steps_plan(cfg, layout, stack, true, at)
        }),
{
    let plan = rescue_plan(cfg, layout, stack);
    assert(mount_steps_plan(cfg, layout, stack, false, at) =~= plan[3].steps + plan[4].steps
        + mount_steps_plan(cfg, layout, stack, true, at));
}

/// Closing closes the mapping of every member.
pub proof fn every_member_is_closed(
    cfg: ConfigModel,
    layout: LayoutModel,
    stack: AnyStack,
    k: int,
)
    requires
        0 <= k < layout.members.len(),
    ensures
        ({
            let d = layout.members[k];
            some_step(
                close_phase_plan(cfg, layout, stack).steps,
                |s: StepModel| unmaps(s, mapping_of(stack, layout, d)),
            )
        }),
{
    broadcast use group_some_steps;

    words();
    let d = layout.members[k];
    assert(layout.crypt_names()[k] == layout.crypt_name(d));
    assert(layout.int_names()[k] == layout.int_name(d));
}

/// The root is closed from the top down: unmounted, the volume group deactivated, the
/// array stopped and only then the members closed. A step that finds nothing to close is
/// no failure.
pub proof fn the_root_is_closed_from_above(
    cfg: ConfigModel,
    layout: LayoutModel,
    stack: AnyStack,
)
    ensures
        ({
            let v = close_phase_plan(cfg, layout, stack).steps;
            &&& all_steps(v, |s: StepModel| forgiving(s))
            &&& some_step(v, unmounts_root())
            &&& all_before(v, unmounts_root(), locks())
            &&& stack is MdLvm || stack is MdIntegrity ==> some_step(v, deactivates())
                && some_step(v, stops()) && all_before(v, unmounts_root(), deactivates())
                && all_before(v, deactivates(), stops())
            &&& stack is Zfs ==> some_step(v, stops())
            &&& !(stack is MdIntegrity) ==> all_before(v, stops(), locks())
            &&& stack is MdIntegrity ==> all_before(
                v,
                stops(),
                |s: StepModel| runs_to(s, "integritysetup"@, "close"@),
            ) && all_before(
                v,
                deactivates(),
                locks(),
            ) && some_step(v, |s: StepModel| unmaps(s, "md_root_crypt"@))
        }),
{
    closing_is_ordered(cfg, layout, stack);
    closing_forgives(cfg, layout, stack);
    closing_has_all(cfg, layout, stack);
}

proof fn closing_forgives(cfg: ConfigModel, layout: LayoutModel, stack: AnyStack)
    ensures
        all_steps(close_phase_plan(cfg, layout, stack).steps, |s: StepModel| forgiving(s)),
{
    broadcast use group_all_steps;

}

proof fn closing_has_all(cfg: ConfigModel, layout: LayoutModel, stack: AnyStack)
    ensures
        ({
            let v = close_phase_plan(cfg, layout, stack).steps;
            &&& some_step(v, unmounts_root())
            &&& stack is MdLvm || stack is MdIntegrity ==> some_step(v, deactivates())
                && some_step(v, stops())
            &&& stack is Zfs ==> some_step(v, stops())
            &&& stack is MdIntegrity ==> some_step(v, |s: StepModel| unmaps(s, "md_root_crypt"@))
        }),
{
    broadcast use group_some_steps;

    words();
}

proof fn closing_is_ordered(cfg: ConfigModel, layout: LayoutModel, stack: AnyStack)
    ensures
        ({
            let v = close_phase_plan(cfg, layout, stack).steps;
            &&& all_before(v, unmounts_root(), locks())
            &&& stack is MdLvm || stack is MdIntegrity ==> all_before(
                v,
                unmounts_root(),
                deactivates(),
            ) && all_before(v, deactivates(), stops())
            &&& !(stack is MdIntegrity) ==> all_before(v, stops(), locks())
            &&& stack is MdIntegrity ==> all_before(
                v,
                stops(),
                |s: StepModel| runs_to(s, "integritysetup"@, "close"@),
            ) && all_before(v, deactivates(), locks())
        }),
{
    broadcast use {group_some_steps, before_in_few};

    words();
}

/// Closing unmounts everything below /mnt first; it stops whatever array holds a member,
/// and the boot array where there is one.
pub proof fn closing_leaves_nothing_behind(
    cfg: ConfigModel,
    layout: LayoutModel,
    stack: AnyStack,
)
    ensures
        ({
            let v = close_phase_plan(cfg, layout, stack).steps;
            let devs = Seq::new(
                layout.members.len(),
                |k: int| "/dev/mapper/"@ + mapping_of(stack, layout, layout.members[k]),
            );
            &&& script(v[0])
                == "mount | tac | awk '/\\/mnt/ {print $3}' | xargs -r -I{} umount -lf {}"@
            &&& layout.boot_mode is Raid ==> command(v.last()) == seq![
                "mdadm"@,
                "--stop"@,
                "/dev/md/boot"@,
            ]
            &&& stack is MdLvm || stack is MdIntegrity ==> some_step(
                v,
                |s: StepModel|
                    has_prefix(script(s), "for d in "@ + joined(devs, " "@) + "; do "@) && holds(
                        script(s),
                        "mdadm --stop "@,
                    ),
            )
        }),
{
    broadcast use group_some_steps;

    words();
    let v = close_phase_plan(cfg, layout, stack).steps;
    let devs = Seq::new(
        layout.members.len(),
        |k: int| "/dev/mapper/"@ + mapping_of(stack, layout, layout.members[k]),
    );
    assert(seq!["mdadm"@].push("--stop"@).push("/dev/md/boot"@) =~= seq![
        "mdadm"@,
        "--stop"@,
        "/dev/md/boot"@,
    ]);
    if stack is MdLvm {
        assert(layout.crypt_devices() =~= devs);
    }
    if stack is MdIntegrity {
        assert(layout.int_devices() =~= devs);
    }
    holders_are_stopped(devs);
    let p = |s: StepModel|
        has_prefix(script(s), "for d in "@ + joined(devs, " "@) + "; do "@) && holds(
            script(s),
            "mdadm --stop "@,
        );
    assert(p(md_stop_holders_plan(devs)));
}

proof fn holders_are_stopped(devs: Seq<Seq<char>>)
    ensures
        ({
            let s = md_stop_holders_plan(devs);
            has_prefix(script(s), "for d in "@ + joined(devs, " "@) + "; do "@) && holds(
                script(s),
                "mdadm --stop "@,
            )
        }),
{
    words();
    let t = script(md_stop_holders_plan(devs));
    let list = joined(devs, " "@);
    let a = "for d in "@ + list;
    let b =
        "; do b=$(readlink -f \"$d\" 2>/dev/null); [ -n \"$b\" ] || continue; n=$(basename \"$b\"); for h in /sys/block/\"$n\"/holders/md*; do [ -e \"$h\" ] && mdadm --stop \"/dev/$(basename \"$h\")\"; done; done; true"@;
    reveal_strlit(
        "; do b=$(readlink -f \"$d\" 2>/dev/null); [ -n \"$b\" ] || continue; n=$(basename \"$b\"); for h in /sys/block/\"$n\"/holders/md*; do [ -e \"$h\" ] && mdadm --stop \"/dev/$(basename \"$h\")\"; done; done; true",
    );
    reveal_strlit("; do ");
    reveal_strlit("mdadm --stop ");
    assert(t == a + b);
    let head = a + "; do "@;
    assert(t.take(head.len() as int) =~= head);
    let x = "mdadm --stop "@;
    let i: int = 141;
    assert(b.subrange(i, i + x.len()) =~= x);
    assert(t.subrange(a.len() + i, a.len() + i + x.len()) =~= x);
    assert(stands_at(t, x, a.len() + i));
}

} // verus!
