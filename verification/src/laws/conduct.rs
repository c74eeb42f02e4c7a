//! How plans handle the password and failures, and what the operations on a running
//! system come down to.
use vstd::prelude::*;
use vstd::string::*;

use crate::config::ConfigModel;
use crate::laws::building::the_phases_hold;
use crate::laws::effects::{
    all_before, command, group_some_steps, luks_formats, runs, runs_to, script, some_of_both,
    some_step, unmaps, words,
};
use crate::laws::opening::mapping_of;
use crate::laws::rebuilding::{a_boot_member_leaves, a_root_member_leaves, takes_out_of};
use crate::laws::replacing::a_replace_removes_before_it_rebuilds;
use crate::laws::{all_steps, forgiving, group_all_steps};
use crate::layout::LayoutModel;
use crate::ops::{
    boot_detach_plan, leaving, mount_steps_plan, partition_replacements_plan, remove_steps_plan,
    replace_bootloader_plan, replace_plan, replace_reassemble_plan, replace_remove_plan,
    repopulate_boot_plan, rescue_plan, scrub_steps_plan, status_steps_plan, survivors,
    verify_bootloaders_plan, ReplaceParts,
};
use crate::pipeline::{
    apt_phase_plan, bind_phase_plan, boot_mount_steps_plan, bootloader_phase_plan, close_phase_plan,
    finish_phase_plan, format_phase_plan, install_base_phase_plan, install_plan,
    partition_phase_plan, prepare_phase_plan, reset_phase_plan, strap_phase_plan, Staging,
};
use crate::stack::{md_stop_holders_plan, AnyStack, Stack};
use crate::step::StepModel;
use crate::text::{has_prefix, joined, opt_text};

verus! {

/// Whether a step is handed the password exactly where it takes one.
pub open spec fn discreet() -> spec_fn(StepModel) -> bool {
    |s: StepModel|
        s.is_secret() <==> luks_formats(s, command(s)[command(s).len() - 1]) || runs_to(
            s,
            "cryptsetup"@,
            "luksOpen"@,
        ) || runs(s, "chpasswd"@)
}

/// Whether a failure of a step stops the plan.
pub open spec fn strict() -> spec_fn(StepModel) -> bool {
    |s: StepModel| !forgiving(s)
}

/// Whether a step leaves crypt layers alone, and is handed the password exactly where it
/// sets one.
pub open spec fn quiet() -> spec_fn(StepModel) -> bool {
    |s: StepModel| !runs(s, "cryptsetup"@) && (s.is_secret() <==> runs(s, "chpasswd"@))
}

proof fn plain_words()
    ensures
        "env"@ != "cryptsetup"@ && "env"@ != "chpasswd"@,
        "sh"@ != "cryptsetup"@ && "sh"@ != "chpasswd"@,
        "apt-get"@ != "cryptsetup"@ && "apt-get"@ != "chpasswd"@,
        "passwd"@ != "cryptsetup"@ && "passwd"@ != "chpasswd"@,
        "mkdir"@ != "cryptsetup"@ && "mkdir"@ != "chpasswd"@,
        "chpasswd"@ != "cryptsetup"@,
{
    words();
}

proof fn quiet_is_discreet(v: Seq<StepModel>)
    requires
        all_steps(v, quiet()),
    ensures
        all_steps(v, discreet()),
{
    assert forall|i: int| 0 <= i < v.len() implies discreet()(#[trigger] v[i]) by {
        assert(quiet()(v[i]));
    }
}

proof fn repos_are_quiet(cfg: ConfigModel, stack: AnyStack, root: Seq<char>)
    ensures
        all_steps(stack.apt_repos_plan(cfg, root), quiet()),
        all_steps(stack.host_prereqs_plan(), quiet()),
{
    broadcast use group_all_steps;

    plain_words();
}

proof fn tools_are_discreet(cfg: ConfigModel, stack: AnyStack)
    ensures
        all_steps(apt_phase_plan(cfg, stack).steps, discreet()),
        all_steps(prepare_phase_plan().steps, discreet()),
{
    tools_are_quiet(cfg, stack);
    quiet_is_discreet(apt_phase_plan(cfg, stack).steps);
    quiet_is_discreet(prepare_phase_plan().steps);
}

proof fn tools_are_quiet(cfg: ConfigModel, stack: AnyStack)
    ensures
        all_steps(apt_phase_plan(cfg, stack).steps, quiet()),
        all_steps(prepare_phase_plan().steps, quiet()),
{
    broadcast use group_all_steps;

    plain_words();
    repos_are_quiet(cfg, stack, ""@);
}

proof fn closing_is_discreet(cfg: ConfigModel, layout: LayoutModel, stack: AnyStack)
    ensures
        all_steps(close_phase_plan(cfg, layout, stack).steps, discreet()),
        all_steps(reset_phase_plan(cfg, layout, stack).steps, discreet()),
{
    broadcast use group_all_steps;

    words();
}

proof fn preparing_is_discreet(cfg: ConfigModel, layout: LayoutModel, stack: AnyStack)
    ensures
        all_steps(stack.partition_root_plan(cfg, layout), discreet()),
{
    broadcast use group_all_steps;

    words();
}

proof fn partitioning_is_discreet(cfg: ConfigModel, layout: LayoutModel, stack: AnyStack)
    ensures
        all_steps(partition_phase_plan(cfg, layout, stack).steps, discreet()),
{
    broadcast use group_all_steps;

    words();
    preparing_is_discreet(cfg, layout, stack);
}

proof fn formatting_root_is_discreet(cfg: ConfigModel, layout: LayoutModel, stack: AnyStack)
    ensures
        all_steps(stack.format_root_plan(cfg, layout), discreet()),
{
    broadcast use group_all_steps;

    words();
}

proof fn formatting_is_discreet(cfg: ConfigModel, layout: LayoutModel, stack: AnyStack)
    ensures
        all_steps(format_phase_plan(cfg, layout, stack).steps, discreet()),
{
    broadcast use group_all_steps;

    words();
    formatting_root_is_discreet(cfg, layout, stack);
}

proof fn mapping_is_discreet(cfg: ConfigModel, layout: LayoutModel, stack: AnyStack)
    ensures
        all_steps(stack.map_plan(cfg, layout), discreet()),
        all_steps(stack.mount_root_plan(cfg, layout), discreet()),
{
    broadcast use group_all_steps;

    words();
}

proof fn binding_is_discreet(cfg: ConfigModel, layout: LayoutModel)
    ensures
        all_steps(bind_phase_plan(cfg, layout).steps, discreet()),
        all_steps(strap_phase_plan(cfg).steps, discreet()),
{
    broadcast use group_all_steps;

    words();
}

proof fn basing_is_quiet<S: Stack>(cfg: ConfigModel, stack: S, auto: bool)
    requires
        all_steps(stack.apt_repos_plan(cfg, "/mnt"@), quiet()),
    ensures
        all_steps(install_base_phase_plan(cfg, stack, auto).steps, quiet()),
{
    broadcast use group_all_steps;

    plain_words();
}

proof fn basing_is_discreet(cfg: ConfigModel, stack: AnyStack, auto: bool)
    ensures
        all_steps(install_base_phase_plan(cfg, stack, auto).steps, discreet()),
{
    repos_are_quiet(cfg, stack, "/mnt"@);
    basing_is_quiet(cfg, stack, auto);
    quiet_is_discreet(install_base_phase_plan(cfg, stack, auto).steps);
}

proof fn loading_is_discreet(cfg: ConfigModel, layout: LayoutModel)
    ensures
        all_steps(bootloader_phase_plan(cfg, layout).steps, discreet()),
{
    broadcast use group_all_steps;

    words();
}

proof fn finishing_root_is_discreet(cfg: ConfigModel, layout: LayoutModel, stack: AnyStack)
    ensures
        all_steps(stack.finish_plan(cfg, layout), discreet()),
{
    broadcast use group_all_steps;

    words();
}

proof fn verifying_is_discreet(layout: LayoutModel, esp: bool, boot: bool)
    ensures
        all_steps(verify_bootloaders_plan(layout, esp, boot), discreet()),
{
    broadcast use group_all_steps;

    words();
}

proof fn finishing_is_discreet(
    cfg: ConfigModel,
    layout: LayoutModel,
    stack: AnyStack,
    bin: Option<Seq<char>>,
    manifest: Seq<char>,
)
    ensures
        all_steps(finish_phase_plan(cfg, layout, stack, bin, manifest).steps, discreet()),
{
    broadcast use group_all_steps;

    words();
    finishing_root_is_discreet(cfg, layout, stack);
    verifying_is_discreet(layout, cfg.efi(), true);
}

/// In an install the password goes to the steps that format or open a crypt layer and to
/// the one that sets the root password, and to no others.
pub proof fn an_install_is_discreet(
    cfg: ConfigModel,
    layout: LayoutModel,
    stack: AnyStack,
    staging: Staging,
    i: int,
)
    requires
        0 <= i < 12,
    ensures
        all_steps(install_plan(cfg, layout, stack, staging)[i].steps, discreet()),
{
    the_phases_hold(cfg, layout, stack, staging);
    if i < 2 {
        tools_are_discreet(cfg, stack);
    } else if i == 2 || i == 11 {
        closing_is_discreet(cfg, layout, stack);
    } else if i == 3 {
        partitioning_is_discreet(cfg, layout, stack);
    } else if i == 4 {
        formatting_is_discreet(cfg, layout, stack);
    } else if i == 5 {
        mapping_is_discreet(cfg, layout, stack);
    } else if i == 6 || i == 7 {
        binding_is_discreet(cfg, layout);
    } else if i == 8 {
        basing_is_discreet(cfg, stack, staging.auto_root_password);
    } else if i == 9 {
        loading_is_discreet(cfg, layout);
    } else {
        finishing_is_discreet(
            cfg,
            layout,
            stack,
            opt_text(staging.raiden_bin),
            staging.manifest@,
        );
    }
}

/// In a rescue the password goes to the steps that open a crypt layer, and to no others.
pub proof fn a_rescue_is_discreet(
    cfg: ConfigModel,
    layout: LayoutModel,
    stack: AnyStack,
    i: int,
)
    requires
        0 <= i < 6,
    ensures
        all_steps(rescue_plan(cfg, layout, stack)[i].steps, discreet()),
{
    tools_are_discreet(cfg, stack);
    closing_is_discreet(cfg, layout, stack);
    mapping_is_discreet(cfg, layout, stack);
    binding_is_discreet(cfg, layout);
}

proof fn removing_is_discreet(
    cfg: ConfigModel,
    layout: LayoutModel,
    stack: AnyStack,
    gone: Seq<Seq<char>>,
)
    ensures
        all_steps(stack.remove_plan(cfg, layout, gone), discreet()),
        all_steps(boot_detach_plan(layout, gone), discreet()),
{
    broadcast use group_all_steps;

    words();
}

proof fn leaving_is_discreet(
    cfg: ConfigModel,
    layout: LayoutModel,
    stack: AnyStack,
    gone: Seq<Seq<char>>,
    disks: Seq<Seq<char>>,
    survivor: Seq<char>,
    parts: ReplaceParts,
)
    ensures
        all_steps(
            replace_remove_plan(cfg, layout, stack, gone, disks, survivor, parts),
            discreet(),
        ),
{
    broadcast use group_all_steps;

    words();
    removing_is_discreet(cfg, layout, stack, gone);
}

proof fn tables_are_discreet(
    layout: LayoutModel,
    disks: Seq<Seq<char>>,
    healthy: Seq<Seq<char>>,
    efi: bool,
    parts: ReplaceParts,
)
    ensures
        all_steps(partition_replacements_plan(layout, disks, healthy, efi, parts), discreet()),
{
    broadcast use group_all_steps;

    words();
}

proof fn readding_is_discreet(
    cfg: ConfigModel,
    layout: LayoutModel,
    stack: AnyStack,
    disks: Seq<Seq<char>>,
)
    ensures
        all_steps(stack.replace_plan(cfg, layout, disks), discreet()),
{
    broadcast use group_all_steps;

    words();
}

proof fn reassembling_is_discreet(
    cfg: ConfigModel,
    layout: LayoutModel,
    stack: AnyStack,
    disks: Seq<Seq<char>>,
    healthy: Seq<Seq<char>>,
    parts: ReplaceParts,
)
    ensures
        all_steps(
            replace_reassemble_plan(cfg, layout, stack, disks, healthy, parts),
            discreet(),
        ),
{
    broadcast use group_all_steps;

    words();
    readding_is_discreet(cfg, layout, stack, disks);
}

proof fn repopulating_is_discreet(
    layout: LayoutModel,
    disks: Seq<Seq<char>>,
    survivor: Seq<char>,
    efi: bool,
    parts: ReplaceParts,
)
    ensures
        all_steps(repopulate_boot_plan(layout, disks, survivor, efi, parts), discreet()),
        all_steps(boot_mount_steps_plan(layout, "/"@, efi), discreet()),
{
    broadcast use group_all_steps;

    words();
}

proof fn booting_is_discreet(
    cfg: ConfigModel,
    layout: LayoutModel,
    stack: AnyStack,
    disks: Seq<Seq<char>>,
    survivor: Seq<char>,
    parts: ReplaceParts,
    swapped: bool,
)
    ensures
        all_steps(
            replace_bootloader_plan(cfg, layout, stack, disks, survivor, parts, swapped),
            discreet(),
        ),
{
    broadcast use group_all_steps;

    words();
    repopulating_is_discreet(layout, disks, survivor, cfg.efi(), parts);
    verifying_is_discreet(layout, cfg.efi() && parts.esp, parts.boot);
}

/// In a replace the password goes to the steps that format or open a crypt layer, and to
/// no others.
pub proof fn a_replace_is_discreet(
    cfg: ConfigModel,
    layout: LayoutModel,
    stack: AnyStack,
    disks: Seq<Seq<char>>,
    parts: ReplaceParts,
    old_disks: Option<Seq<Seq<char>>>,
    i: int,
)
    requires
        0 <= i < replace_plan(cfg, layout, stack, disks, parts, old_disks).len(),
    ensures
        all_steps(
            replace_plan(cfg, layout, stack, disks, parts, old_disks)[i].steps,
            discreet(),
        ),
{
    let healthy = survivors(layout.members, disks);
    let gone = leaving(disks, old_disks);
    a_replace_removes_before_it_rebuilds(cfg, layout, stack, disks, parts, old_disks);
    if i == 0 {
        leaving_is_discreet(cfg, layout, stack, gone, disks, healthy[0], parts);
    } else if i == 1 {
        let tables = partition_replacements_plan(layout, disks, healthy, cfg.efi(), parts);
        let root = stack.partition_root_plan(cfg, layout.subset(disks));
        tables_are_discreet(layout, disks, healthy, cfg.efi(), parts);
        preparing_is_discreet(cfg, layout.subset(disks), stack);
        crate::laws::all_of_both(tables, root, discreet());
    } else if i == 2 {
        reassembling_is_discreet(cfg, layout, stack, disks, healthy, parts);
    } else {
        booting_is_discreet(cfg, layout, stack, disks, healthy[0], parts, old_disks is Some);
    }
}

// ----------------------------------------------------------------- failures

proof fn tools_are_strict(cfg: ConfigModel, stack: AnyStack)
    ensures
        all_steps(stack.apt_repos_plan(cfg, ""@), strict()),
        all_steps(stack.apt_repos_plan(cfg, "/mnt"@), strict()),
        all_steps(stack.host_prereqs_plan(), strict()),
{
    broadcast use group_all_steps;

}

proof fn the_host_is_strict<S: Stack>(
    cfg: ConfigModel,
    stack: S,
)
    requires
        all_steps(stack.apt_repos_plan(cfg, ""@), strict()),
        all_steps(stack.host_prereqs_plan(), strict()),
    ensures
        all_steps(apt_phase_plan(cfg, stack).steps, strict()),
{
    broadcast use group_all_steps;

}

proof fn the_base_is_strict<S: Stack>(
    cfg: ConfigModel,
    stack: S,
    auto: bool,
)
    requires
        all_steps(stack.apt_repos_plan(cfg, "/mnt"@), strict()),
    ensures
        all_steps(install_base_phase_plan(cfg, stack, auto).steps, strict()),
{
    broadcast use group_all_steps;

}

proof fn preparing_is_strict(cfg: ConfigModel, layout: LayoutModel, stack: AnyStack)
    ensures
        all_steps(stack.partition_root_plan(cfg, layout), strict()),
{
    broadcast use group_all_steps;

}

proof fn partitioning_is_strict(cfg: ConfigModel, layout: LayoutModel, stack: AnyStack)
    ensures
        all_steps(partition_phase_plan(cfg, layout, stack).steps, strict()),
{
    broadcast use group_all_steps;

    preparing_is_strict(cfg, layout, stack);
}

proof fn formatting_root_is_strict(cfg: ConfigModel, layout: LayoutModel, stack: AnyStack)
    ensures
        all_steps(stack.format_root_plan(cfg, layout), strict()),
        all_steps(stack.mount_root_plan(cfg, layout), strict()),
{
    broadcast use group_all_steps;

}

proof fn formatting_is_strict(cfg: ConfigModel, layout: LayoutModel, stack: AnyStack)
    ensures
        all_steps(format_phase_plan(cfg, layout, stack).steps, strict()),
{
    broadcast use group_all_steps;

    formatting_root_is_strict(cfg, layout, stack);
}

proof fn binding_is_strict(cfg: ConfigModel, layout: LayoutModel)
    ensures
        all_steps(bind_phase_plan(cfg, layout).steps, strict()),
        all_steps(strap_phase_plan(cfg).steps, strict()),
        all_steps(prepare_phase_plan().steps, strict()),
{
    broadcast use group_all_steps;

}

proof fn loading_is_strict(cfg: ConfigModel, layout: LayoutModel)
    ensures
        all_steps(bootloader_phase_plan(cfg, layout).steps, strict()),
{
    broadcast use group_all_steps;

}

proof fn finishing_root_is_strict(cfg: ConfigModel, layout: LayoutModel, stack: AnyStack)
    ensures
        all_steps(stack.finish_plan(cfg, layout), strict()),
{
    broadcast use group_all_steps;

}

proof fn verifying_is_strict(layout: LayoutModel, esp: bool, boot: bool)
    ensures
        all_steps(verify_bootloaders_plan(layout, esp, boot), strict()),
{
    broadcast use group_all_steps;

}

proof fn finishing_is_strict(
    cfg: ConfigModel,
    layout: LayoutModel,
    stack: AnyStack,
    bin: Option<Seq<char>>,
    manifest: Seq<char>,
)
    ensures
        all_steps(finish_phase_plan(cfg, layout, stack, bin, manifest).steps, strict()),
{
    broadcast use group_all_steps;

    finishing_root_is_strict(cfg, layout, stack);
    verifying_is_strict(layout, cfg.efi(), true);
}

/// A failure of any step stops an install, but for the teardown of what may not be there
/// before it and behind it.
pub proof fn an_install_stops_at_a_failure(
    cfg: ConfigModel,
    layout: LayoutModel,
    stack: AnyStack,
    staging: Staging,
    i: int,
)
    requires
        0 <= i < 11,
        i != 2,
    ensures
        all_steps(install_plan(cfg, layout, stack, staging)[i].steps, strict()),
{
    the_phases_hold(cfg, layout, stack, staging);
    if i == 0 {
        tools_are_strict(cfg, stack);
        the_host_is_strict(cfg, stack);
    } else if i == 3 {
        partitioning_is_strict(cfg, layout, stack);
    } else if i == 4 {
        formatting_is_strict(cfg, layout, stack);
    } else if i == 5 {
        formatting_root_is_strict(cfg, layout, stack);
    } else if i == 1 || i == 6 || i == 7 {
        binding_is_strict(cfg, layout);
    } else if i == 8 {
        tools_are_strict(cfg, stack);
        the_base_is_strict(cfg, stack, staging.auto_root_password);
    } else if i == 9 {
        loading_is_strict(cfg, layout);
    } else {
        finishing_is_strict(
            cfg,
            layout,
            stack,
            opt_text(staging.raiden_bin),
            staging.manifest@,
        );
    }
}

proof fn tables_are_strict(
    layout: LayoutModel,
    disks: Seq<Seq<char>>,
    healthy: Seq<Seq<char>>,
    efi: bool,
    parts: ReplaceParts,
)
    ensures
        all_steps(partition_replacements_plan(layout, disks, healthy, efi, parts), strict()),
{
    broadcast use group_all_steps;

}

/// Whether a failure of a step stops the plan, or the step only waits, or clears what may
/// not be there.
pub open spec fn strict_in_reassembly() -> spec_fn(StepModel) -> bool {
    |s: StepModel|
        !forgiving(s) || runs_to(s, "udevadm"@, "settle"@) || runs_to(
            s,
            "mdadm"@,
            "--zero-superblock"@,
        ) || runs_to(s, "mdadm"@, "--wait"@)
}

proof fn readding_is_strict(
    cfg: ConfigModel,
    layout: LayoutModel,
    stack: AnyStack,
    disks: Seq<Seq<char>>,
)
    ensures
        all_steps(stack.replace_plan(cfg, layout, disks), strict_in_reassembly()),
{
    broadcast use group_all_steps;

}

proof fn reassembling_is_strict(
    cfg: ConfigModel,
    layout: LayoutModel,
    stack: AnyStack,
    disks: Seq<Seq<char>>,
    healthy: Seq<Seq<char>>,
    parts: ReplaceParts,
)
    ensures
        all_steps(
            replace_reassemble_plan(cfg, layout, stack, disks, healthy, parts),
            strict_in_reassembly(),
        ),
{
    broadcast use group_all_steps;

    readding_is_strict(cfg, layout, stack, disks);
}

proof fn booting_is_strict(
    cfg: ConfigModel,
    layout: LayoutModel,
    stack: AnyStack,
    disks: Seq<Seq<char>>,
    survivor: Seq<char>,
    parts: ReplaceParts,
    swapped: bool,
)
    ensures
        all_steps(
            replace_bootloader_plan(cfg, layout, stack, disks, survivor, parts, swapped),
            strict(),
        ),
{
    broadcast use group_all_steps;

    verifying_is_strict(layout, cfg.efi() && parts.esp, parts.boot);
}

/// Behind the teardown, a failure of any step stops a replace, but for those that only
/// wait, or clear what may not be there.
pub proof fn a_replace_stops_at_a_failure(
    cfg: ConfigModel,
    layout: LayoutModel,
    stack: AnyStack,
    disks: Seq<Seq<char>>,
    parts: ReplaceParts,
    old_disks: Option<Seq<Seq<char>>>,
)
    ensures
        ({
            let plan = replace_plan(cfg, layout, stack, disks, parts, old_disks);
            &&& all_steps(plan[1].steps, strict())
            &&& all_steps(plan[2].steps, strict_in_reassembly())
            &&& plan.len() == 4 ==> all_steps(plan[3].steps, strict())
        }),
{
    let healthy = survivors(layout.members, disks);
    a_replace_removes_before_it_rebuilds(cfg, layout, stack, disks, parts, old_disks);
    let tables = partition_replacements_plan(layout, disks, healthy, cfg.efi(), parts);
    let root = stack.partition_root_plan(cfg, layout.subset(disks));
    tables_are_strict(layout, disks, healthy, cfg.efi(), parts);
    preparing_is_strict(cfg, layout.subset(disks), stack);
    crate::laws::all_of_both(tables, root, strict());
    reassembling_is_strict(cfg, layout, stack, disks, healthy, parts);
    booting_is_strict(cfg, layout, stack, disks, healthy[0], parts, old_disks is Some);
}

// ------------------------------------------------------------------ removal

/// Every disk that is removed is taken out of the arrays, and its mapping closed.
pub proof fn every_removed_disk_is_detached(
    cfg: ConfigModel,
    layout: LayoutModel,
    stack: AnyStack,
    disks: Seq<Seq<char>>,
    k: int,
)
    requires
        0 <= k < disks.len(),
    ensures
        ({
            let v = remove_steps_plan(cfg, layout, stack, disks);
            let d = disks[k];
            let name = mapping_of(stack, layout, d);
            let dev = "/dev/mapper/"@ + name;
            &&& some_step(v, |s: StepModel| unmaps(s, name))
            &&& stack is MdLvm || stack is MdIntegrity ==> some_step(
                v,
                |s: StepModel| takes_out_of(s, "--fail"@, "/dev/md/root"@, dev),
            ) && some_step(v, |s: StepModel| takes_out_of(s, "--remove"@, "/dev/md/root"@, dev))
            &&& stack is Zfs ==> some_step(
                v,
                |s: StepModel|
                    runs_to(s, "zpool"@, "offline"@) && command(s)[2] == "rpool"@ && command(s)[3]
                        == dev,
            )
            &&& layout.boot_mode is Raid ==> some_step(
                v,
                |s: StepModel| takes_out_of(s, "--fail"@, "/dev/md/boot"@, layout.part(d, 2)),
            ) && some_step(
                v,
                |s: StepModel| takes_out_of(s, "--remove"@, "/dev/md/boot"@, layout.part(d, 2)),
            )
        }),
{
    broadcast use some_of_both;

    a_root_member_leaves(cfg, layout, stack, disks, k);
    a_boot_member_leaves(layout, disks, k);
}

/// Whether whatever a step takes out of an array or closes belongs to one of the disks.
pub open spec fn detaches_only(
    stack: AnyStack,
    layout: LayoutModel,
    disks: Seq<Seq<char>>,
    s: StepModel,
) -> bool {
    let w = command(s);
    &&& forgiving(s)
    &&& {
        ||| takes_out_of(s, "--remove"@, w[2], "failed"@)
        ||| takes_out_of(s, "--remove"@, w[2], "detached"@)
        ||| exists|d: Seq<char>| #[trigger]
            disks.contains(d) && {
                ||| unmaps(s, mapping_of(stack, layout, d))
                ||| runs(s, "mdadm"@) && w.len() == 4 && (w[3] == layout.part(d, 2) || w[3]
                    == "/dev/mapper/"@ + mapping_of(stack, layout, d))
                ||| runs_to(s, "zpool"@, "offline"@) && w.len() == 4 && w[3] == "/dev/mapper/"@
                    + mapping_of(stack, layout, d)
            }
    }
}

/// A removal detaches the named disks and no others, and forgives where one is gone
/// already.
pub proof fn a_removal_spares_the_others(
    cfg: ConfigModel,
    layout: LayoutModel,
    stack: AnyStack,
    disks: Seq<Seq<char>>,
)
    ensures
        all_steps(
            remove_steps_plan(cfg, layout, stack, disks),
            |s: StepModel| detaches_only(stack, layout, disks, s),
        ),
{
    let p = |s: StepModel| detaches_only(stack, layout, disks, s);
    root_detaches_only(cfg, layout, stack, disks);
    boot_detaches_only(stack, layout, disks);
    crate::laws::all_of_both(
        boot_detach_plan(layout, disks),
        stack.remove_plan(cfg, layout, disks),
        p,
    );
}

proof fn root_detaches_only(
    cfg: ConfigModel,
    layout: LayoutModel,
    stack: AnyStack,
    disks: Seq<Seq<char>>,
)
    ensures
        all_steps(
            stack.remove_plan(cfg, layout, disks),
            |s: StepModel| detaches_only(stack, layout, disks, s),
        ),
{
    broadcast use group_all_steps;

    words();
}

proof fn boot_detaches_only(stack: AnyStack, layout: LayoutModel, disks: Seq<Seq<char>>)
    ensures
        all_steps(
            boot_detach_plan(layout, disks),
            |s: StepModel| detaches_only(stack, layout, disks, s),
        ),
{
    broadcast use group_all_steps;

    words();
}

// ------------------------------------------------------ scrubs and statuses

/// Whether a step runs exactly these words.
pub open spec fn runs_words(s: StepModel, w: Seq<Seq<char>>) -> bool {
    command(s) == w
}

/// A scrub checks all that is redundant: the boot array where there is one, and the root,
/// to the end.
pub proof fn a_scrub_checks_everything(cfg: ConfigModel, layout: LayoutModel, stack: AnyStack)
    ensures
        ({
            let v = scrub_steps_plan(cfg, layout, stack);
            let boot = |s: StepModel| runs_words(s, seq!["mdadm"@, "--action=check"@, "/dev/md/boot"@]);
            let boot_done = |s: StepModel| runs_words(s, seq!["mdadm"@, "--wait"@, "/dev/md/boot"@]);
            let root = |s: StepModel| runs_words(s, seq!["mdadm"@, "--action=check"@, "/dev/md/root"@]);
            let root_done = |s: StepModel| runs_words(s, seq!["mdadm"@, "--wait"@, "/dev/md/root"@]);
            &&& layout.boot_mode is Raid ==> some_step(v, boot) && some_step(v, boot_done)
                && all_before(v, boot, boot_done)
            &&& layout.boot_mode is Independent ==> !some_step(v, boot)
            &&& stack is MdLvm || stack is MdIntegrity ==> some_step(v, root) && some_step(
                v,
                root_done,
            ) && all_before(v, root, root_done)
            &&& stack is Zfs ==> some_step(
                v,
                |s: StepModel| runs_words(s, seq!["zpool"@, "scrub"@, "-w"@, "rpool"@]),
            )
            &&& stack is Bcachefs ==> some_step(
                v,
                |s: StepModel| runs_words(s, seq!["bcachefs"@, "data"@, "scrub"@, "/"@]),
            )
            &&& stack is Btrfs ==> forall|k: int|
                0 <= k < layout.members.len() ==> #[trigger] scrubs_member(
                    v,
                    layout.crypt_device(layout.members[k]),
                )
        }),
{
    scrubbing_md(cfg, layout, stack);
    scrubbing_pools(cfg, layout, stack);
    if stack is Btrfs {
        assert forall|k: int| 0 <= k < layout.members.len() implies #[trigger] scrubs_member(
            scrub_steps_plan(cfg, layout, stack),
            layout.crypt_device(layout.members[k]),
        ) by {
            scrubbing_members(cfg, layout, stack, k);
        }
    }
}

/// Whether the steps scrub this device, and then reset what was counted on it.
pub open spec fn scrubs_member(v: Seq<StepModel>, dev: Seq<char>) -> bool {
    &&& some_step(
        v,
        |s: StepModel| runs_words(s, seq!["btrfs"@, "scrub"@, "start"@, "-B"@, dev]),
    )
    &&& some_step(
        v,
        |s: StepModel| runs_words(s, seq!["btrfs"@, "device"@, "stats"@, "-z"@, dev]),
    )
}

proof fn scrubbing_members(cfg: ConfigModel, layout: LayoutModel, stack: AnyStack, k: int)
    requires
        stack is Btrfs,
        0 <= k < layout.members.len(),
    ensures
        scrubs_member(
            scrub_steps_plan(cfg, layout, stack),
            layout.crypt_device(layout.members[k]),
        ),
{
    broadcast use group_some_steps;

    let dev = layout.crypt_device(layout.members[k]);
    let devs = layout.crypt_devices();
    assert(layout.crypt_names()[k] == layout.crypt_name(layout.members[k]));
    assert(devs[k] == dev);
    let p = |s: StepModel| runs_words(s, seq!["btrfs"@, "scrub"@, "start"@, "-B"@, dev]);
    let q = |s: StepModel| runs_words(s, seq!["btrfs"@, "device"@, "stats"@, "-z"@, dev]);
    let a = crate::stack::btrfs::scrub_device(dev);
    let b = crate::stack::btrfs::reset_device_stats(dev);
    assert(command(a[0]) =~= seq!["btrfs"@, "scrub"@, "start"@, "-B"@, dev]);
    assert(command(b[0]) =~= seq!["btrfs"@, "device"@, "stats"@, "-z"@, dev]);
    assert(p(a[0]));
    assert(q(b[0]));
}

proof fn md_words(verb: Seq<char>, dev: Seq<char>)
    ensures
        seq!["mdadm"@].push(verb).push(dev) == seq!["mdadm"@, verb, dev],
{
    assert(seq!["mdadm"@].push(verb).push(dev) =~= seq!["mdadm"@, verb, dev]);
}

proof fn scrubbing_md(cfg: ConfigModel, layout: LayoutModel, stack: AnyStack)
    ensures
        ({
            let v = scrub_steps_plan(cfg, layout, stack);
            let boot = |s: StepModel| runs_words(s, seq!["mdadm"@, "--action=check"@, "/dev/md/boot"@]);
            let boot_done = |s: StepModel| runs_words(s, seq!["mdadm"@, "--wait"@, "/dev/md/boot"@]);
            let root = |s: StepModel| runs_words(s, seq!["mdadm"@, "--action=check"@, "/dev/md/root"@]);
            let root_done = |s: StepModel| runs_words(s, seq!["mdadm"@, "--wait"@, "/dev/md/root"@]);
            &&& layout.boot_mode is Raid ==> some_step(v, boot) && some_step(v, boot_done)
                && all_before(v, boot, boot_done)
            &&& layout.boot_mode is Independent ==> !some_step(v, boot)
            &&& stack is MdLvm || stack is MdIntegrity ==> some_step(v, root) && some_step(
                v,
                root_done,
            ) && all_before(v, root, root_done)
        }),
{
    broadcast use group_some_steps;

    words();
    md_words("--action=check"@, "/dev/md/boot"@);
    md_words("--wait"@, "/dev/md/boot"@);
    md_words("--action=check"@, "/dev/md/root"@);
    md_words("--wait"@, "/dev/md/root"@);
    let a = seq!["mdadm"@, "--action=check"@, "/dev/md/boot"@];
    let b = seq!["mdadm"@, "--wait"@, "/dev/md/boot"@];
    let c = seq!["mdadm"@, "--action=check"@, "/dev/md/root"@];
    let d = seq!["mdadm"@, "--wait"@, "/dev/md/root"@];
    assert(a[0] == "mdadm"@ && a[1] == "--action=check"@ && a[2] == "/dev/md/boot"@);
    assert(b[0] == "mdadm"@ && b[1] == "--wait"@ && b[2] == "/dev/md/boot"@);
    assert(c[0] == "mdadm"@ && c[1] == "--action=check"@ && c[2] == "/dev/md/root"@);
    assert(d[0] == "mdadm"@ && d[1] == "--wait"@ && d[2] == "/dev/md/root"@);
}

proof fn scrubbing_pools(cfg: ConfigModel, layout: LayoutModel, stack: AnyStack)
    ensures
        ({
            let v = scrub_steps_plan(cfg, layout, stack);
            &&& stack is Zfs ==> some_step(
                v,
                |s: StepModel| runs_words(s, seq!["zpool"@, "scrub"@, "-w"@, "rpool"@]),
            )
            &&& stack is Bcachefs ==> some_step(
                v,
                |s: StepModel| runs_words(s, seq!["bcachefs"@, "data"@, "scrub"@, "/"@]),
            )
        }),
{
    broadcast use group_some_steps;

    assert(seq!["zpool"@].push("scrub"@).push("-w"@).push("rpool"@) =~= seq![
        "zpool"@,
        "scrub"@,
        "-w"@,
        "rpool"@,
    ]);
    assert(seq!["bcachefs"@].push("data"@).push("scrub"@).push("/"@) =~= seq![
        "bcachefs"@,
        "data"@,
        "scrub"@,
        "/"@,
    ]);
}

/// Whether a step only looks at the disks and what stands on them.
pub open spec fn only_looks() -> spec_fn(StepModel) -> bool {
    |s: StepModel|
        {
            let w = command(s);
            ||| runs_to(s, "mdadm"@, "--detail"@)
            ||| runs_to(s, "findmnt"@, "/boot"@)
            ||| runs_to(s, "zpool"@, "status"@)
            ||| runs_to(s, "btrfs"@, "filesystem"@) && w[2] == "show"@
            ||| runs_to(s, "btrfs"@, "device"@) && w[2] == "stats"@ && w.len() == 4 && w[3] == "/"@
            ||| runs_to(s, "btrfs"@, "scrub"@) && w[2] == "status"@
            ||| runs_to(s, "bcachefs"@, "fs"@) && w[2] == "usage"@
            ||| has_prefix(script(s), "dmesg -c | grep "@)
            ||| has_prefix(script(s), "bcachefs show-super "@)
        }
}

/// Looking at the status leaves the disks alone, and shows the array or pool.
pub proof fn a_status_only_looks(cfg: ConfigModel, layout: LayoutModel, stack: AnyStack)
    ensures
        ({
            let v = status_steps_plan(cfg, layout, stack);
            &&& all_steps(v, only_looks())
            &&& layout.boot_mode is Raid ==> some_step(
                v,
                |s: StepModel|
                    runs_to(s, "mdadm"@, "--detail"@) && command(s)[2] == "/dev/md/boot"@,
            )
            &&& stack is MdLvm || stack is MdIntegrity ==> some_step(
                v,
                |s: StepModel|
                    runs_to(s, "mdadm"@, "--detail"@) && command(s)[2] == "/dev/md/root"@,
            )
            &&& stack is Zfs ==> some_step(
                v,
                |s: StepModel|
                    runs_to(s, "zpool"@, "status"@) && command(s)[command(s).len() - 1]
                        == "rpool"@,
            )
        }),
{
    status_looks(cfg, layout, stack);
    status_shows(cfg, layout, stack);
}

proof fn status_looks(cfg: ConfigModel, layout: LayoutModel, stack: AnyStack)
    ensures
        all_steps(status_steps_plan(cfg, layout, stack), only_looks()),
{
    broadcast use group_all_steps;

    words();
    let a = "dmesg -c | grep \"checksum error at\" | grep \"(path:\" | sed -n -r 's#.*BTRFS.*i/o error.*path: (.*)\\)#\\1#p' || true"@;
    let b = "dmesg -c | grep "@;
    reveal_strlit(
        "dmesg -c | grep \"checksum error at\" | grep \"(path:\" | sed -n -r 's#.*BTRFS.*i/o error.*path: (.*)\\)#\\1#p' || true",
    );
    reveal_strlit("dmesg -c | grep ");
    assert(a.take(b.len() as int) =~= b);
    let c = "bcachefs show-super /dev/mapper/*_crypt 2>/dev/null | grep -iE 'state|durability|label' || true"@;
    let d = "bcachefs show-super "@;
    reveal_strlit(
        "bcachefs show-super /dev/mapper/*_crypt 2>/dev/null | grep -iE 'state|durability|label' || true",
    );
    reveal_strlit("bcachefs show-super ");
    assert(c.take(d.len() as int) =~= d);
}

proof fn status_shows(cfg: ConfigModel, layout: LayoutModel, stack: AnyStack)
    ensures
        ({
            let v = status_steps_plan(cfg, layout, stack);
            &&& layout.boot_mode is Raid ==> some_step(
                v,
                |s: StepModel|
                    runs_to(s, "mdadm"@, "--detail"@) && command(s)[2] == "/dev/md/boot"@,
            )
            &&& stack is MdLvm || stack is MdIntegrity ==> some_step(
                v,
                |s: StepModel|
                    runs_to(s, "mdadm"@, "--detail"@) && command(s)[2] == "/dev/md/root"@,
            )
            &&& stack is Zfs ==> some_step(
                v,
                |s: StepModel|
                    runs_to(s, "zpool"@, "status"@) && command(s)[command(s).len() - 1]
                        == "rpool"@,
            )
        }),
{
    broadcast use group_some_steps;

    words();
}

// ----------------------------------------------------------------- recovery

/// Whether a step mounts the root at this point, degraded where it has to be.
pub open spec fn mounts_at(
    stack: AnyStack,
    layout: LayoutModel,
    s: StepModel,
    at: Seq<char>,
) -> bool {
    let devs = joined(
        Seq::new(
            layout.members.len(),
            |k: int| "/dev/mapper/"@ + layout.crypt_name(layout.members[k]),
        ),
        " "@,
    );
    match stack {
        AnyStack::Zfs(_) => runs_words(s, seq!["zfs"@, "mount"@, "rpool/ROOT/debian"@]),
        AnyStack::Btrfs(_) => script(s) == "for d in "@ + devs
            + "; do mount -o degraded \"$d\" "@ + at + " 2>/dev/null && break; done"@,
        AnyStack::Bcachefs(_) => script(s) == "for d in "@ + devs
            + "; do mount -t bcachefs -o degraded \"$d\" "@ + at + " 2>/dev/null && break; done"@,
        _ => runs_words(s, seq!["mount"@, "/dev/vg0/root"@, at]),
    }
}

/// A recovery first brings up what the root stands on, forgiving what is up already, and
/// then mounts the root where it was asked for.
pub proof fn a_recovery_mounts_the_root(
    cfg: ConfigModel,
    layout: LayoutModel,
    stack: AnyStack,
    at: Seq<char>,
)
    ensures
        ({
            let v = stack.recover_actions_plan(cfg, layout, at);
            let up = v[0].steps;
            let end = v[1].steps;
            &&& v.len() == 2
            &&& end.len() == 1 && mounts_at(stack, layout, end[0], at) && !forgiving(end[0])
            &&& stack is MdLvm || stack is MdIntegrity ==> some_step(
                up,
                |s: StepModel|
                    runs_to(s, "mdadm"@, "--assemble"@) && command(s)[3] == "/dev/md/root"@
                        && forgiving(s),
            ) && some_step(
                up,
                |s: StepModel| runs_words(s, seq!["mdadm"@, "--run"@, "/dev/md/root"@]),
            ) && some_step(up, |s: StepModel| runs_words(s, seq!["vgchange"@, "-a"@, "y"@, "vg0"@]))
            &&& stack is Zfs ==> some_step(
                up,
                |s: StepModel|
                    runs_words(
                        s,
                        seq!["zpool"@, "import"@, "-f"@, "-N"@, "-R"@, at, "rpool"@],
                    ),
            )
        }),
{
    broadcast use group_some_steps;

    reveal_strlit("/dev/md/");
    reveal_strlit("root");
    reveal_strlit("/dev/md/root");
    assert("/dev/md/"@ + "root"@ =~= "/dev/md/root"@);
    assert(layout.crypt_devices() =~= Seq::new(
        layout.members.len(),
        |k: int| "/dev/mapper/"@ + layout.crypt_name(layout.members[k]),
    ));
    md_words("--run"@, "/dev/md/root"@);
    assert(seq!["mount"@].push("/dev/vg0/root"@).push(at) =~= seq![
        "mount"@,
        "/dev/vg0/root"@,
        at,
    ]);
    assert(seq!["zfs"@].push("mount"@).push("rpool/ROOT/debian"@) =~= seq![
        "zfs"@,
        "mount"@,
        "rpool/ROOT/debian"@,
    ]);
    assert(seq!["vgchange"@].push("-a"@).push("y"@).push("vg0"@) =~= seq![
        "vgchange"@,
        "-a"@,
        "y"@,
        "vg0"@,
    ]);
    assert(seq!["zpool"@].push("import"@).push("-f"@).push("-N"@).push("-R"@).push(at).push(
        "rpool"@,
    ) =~= seq!["zpool"@, "import"@, "-f"@, "-N"@, "-R"@, at, "rpool"@]);
}

// ------------------------------------------------------------ harmlessness

/// Whether a script is one of those that write no disk.
pub open spec fn harmless_script(t: Seq<char>) -> bool {
    ||| has_prefix(t, "sed -i 's/ main/ main contrib/g' "@)
    ||| has_prefix(t, "env DEBIAN_FRONTEND=noninteractive apt-get install -y "@)
    ||| has_prefix(t, "mount | tac | awk "@)
    ||| has_prefix(t, "mountpoint -q "@)
    ||| has_prefix(t, "for d in "@)
    ||| has_prefix(t, "dmesg -c | grep "@)
    ||| has_prefix(t, "bcachefs show-super "@)
}

/// Whether a step formats, partitions or wipes nothing, and takes no member into an array
/// nor out of it.
pub open spec fn harmless() -> spec_fn(StepModel) -> bool {
    |s: StepModel|
        {
            let w = command(s);
            &&& !runs(s, "wipefs"@) && !runs(s, "sgdisk"@)
            &&& !luks_formats(s, w[w.len() - 1]) && !runs_to(s, "integritysetup"@, "format"@)
            &&& !runs(s, "mkfs.ext4"@) && !runs(s, "mkfs.xfs"@) && !runs(s, "mkfs.msdos"@)
            &&& !runs(s, "mkfs.btrfs"@) && !runs(s, "mkfs.bcachefs"@)
            &&& !runs(s, "pvcreate"@) && !runs(s, "vgcreate"@) && !runs(s, "lvcreate"@)
            &&& !runs_to(s, "zpool"@, "create"@) && !runs_to(s, "zpool"@, "replace"@)
            &&& !runs_to(s, "mdadm"@, "--zero-superblock"@) && !runs_to(s, "mdadm"@, "--add"@)
            &&& !runs_to(s, "mdadm"@, "--fail"@) && !runs_to(s, "mdadm"@, "--remove"@)
            &&& runs(s, "sh"@) ==> harmless_script(script(s))
        }
}

proof fn fixed_scripts_are_harmless()
    ensures
        harmless_script("sed -i 's/ main/ main contrib/g' /etc/apt/sources.list"@),
        harmless_script(
            "env DEBIAN_FRONTEND=noninteractive apt-get install -y \"linux-headers-$(uname -r)\""@,
        ),
        harmless_script("mount | tac | awk '/\\/mnt/ {print $3}' | xargs -r -I{} umount -lf {}"@),
        harmless_script(
            "dmesg -c | grep \"checksum error at\" | grep \"(path:\" | sed -n -r 's#.*BTRFS.*i/o error.*path: (.*)\\)#\\1#p' || true"@,
        ),
        harmless_script(
            "bcachefs show-super /dev/mapper/*_crypt 2>/dev/null | grep -iE 'state|durability|label' || true"@,
        ),
{
    let a = "sed -i 's/ main/ main contrib/g' "@;
    let b = "env DEBIAN_FRONTEND=noninteractive apt-get install -y "@;
    let c = "mount | tac | awk "@;
    let d = "dmesg -c | grep "@;
    let e = "bcachefs show-super "@;
    reveal_strlit("sed -i 's/ main/ main contrib/g' ");
    reveal_strlit("env DEBIAN_FRONTEND=noninteractive apt-get install -y ");
    reveal_strlit("mount | tac | awk ");
    reveal_strlit("dmesg -c | grep ");
    reveal_strlit("bcachefs show-super ");
    reveal_strlit("sed -i 's/ main/ main contrib/g' /etc/apt/sources.list");
    reveal_strlit(
        "env DEBIAN_FRONTEND=noninteractive apt-get install -y \"linux-headers-$(uname -r)\"",
    );
    reveal_strlit("mount | tac | awk '/\\/mnt/ {print $3}' | xargs -r -I{} umount -lf {}");
    reveal_strlit(
        "dmesg -c | grep \"checksum error at\" | grep \"(path:\" | sed -n -r 's#.*BTRFS.*i/o error.*path: (.*)\\)#\\1#p' || true",
    );
    reveal_strlit(
        "bcachefs show-super /dev/mapper/*_crypt 2>/dev/null | grep -iE 'state|durability|label' || true",
    );
    assert("sed -i 's/ main/ main contrib/g' /etc/apt/sources.list"@.take(a.len() as int) =~= a);
    assert("env DEBIAN_FRONTEND=noninteractive apt-get install -y \"linux-headers-$(uname -r)\""@.take(
        b.len() as int,
    ) =~= b);
    assert("mount | tac | awk '/\\/mnt/ {print $3}' | xargs -r -I{} umount -lf {}"@.take(
        c.len() as int,
    ) =~= c);
    assert("dmesg -c | grep \"checksum error at\" | grep \"(path:\" | sed -n -r 's#.*BTRFS.*i/o error.*path: (.*)\\)#\\1#p' || true"@.take(
        d.len() as int,
    ) =~= d);
    assert("bcachefs show-super /dev/mapper/*_crypt 2>/dev/null | grep -iE 'state|durability|label' || true"@.take(
        e.len() as int,
    ) =~= e);
}

proof fn repos_are_harmless(cfg: ConfigModel, stack: AnyStack)
    ensures
        all_steps(stack.apt_repos_plan(cfg, ""@), harmless()),
        all_steps(stack.host_prereqs_plan(), harmless()),
        all_steps(prepare_phase_plan().steps, harmless()),
{
    broadcast use group_all_steps;

    words();
    fixed_scripts_are_harmless();
}

proof fn tools_are_harmless<S: Stack>(cfg: ConfigModel, stack: S)
    requires
        all_steps(stack.apt_repos_plan(cfg, ""@), harmless()),
        all_steps(stack.host_prereqs_plan(), harmless()),
    ensures
        all_steps(apt_phase_plan(cfg, stack).steps, harmless()),
{
    broadcast use group_all_steps;

    words();
    fixed_scripts_are_harmless();
}

proof fn stopping_is_harmless(devices: Seq<Seq<char>>)
    ensures
        harmless()(md_stop_holders_plan(devices)),
{
    words();
    let t = script(md_stop_holders_plan(devices));
    assert(t.take("for d in "@.len() as int) =~= "for d in "@);
}

proof fn closing_root_is_harmless(cfg: ConfigModel, layout: LayoutModel, stack: AnyStack)
    ensures
        all_steps(stack.close_plan(cfg, layout), harmless()),
{
    broadcast use group_all_steps;

    words();
    stopping_is_harmless(layout.crypt_devices());
    stopping_is_harmless(layout.int_devices());
}

proof fn closing_is_harmless(cfg: ConfigModel, layout: LayoutModel, stack: AnyStack)
    ensures
        all_steps(close_phase_plan(cfg, layout, stack).steps, harmless()),
{
    broadcast use group_all_steps;

    words();
    fixed_scripts_are_harmless();
    closing_root_is_harmless(cfg, layout, stack);
}

proof fn mapping_is_harmless(cfg: ConfigModel, layout: LayoutModel, stack: AnyStack)
    ensures
        all_steps(stack.map_plan(cfg, layout), harmless()),
        all_steps(stack.mount_root_plan(cfg, layout), harmless()),
{
    broadcast use group_all_steps;

    words();
}

proof fn mounting_boot_is_harmless(layout: LayoutModel, at: Seq<char>, efi: bool)
    ensures
        all_steps(boot_mount_steps_plan(layout, at, efi), harmless()),
{
    broadcast use group_all_steps;

    words();
    let base = crate::pipeline::below(at);
    let q = "mountpoint -q "@;
    let v = boot_mount_steps_plan(layout, at, efi);
    let t = script(v[1]);
    assert(t.take(q.len() as int) =~= q);
    let u = script(
        crate::pipeline::mount_first_plan(
            "mount the primary esp"@,
            layout.esp_devices(),
            base + "/boot/efi"@,
        ),
    );
    assert(u.take(q.len() as int) =~= q);
}

proof fn binding_is_harmless(cfg: ConfigModel, layout: LayoutModel)
    ensures
        all_steps(bind_phase_plan(cfg, layout).steps, harmless()),
{
    broadcast use group_all_steps;

    words();
    mounting_boot_is_harmless(layout, "/mnt"@, cfg.efi());
}

proof fn scrubbing_is_harmless(cfg: ConfigModel, layout: LayoutModel, stack: AnyStack)
    ensures
        all_steps(scrub_steps_plan(cfg, layout, stack), harmless()),
{
    broadcast use group_all_steps;

    words();
}

proof fn looking_is_harmless(cfg: ConfigModel, layout: LayoutModel, stack: AnyStack)
    ensures
        all_steps(status_steps_plan(cfg, layout, stack), harmless()),
{
    broadcast use group_all_steps;

    words();
    fixed_scripts_are_harmless();
}

/// What goes ahead unconfirmed does no harm: a rescue, a close, a mount, a scrub and a
/// status format, partition and wipe nothing, neither directly nor in a script, and leave
/// the members of the arrays as they are.
pub proof fn unconfirmed_operations_do_no_harm(
    cfg: ConfigModel,
    layout: LayoutModel,
    stack: AnyStack,
    boot_only: bool,
    at: Seq<char>,
    i: int,
)
    ensures
        0 <= i < 6 ==> all_steps(rescue_plan(cfg, layout, stack)[i].steps, harmless()),
        all_steps(close_phase_plan(cfg, layout, stack).steps, harmless()),
        all_steps(mount_steps_plan(cfg, layout, stack, boot_only, at), harmless()),
        all_steps(scrub_steps_plan(cfg, layout, stack), harmless()),
        all_steps(status_steps_plan(cfg, layout, stack), harmless()),
{
    repos_are_harmless(cfg, stack);
    tools_are_harmless(cfg, stack);
    closing_is_harmless(cfg, layout, stack);
    mapping_is_harmless(cfg, layout, stack);
    binding_is_harmless(cfg, layout);
    scrubbing_is_harmless(cfg, layout, stack);
    looking_is_harmless(cfg, layout, stack);
    mounting_boot_is_harmless(layout, at, cfg.efi());
    let none = Seq::<StepModel>::empty();
    let a = stack.map_plan(cfg, layout);
    let b = stack.mount_root_plan(cfg, layout);
    let c = boot_mount_steps_plan(layout, at, cfg.efi());
    crate::laws::all_of_none(harmless());
    crate::laws::all_of_both(none, a, harmless());
    crate::laws::all_of_both(none + a, b, harmless());
    crate::laws::all_of_both(none + a + b, c, harmless());
    crate::laws::all_of_both(none, c, harmless());
}

} // verus!
