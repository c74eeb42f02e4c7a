//! What repairs a check that did not pass. A repair observes the live state again and
//! acts only on what differs from it.
use vstd::prelude::*;
use vstd::string::*;

use crate::doctor::check::{
    action_text, checks, first_line, first_line_of, Check, CheckModel, Fix, Status, UuidKind, FIXED,
};
use crate::doctor::layers::{
    efi_hook_path, efi_hook_text, hook_check, hook_path, hook_text, HookState,
};
use crate::doctor::nvram::{
    argvs, debconf_commands, debconf_lines, deleted, efibootmgr_commands, efibootmgr_plan,
    lines_entries, reconcile_lines, reconcile_preview, reconcile_words, registered, EspId,
};
use crate::efi::{
    debconf_keys, debconf_text, grub_debconf_selections, grub_install_steps, grub_installs,
    mkfs_esp_argv, mkfs_esp_words,
};
use crate::layout::{Layout, LayoutModel, ESP_MOUNT};
use crate::pipeline::{boot_mirror_install_steps_plan, EFI_OPTS};
use crate::stack::{
    backup_luks_headers, backup_luks_headers_plan, raiden_recovery_hook_step,
    raiden_recovery_hook_step_plan, update_initramfs_u, update_initramfs_u_plan, Stack,
    BOOT_MIRROR_HOOK_CONTENT, BOOT_MIRROR_HOOK_NAME, EFI_MIRROR_HOOK_PATH, EFI_MIRROR_WRAPPER,
    RAIDEN_RECOVERY_HOOK,
};
use crate::step::{
    add_step, add_steps, models, one_step, run_step, sh_step, write_mode_step, ActionModel, Step,
    StepModel,
};
use crate::sync::{is_same_device, one_device, opt_device, pair, paired, Device, DeviceModel};
use crate::text::{
    cmd, dec, decimal, flag_at, head_all, headed, join, joined, lines, nth_flag, nth_text, opt_text,
    push_text, push_texts, same, text_at, texts, to_chars, ArgList,
};

verus! {

// ---------------------------------------------------------------------- live

/// What is seen of one set of mirrors. The lists go by the members of the layout.
pub struct MirrorView {
    /// The device behind the mounted source, where it is mounted.
    pub src: Option<Device>,
    /// The uuid of that device.
    pub src_uuid: Option<String>,
    /// What each device leads to.
    pub leads: Vec<Option<String>>,
    /// Whether each device is there.
    pub present: Vec<bool>,
    /// The uuid of each device.
    pub uuids: Vec<Option<String>>,
}

/// What is seen of the state that repairs act on.
pub struct Live {
    pub boot: MirrorView,
    pub esp: MirrorView,
    /// The output of `efibootmgr -v`, where it can be read.
    pub nvram: Option<String>,
    /// What is known of each member's esp.
    pub ids: Vec<EspId>,
}

// ------------------------------------------------------------------- restamp

/// Where a set of mirrors is mounted.
pub open spec fn mount_text(kind: UuidKind) -> Seq<char> {
    match kind {
        UuidKind::Boot => "/boot"@,
        UuidKind::Esp => ESP_MOUNT@,
    }
}

/// The devices of a set of mirrors.
pub open spec fn devices_of(kind: UuidKind, layout: LayoutModel) -> Seq<Seq<char>> {
    match kind {
        UuidKind::Boot => layout.boot_devices(),
        UuidKind::Esp => layout.esp_devices(),
    }
}

/// What is seen of a set of mirrors.
pub open spec fn view_of(kind: UuidKind, live: Live) -> MirrorView {
    match kind {
        UuidKind::Boot => live.boot,
        UuidKind::Esp => live.esp,
    }
}

/// Whether a mirror is to be stamped: it is there, it is not the live source, and it
/// does not share the uuid.
pub open spec fn to_stamp(
    devs: Seq<DeviceModel>,
    view: MirrorView,
    src: DeviceModel,
    uuid: Seq<char>,
    i: int,
) -> bool {
    !one_device(devs[i], src) && flag_at(view.present@, i) && text_at(view.uuids@, i) != Some(uuid)
}

/// The mirrors to stamp among the first `n`.
pub open spec fn stamp_list(
    devs: Seq<DeviceModel>,
    view: MirrorView,
    src: DeviceModel,
    uuid: Seq<char>,
    n: nat,
) -> Seq<Seq<char>>
    decreases n,
{
    if n == 0 {
        Seq::empty()
    } else {
        let before = stamp_list(devs, view, src, uuid, (n - 1) as nat);
        if to_stamp(devs, view, src, uuid, n - 1) {
            before.push(devs[n - 1].path)
        } else {
            before
        }
    }
}

/// A stamp of the shared uuid onto the mirrors that differ.
pub struct Restamp {
    pub mount: String,
    pub uuid: String,
    pub targets: Vec<String>,
}

#[verifier::ext_equal]
pub struct RestampModel {
    pub mount: Seq<char>,
    pub uuid: Seq<char>,
    pub targets: Seq<Seq<char>>,
}

impl View for Restamp {
    type V = RestampModel;

    open spec fn view(&self) -> RestampModel {
        RestampModel { mount: self.mount@, uuid: self.uuid@, targets: texts(self.targets@) }
    }
}

/// What is to be stamped, or why that cannot be told: the source must be mounted and
/// its uuid readable, for that is the truth that is propagated.
pub open spec fn restamp_of(
    kind: UuidKind,
    layout: LayoutModel,
    view: MirrorView,
) -> Result<RestampModel, Seq<char>> {
    let mount = mount_text(kind);
    match opt_device(view.src) {
        None => Err(mount + " is not mounted; mount it first, then re-run --fix"@),
        Some(src) => match opt_text(view.src_uuid) {
            None => Err("cannot read the live "@ + mount + " uuid from "@ + src.path),
            Some(uuid) => Ok(
                RestampModel {
                    mount,
                    uuid,
                    targets: stamp_list(
                        paired(devices_of(kind, layout), view.leads@),
                        view,
                        src,
                        uuid,
                        devices_of(kind, layout).len(),
                    ),
                },
            ),
        },
    }
}

/// What is to be stamped, or why that cannot be told.
pub fn restamp_targets(kind: UuidKind, layout: &Layout, view: &MirrorView) -> (r: Result<
    Restamp,
    String,
>)
    ensures
        match r {
            Ok(p) => restamp_of(kind, layout@, *view) == Ok::<RestampModel, Seq<char>>(p@),
            Err(e) => restamp_of(kind, layout@, *view) == Err::<RestampModel, Seq<char>>(e@),
        },
{
    let (mount, paths) = match kind {
        UuidKind::Boot => ("/boot", layout.boot_devices()),
        UuidKind::Esp => (ESP_MOUNT, layout.esp_devices()),
    };
    let src = match &view.src {
        Some(s) => s,
        None => {
            return Err(
                mount.to_owned().concat(" is not mounted; mount it first, then re-run --fix"),
            );
        },
    };
    let uuid = match &view.src_uuid {
        Some(u) => u,
        None => {
            return Err(
                "cannot read the live ".to_owned().concat(mount).concat(" uuid from ").concat(
                    src.path.as_str(),
                ),
            );
        },
    };
    let devs = pair(&paths, &view.leads);
    let ghost m = paired(devices_of(kind, layout@), view.leads@);
    let mut targets: Vec<String> = Vec::new();
    assert(texts(targets@) =~= Seq::<Seq<char>>::empty());
    let mut i: usize = 0;
    while i < devs.len()
        invariant
            i <= devs.len(),
            m == crate::sync::devices(devs@),
            texts(targets@) == stamp_list(m, *view, src@, uuid@, i as nat),
        decreases devs.len() - i,
    {
        assert(m[i as int] == devs@[i as int]@);
        let shared = match nth_text(&view.uuids, i) {
            Some(u) => same(u.as_str(), uuid.as_str()),
            None => false,
        };
        if !is_same_device(&devs[i], src) && nth_flag(&view.present, i) && !shared {
            push_text(&mut targets, devs[i].path.as_str());
        }
        i += 1;
    }
    assert(m.len() == devs@.len());
    Ok(Restamp { mount: mount.to_owned(), uuid: uuid.clone(), targets })
}

/// A stamp touches configured member partitions only, never the live source, and none
/// that shares the uuid already; and it touches every other one that is there.
pub proof fn a_stamp_touches_what_differs(
    devs: Seq<DeviceModel>,
    view: MirrorView,
    src: DeviceModel,
    uuid: Seq<char>,
    n: nat,
    x: Seq<char>,
)
    requires
        n <= devs.len(),
    ensures
        stamp_list(devs, view, src, uuid, n).contains(x) <==> exists|i: int|
            0 <= i < n && #[trigger] devs[i].path == x && to_stamp(devs, view, src, uuid, i),
    decreases n,
{
    if n > 0 {
        let k = (n - 1) as nat;
        a_stamp_touches_what_differs(devs, view, src, uuid, k, x);
        let before = stamp_list(devs, view, src, uuid, k);
        let all = stamp_list(devs, view, src, uuid, n);
        if before.contains(x) {
            let j = choose|j: int| 0 <= j < before.len() && before[j] == x;
            assert(all[j] == x);
        }
        if devs[n - 1].path == x && to_stamp(devs, view, src, uuid, n - 1) {
            assert(all[all.len() - 1] == x);
        }
        if all.contains(x) && !before.contains(x) {
            let j = choose|j: int| 0 <= j < all.len() && all[j] == x;
            if j < before.len() {
                assert(before[j] == x);
            }
            assert(devs[n - 1].path == x);
        }
    }
}

/// A set of mirrors that shares the live uuid is left alone, so a second stamp finds
/// nothing to do.
pub proof fn a_stamped_set_is_left_alone(
    devs: Seq<DeviceModel>,
    view: MirrorView,
    src: DeviceModel,
    uuid: Seq<char>,
    n: nat,
)
    requires
        n <= devs.len(),
        forall|i: int|
            0 <= i < n && flag_at(view.present@, i) ==> one_device(#[trigger] devs[i], src)
                || text_at(view.uuids@, i) == Some(uuid),
    ensures
        stamp_list(devs, view, src, uuid, n).len() == 0,
    decreases n,
{
    if n > 0 {
        a_stamped_set_is_left_alone(devs, view, src, uuid, (n - 1) as nat);
        assert(flag_at(view.present@, n - 1) ==> one_device(devs[n - 1], src) || text_at(
            view.uuids@,
            n - 1,
        ) == Some(uuid));
    }
}

/// A text without its dashes.
pub open spec fn without_dashes(s: Seq<char>) -> Seq<char>
    decreases s.len(),
{
    if s.len() == 0 {
        Seq::empty()
    } else if s.last() == '-' {
        without_dashes(s.drop_last())
    } else {
        without_dashes(s.drop_last()).push(s.last())
    }
}

fn strip_dashes(s: &str) -> (r: String)
    ensures
        r@ == without_dashes(s@),
{
    let v = to_chars(s);
    let mut out = String::new();
    let mut i: usize = 0;
    while i < v.len()
        invariant
            i <= v.len(),
            out@ == without_dashes(v@.take(i as int)),
        decreases v.len() - i,
    {
        assert(v@.take(i + 1).drop_last() =~= v@.take(i as int));
        if v[i] != '-' {
            out.push(v[i]);
        }
        i += 1;
    }
    assert(v@.take(v@.len() as int) =~= s@);
    out
}

/// The command that stamps one mirror: /boot in place, an esp by formatting it with
/// the shared volume id.
pub open spec fn restamp_words(kind: UuidKind, dev: Seq<char>, uuid: Seq<char>) -> Seq<Seq<char>> {
    match kind {
        UuidKind::Boot => seq!["tune2fs"@].push("-U"@).push(uuid).push(dev),
        UuidKind::Esp => mkfs_esp_words(dev, Some(without_dashes(uuid))),
    }
}

/// The command that stamps one mirror.
pub fn restamp_argv(kind: UuidKind, dev: &str, uuid: &str) -> (r: Vec<String>)
    ensures
        texts(r@) == restamp_words(kind, dev@, uuid@),
{
    match kind {
        UuidKind::Boot => cmd("tune2fs").arg("-U").arg(uuid).arg(dev),
        UuidKind::Esp => {
            let volid = strip_dashes(uuid);
            mkfs_esp_argv(dev, Some(volid.as_str()))
        },
    }
}

/// The command line that resyncs a set of mirrors.
pub open spec fn sync_line(kind: UuidKind) -> Seq<char> {
    match kind {
        UuidKind::Boot => "raiden sync boot --yes"@,
        UuidKind::Esp => "raiden sync efi --yes"@,
    }
}

/// The preview of a stamp: a command per mirror, then the resync.
pub open spec fn restamp_lines(
    kind: UuidKind,
    plan: Result<RestampModel, Seq<char>>,
) -> Seq<Seq<char>> {
    match plan {
        Err(e) => seq!["(cannot preview: "@ + e + ")"@],
        Ok(p) => if p.targets.len() == 0 {
            seq!["(nothing to do: all "@ + p.mount + " mirrors already share "@ + p.uuid + ")"@]
        } else {
            p.targets.map_values(
                |d: Seq<char>| joined(restamp_words(kind, d, p.uuid), " "@),
            ).push(
                sync_line(kind) + "   # rsync the bootloader from "@ + p.mount
                    + " onto the re-stamped mirrors"@,
            )
        },
    }
}

/// The preview of a stamp.
pub fn restamp_commands(kind: UuidKind, layout: &Layout, view: &MirrorView) -> (r: Vec<String>)
    ensures
        texts(r@) == restamp_lines(kind, restamp_of(kind, layout@, *view)),
{
    let p = match restamp_targets(kind, layout, view) {
        Ok(p) => p,
        Err(e) => {
            return cmd("(cannot preview: ".to_owned().concat(e.as_str()).concat(")").as_str());
        },
    };
    let ghost m = p@.targets;
    assert(m.len() == p.targets@.len());
    if p.targets.len() == 0 {
        return cmd(
            "(nothing to do: all ".to_owned().concat(p.mount.as_str()).concat(
                " mirrors already share ",
            ).concat(p.uuid.as_str()).concat(")").as_str(),
        );
    }
    let ghost want = m.map_values(|d: Seq<char>| joined(restamp_words(kind, d, p@.uuid), " "@));
    let mut out: Vec<String> = Vec::new();
    let mut i: usize = 0;
    while i < p.targets.len()
        invariant
            i <= p.targets.len(),
            m == p@.targets,
            want == m.map_values(|d: Seq<char>| joined(restamp_words(kind, d, p@.uuid), " "@)),
            texts(out@) =~= want.take(i as int),
        decreases p.targets.len() - i,
    {
        let a = restamp_argv(kind, p.targets[i].as_str(), p.uuid.as_str());
        push_text(&mut out, join(&a, " ").as_str());
        assert(want[i as int] == joined(texts(a@), " "@));
        i += 1;
    }
    assert(want.take(want.len() as int) =~= want);
    let again = match kind {
        UuidKind::Boot => "raiden sync boot --yes",
        UuidKind::Esp => "raiden sync efi --yes",
    };
    push_text(
        &mut out,
        again.to_owned().concat("   # rsync the bootloader from ").concat(p.mount.as_str()).concat(
            " onto the re-stamped mirrors",
        ).as_str(),
    );
    out
}

// ------------------------------------------------------------------- preview

/// What is printed of a list of steps, without their notes.
pub open spec fn described(v: Seq<StepModel>) -> Seq<Seq<char>>
    decreases v.len(),
{
    if v.len() == 0 {
        Seq::empty()
    } else {
        described(v.drop_last()) + v.last().description()
    }
}

/// What is printed of a list of steps, without their notes.
pub fn describe_steps(v: &Vec<Step>) -> (r: Vec<String>)
    ensures
        texts(r@) == described(models(v@)),
{
    let ghost m = models(v@);
    let mut out: Vec<String> = Vec::new();
    assert(texts(out@) =~= Seq::<Seq<char>>::empty());
    let mut i: usize = 0;
    while i < v.len()
        invariant
            i <= v.len(),
            m == models(v@),
            texts(out@) == described(m.take(i as int)),
        decreases v.len() - i,
    {
        assert(m.take(i + 1).drop_last() =~= m.take(i as int));
        assert(m.take(i + 1).last() == v@[i as int]@);
        push_texts(&mut out, &v[i].describe());
        i += 1;
    }
    assert(m.take(m.len() as int) =~= m);
    out
}

/// The preview of a repair: the commands that it would run, in order.
pub open spec fn fix_lines(fix: Fix, layout: LayoutModel, live: Live) -> Seq<Seq<char>> {
    match fix {
        Fix::BootHook(dir) => seq!["write "@ + hook_text(dir@) + " (mode 0755)"@],
        Fix::EfiHook => seq!["write "@ + efi_hook_text() + " (mode 0755)"@],
        Fix::SyncBoot => seq!["raiden sync boot --yes"@],
        Fix::SyncEfi => seq!["raiden sync efi --yes"@],
        Fix::RestampUuid(kind) => restamp_lines(
            kind,
            restamp_of(kind, layout, view_of(kind, live)),
        ),
        Fix::EfiBootEntries => match opt_text(live.nvram) {
            Some(out) => reconcile_lines(
                deleted(lines_entries(lines(out)), live.ids@, layout.members.len()),
                registered(layout.members, live.ids@),
            ),
            None => seq!["(cannot preview: could not read efibootmgr -v)"@],
        },
        Fix::Debconf => debconf_lines(),
        Fix::Fstab => seq!["append the missing /boot or /boot/efi UUID= entry to /etc/fstab"@],
        Fix::Crypttab => seq!["regenerate /etc/crypttab from the layout"@],
        Fix::GrubInstall => described(grub_installs(false)),
        Fix::Initrd => update_initramfs_u_plan(false).description(),
        Fix::RecoverBundle => seq!["write "@ + RAIDEN_RECOVERY_HOOK@ + " (mode 0755)"@]
            + update_initramfs_u_plan(false).description(),
        Fix::LuksBackup => seq!["rm -f /boot/luks/*-headers.bin"@].push(
            "cryptsetup luksHeaderBackup <member>3 --header-backup-file /boot/luks/<member>3-headers.bin (per member)"@,
        ),
    }
}

/// The commands that a repair would run, in order.
pub fn fix_commands(fix: &Fix, layout: &Layout, live: &Live) -> (r: Vec<String>)
    ensures
        texts(r@) == fix_lines(*fix, layout@, *live),
{
    match fix {
        Fix::BootHook(dir) => cmd(
            "write ".to_owned().concat(hook_path(dir).as_str()).concat(" (mode 0755)").as_str(),
        ),
        Fix::EfiHook => cmd(
            "write ".to_owned().concat(efi_hook_path().as_str()).concat(" (mode 0755)").as_str(),
        ),
        Fix::SyncBoot => cmd("raiden sync boot --yes"),
        Fix::SyncEfi => cmd("raiden sync efi --yes"),
        Fix::RestampUuid(UuidKind::Boot) => restamp_commands(UuidKind::Boot, layout, &live.boot),
        Fix::RestampUuid(UuidKind::Esp) => restamp_commands(UuidKind::Esp, layout, &live.esp),
        Fix::EfiBootEntries => match efibootmgr_plan(layout, &live.nvram, &live.ids) {
            Some(p) => reconcile_preview(&p),
            None => cmd("(cannot preview: could not read efibootmgr -v)"),
        },
        Fix::Debconf => debconf_commands(),
        Fix::Fstab => cmd("append the missing /boot or /boot/efi UUID= entry to /etc/fstab"),
        Fix::Crypttab => cmd("regenerate /etc/crypttab from the layout"),
        Fix::GrubInstall => describe_steps(&grub_install_steps(false)),
        Fix::Initrd => update_initramfs_u(false).describe(),
        Fix::RecoverBundle => cmd(
            "write ".to_owned().concat(RAIDEN_RECOVERY_HOOK).concat(" (mode 0755)").as_str(),
        ).args(&update_initramfs_u(false).describe()),
        Fix::LuksBackup => cmd("rm -f /boot/luks/*-headers.bin").arg(
            "cryptsetup luksHeaderBackup <member>3 --header-backup-file /boot/luks/<member>3-headers.bin (per member)",
        ),
    }
}

/// How many of the checks have a repair.
pub open spec fn fixable(v: Seq<CheckModel>) -> nat
    decreases v.len(),
{
    if v.len() == 0 {
        0
    } else {
        fixable(v.drop_last()) + (if v.last().fix is Some {
            1nat
        } else {
            0nat
        })
    }
}

/// The preview of one repair, under its number.
pub open spec fn flow_block(n: nat, c: CheckModel, layout: LayoutModel, live: Live) -> Seq<
    Seq<char>,
> {
    (seq!["["@ + dec(n) + "] "@ + c.name + ": "@ + action_text(c.fix->0)].push(
        "    # "@ + first_line_of(c.detail),
    ) + headed("    "@, fix_lines(c.fix->0, layout, live))).push(""@)
}

/// The preview of all repairs, in the order of the checks.
pub open spec fn flow(v: Seq<CheckModel>, layout: LayoutModel, live: Live) -> Seq<Seq<char>>
    decreases v.len(),
{
    if v.len() == 0 {
        Seq::empty()
    } else {
        let before = flow(v.drop_last(), layout, live);
        if v.last().fix is Some {
            before + flow_block(fixable(v), v.last(), layout, live)
        } else {
            before
        }
    }
}

/// What is printed before the preview.
pub open spec fn flow_intro(yes: bool) -> Seq<char> {
    "doctor --fix --dry-run: the commands below would run, in order; nothing has\nbeen changed. "@
        + (if yes {
        "--yes: each runs without confirmation."@
    } else {
        "without --yes each step prompts first; decline to skip it."@
    }) + "\n"@
}

/// The preview of the repairs of a set of checks.
pub struct Preview {
    /// Printed before the commands.
    pub intro: String,
    /// The commands, grouped by repair.
    pub body: Vec<String>,
    /// Printed behind the commands.
    pub outro: String,
}

/// The preview of the repairs of a set of checks; None where there is nothing to
/// repair.
pub fn preview_fixes(v: &Vec<Check>, layout: &Layout, live: &Live, yes: bool) -> (r: Option<
    Preview,
>)
    ensures
        r is Some <==> fixable(checks(v@)) > 0,
        r is Some ==> r->0.intro@ == flow_intro(yes),
        r is Some ==> texts(r->0.body@) == flow(checks(v@), layout@, *live),
        r is Some ==> r->0.outro@ == "re-run without --dry-run to apply."@,
{
    let ghost m = checks(v@);
    let mut body: Vec<String> = Vec::new();
    assert(texts(body@) =~= Seq::<Seq<char>>::empty());
    let mut n: u64 = 0;
    let mut i: usize = 0;
    while i < v.len()
        invariant
            n <= i <= v.len(),
            m == checks(v@),
            n == fixable(m.take(i as int)),
            texts(body@) == flow(m.take(i as int), layout@, *live),
        decreases v.len() - i,
    {
        assert(m.take(i + 1).drop_last() =~= m.take(i as int));
        assert(m.take(i + 1).last() == v@[i as int]@);
        let c = &v[i];
        match &c.fix {
            Some(fix) => {
                n += 1;
                let title = "[".to_owned().concat(decimal(n).as_str()).concat("] ").concat(
                    c.name.as_str(),
                ).concat(": ").concat(fix.action());
                let reason = "    # ".to_owned().concat(first_line(c.detail.as_str()).as_str());
                let block = cmd(title.as_str()).arg(reason.as_str()).args(
                    &head_all("    ", &fix_commands(fix, layout, live)),
                ).arg("");
                push_texts(&mut body, &block);
            },
            None => {},
        }
        i += 1;
    }
    assert(m.take(m.len() as int) =~= m);
    if n == 0 {
        return None;
    }
    let how = if yes {
        "--yes: each runs without confirmation."
    } else {
        "without --yes each step prompts first; decline to skip it."
    };
    let intro =
        "doctor --fix --dry-run: the commands below would run, in order; nothing has\nbeen changed. ".to_owned().concat(
        how,
    ).concat("\n");
    Some(Preview { intro, body, outro: "re-run without --dry-run to apply.".to_owned() })
}

// --------------------------------------------------------------------- apply

/// What came of a repair.
pub enum FixOutcome {
    Declined,
    Done(String),
    Failed(String),
}

/// The check after its repair: fixed, or left as it was with a remark.
pub open spec fn settled(c: CheckModel, o: FixOutcome) -> CheckModel {
    match o {
        FixOutcome::Declined => CheckModel { detail: c.detail + " (fix skipped)"@, ..c },
        FixOutcome::Done(d) => CheckModel {
            name: c.name,
            status: Status::Fixed,
            detail: d@,
            fix: None,
        },
        FixOutcome::Failed(e) => CheckModel {
            detail: c.detail + " (fix failed: "@ + e@ + ")"@,
            ..c
        },
    }
}

/// The check after its repair.
pub fn settle(c: Check, o: FixOutcome) -> (r: Check)
    ensures
        r@ == settled(c@, o),
{
    match o {
        FixOutcome::Declined => Check {
            name: c.name,
            status: c.status,
            detail: c.detail.concat(" (fix skipped)"),
            fix: c.fix,
        },
        FixOutcome::Done(d) => Check { name: c.name, status: FIXED, detail: d, fix: None },
        FixOutcome::Failed(e) => Check {
            name: c.name,
            status: c.status,
            detail: c.detail.concat(" (fix failed: ").concat(e.as_str()).concat(")"),
            fix: c.fix,
        },
    }
}

/// A repair passes a check only where it was done; otherwise the status stays.
pub proof fn only_a_done_repair_passes(c: CheckModel, o: FixOutcome)
    requires
        !c.passed(),
    ensures
        settled(c, o).passed() <==> o is Done,
        o !is Done ==> settled(c, o).status == c.status && settled(c, o).fix == c.fix,
        settled(c, o).name == c.name,
{
}

/// The question that confirms a repair.
pub fn question(c: &Check, fix: &Fix) -> (r: String)
    ensures
        r@ == c@.name + " ("@ + first_line_of(c@.detail) + "): "@ + action_text(*fix) + "?"@,
{
    c.name.clone().concat(" (").concat(first_line(c.detail.as_str()).as_str()).concat("): ").concat(
        fix.action(),
    ).concat("?")
}

/// What is to be done to repair a check, and what is said once it is done.
pub enum Repair {
    /// Carry out these steps.
    Steps(Vec<Step>, String),
    /// Resync this set of mirrors.
    Sync(UuidKind, String),
    /// Stamp the mirrors by these commands, then resync this set of mirrors.
    Restamp(Vec<Vec<String>>, UuidKind, String),
    /// Run these commands.
    Commands(Vec<Vec<String>>, String),
    /// Feed this to debconf-set-selections.
    Debconf(String, String),
    /// Carry out the first step, save the manifest to both its places, and carry out
    /// the second step.
    Bundle(Step, Step, String),
}

#[verifier::ext_equal]
pub enum RepairModel {
    Steps(Seq<StepModel>, Seq<char>),
    Sync(UuidKind, Seq<char>),
    Restamp(Seq<Seq<Seq<char>>>, UuidKind, Seq<char>),
    Commands(Seq<Seq<Seq<char>>>, Seq<char>),
    Debconf(Seq<char>, Seq<char>),
    Bundle(StepModel, StepModel, Seq<char>),
}

impl View for Repair {
    type V = RepairModel;

    open spec fn view(&self) -> RepairModel {
        match self {
            Repair::Steps(s, d) => RepairModel::Steps(models(s@), d@),
            Repair::Sync(k, d) => RepairModel::Sync(*k, d@),
            Repair::Restamp(a, k, d) => RepairModel::Restamp(argvs(a@), *k, d@),
            Repair::Commands(a, d) => RepairModel::Commands(argvs(a@), d@),
            Repair::Debconf(i, d) => RepairModel::Debconf(i@, d@),
            Repair::Bundle(a, b, d) => RepairModel::Bundle(a@, b@, d@),
        }
    }
}

/// The shell line that appends the entry of /boot, where fstab has none.
pub open spec fn boot_entry_script(dev: Seq<char>) -> Seq<char> {
    "grep -q ' /boot ' /etc/fstab || { u=$(blkid -s UUID -o value "@ + dev
        + "); echo \"UUID=$u /boot ext4 defaults,nofail 0 2\" >> /etc/fstab; }; "@
}

/// The shell line that appends the entry of the esp, where fstab has none.
pub open spec fn esp_entry_script(esp: Seq<char>) -> Seq<char> {
    "grep -q ' "@ + ESP_MOUNT@ + " ' /etc/fstab || { u=$(blkid -s UUID -o value "@ + esp
        + "); echo \"UUID=$u "@ + ESP_MOUNT@ + " vfat "@ + EFI_OPTS@
        + ",nofail 0 0\" >> /etc/fstab; }"@
}

/// The script that appends the missing entries of fstab.
pub open spec fn fstab_script(layout: LayoutModel) -> Seq<char> {
    if layout.members.len() == 0 {
        ""@
    } else {
        boot_entry_script(layout.boot_devices()[0]) + esp_entry_script(layout.esp_devices()[0])
    }
}

fn fstab_fix(layout: &Layout) -> (r: String)
    ensures
        r@ == fstab_script(layout@),
{
    let boots = layout.boot_devices();
    let esps = layout.esp_devices();
    assert(texts(boots@).len() == boots@.len() && texts(esps@).len() == esps@.len());
    assert(layout@.boot_devices().len() == layout@.members.len());
    assert(layout@.esp_devices().len() == layout@.members.len());
    if boots.len() == 0 || esps.len() == 0 {
        return "".to_owned();
    }
    assert(texts(boots@)[0] == boots@[0]@ && texts(esps@)[0] == esps@[0]@);
    let boot = "grep -q ' /boot ' /etc/fstab || { u=$(blkid -s UUID -o value ".to_owned().concat(
        boots[0].as_str(),
    ).concat("); echo \"UUID=$u /boot ext4 defaults,nofail 0 2\" >> /etc/fstab; }; ");
    let esp = "grep -q ' ".to_owned().concat(ESP_MOUNT).concat(
        " ' /etc/fstab || { u=$(blkid -s UUID -o value ",
    ).concat(esps[0].as_str()).concat("); echo \"UUID=$u ").concat(ESP_MOUNT).concat(
        " vfat ",
    ).concat(EFI_OPTS).concat(",nofail 0 0\" >> /etc/fstab; }");
    boot.concat(esp.as_str())
}

/// The steps that install a hook: its directory, then the executable script.
pub open spec fn hook_steps(
    note: Seq<char>,
    dir: Seq<char>,
    path: Seq<char>,
    content: Seq<char>,
) -> Seq<StepModel> {
    seq![run_step("create the hook directory"@, seq!["mkdir"@].push("-p"@).push(dir))].push(
        write_mode_step(note, path, content, 0o755),
    )
}

fn install_hook(note: &str, dir: &str, path: &str, content: &str) -> (r: Vec<Step>)
    ensures
        models(r@) == hook_steps(note@, dir@, path@, content@),
{
    let mut s = one_step(
        Step::run_owned("create the hook directory", cmd("mkdir").arg("-p").arg(dir)),
    );
    add_step(&mut s, Step::write_mode(note, path, content, 0o755));
    s
}

/// What is to be done to repair a check, or why that cannot be told.
pub open spec fn repair_of<S: Stack>(
    fix: Fix,
    layout: LayoutModel,
    stack: S,
    live: Live,
) -> Result<RepairModel, Seq<char>> {
    match fix {
        Fix::BootHook(dir) => Ok(
            RepairModel::Steps(
                hook_steps(
                    "install the boot-mirror kernel hook"@,
                    "/etc/kernel/"@ + dir@,
                    hook_text(dir@),
                    BOOT_MIRROR_HOOK_CONTENT@,
                ),
                "installed "@ + hook_text(dir@),
            ),
        ),
        Fix::EfiHook => Ok(
            RepairModel::Steps(
                hook_steps(
                    "install the esp-mirror grub.d hook"@,
                    "/etc/grub.d"@,
                    efi_hook_text(),
                    EFI_MIRROR_WRAPPER@,
                ),
                "installed "@ + efi_hook_text(),
            ),
        ),
        Fix::SyncBoot => Ok(RepairModel::Sync(UuidKind::Boot, "re-synced /boot mirrors"@)),
        Fix::SyncEfi => Ok(RepairModel::Sync(UuidKind::Esp, "re-synced esp mirrors"@)),
        Fix::RestampUuid(kind) => match restamp_of(kind, layout, view_of(kind, live)) {
            Ok(p) => Ok(
                RepairModel::Restamp(
                    p.targets.map_values(|d: Seq<char>| restamp_words(kind, d, p.uuid)),
                    kind,
                    "re-stamped "@ + dec(p.targets.len()) + " "@ + p.mount + " mirror(s) to "@
                        + p.uuid + " and re-synced"@,
                ),
            ),
            Err(e) => Err(e),
        },
        Fix::EfiBootEntries => match opt_text(live.nvram) {
            Some(out) => {
                let delete = deleted(lines_entries(lines(out)), live.ids@, layout.members.len());
                let register = registered(layout.members, live.ids@);
                Ok(
                    RepairModel::Commands(
                        reconcile_words(delete, register),
                        "pruned "@ + dec(delete.len()) + " stale entry(ies), registered "@ + dec(
                            register.len(),
                        ) + " member shim entry(ies)"@,
                    ),
                )
            },
            None => Err("could not read efibootmgr -v"@),
        },
        Fix::Debconf => Ok(
            RepairModel::Debconf(
                debconf_text(debconf_keys()),
                "re-set the grub-efi debconf keys"@,
            ),
        ),
        Fix::Fstab => Ok(
            RepairModel::Steps(
                seq![sh_step("ensure fstab entries"@, fstab_script(layout))],
                "appended the missing fstab entry(ies)"@,
            ),
        ),
        Fix::Crypttab => match stack.crypttab_regen_plan(layout) {
            Some(s) => Ok(RepairModel::Steps(seq![s], "regenerated /etc/crypttab"@)),
            None => Ok(
                RepairModel::Steps(
                    Seq::empty(),
                    "crypttab is array-based; nothing to regenerate"@,
                ),
            ),
        },
        Fix::GrubInstall => Ok(RepairModel::Steps(grub_installs(false), "re-ran grub-install"@)),
        Fix::Initrd => Ok(
            RepairModel::Steps(seq![update_initramfs_u_plan(false)], "rebuilt the initramfs"@),
        ),
        Fix::RecoverBundle => Ok(
            RepairModel::Bundle(
                raiden_recovery_hook_step_plan(""@),
                update_initramfs_u_plan(false),
                "installed "@ + RAIDEN_RECOVERY_HOOK@ + " and rebuilt the initramfs"@,
            ),
        ),
        Fix::LuksBackup => Ok(
            RepairModel::Steps(
                seq![
                    sh_step(
                        "clear the luks header backups"@,
                        "rm -f /boot/luks/*-headers.bin"@,
                    ),
                ] + backup_luks_headers_plan(layout, "/boot"@),
                "re-backed-up the luks headers to /boot"@,
            ),
        ),
    }
}

fn restamp_repair(kind: UuidKind, layout: &Layout, view: &MirrorView) -> (r: Result<Repair, String>)
    ensures
        match restamp_of(kind, layout@, *view) {
            Ok(p) => r is Ok && r->Ok_0@ == RepairModel::Restamp(
                p.targets.map_values(|d: Seq<char>| restamp_words(kind, d, p.uuid)),
                kind,
                "re-stamped "@ + dec(p.targets.len()) + " "@ + p.mount + " mirror(s) to "@ + p.uuid
                    + " and re-synced"@,
            ),
            Err(e) => r is Err && r->Err_0@ == e,
        },
{
    let p = match restamp_targets(kind, layout, view) {
        Ok(p) => p,
        Err(e) => {
            return Err(e);
        },
    };
    let ghost m = p@.targets;
    let ghost want = m.map_values(|d: Seq<char>| restamp_words(kind, d, p@.uuid));
    let mut commands: Vec<Vec<String>> = Vec::new();
    let mut i: usize = 0;
    while i < p.targets.len()
        invariant
            i <= p.targets.len(),
            m == p@.targets,
            want == m.map_values(|d: Seq<char>| restamp_words(kind, d, p@.uuid)),
            argvs(commands@) =~= want.take(i as int),
        decreases p.targets.len() - i,
    {
        let ghost before = commands@;
        let a = restamp_argv(kind, p.targets[i].as_str(), p.uuid.as_str());
        assert(want[i as int] == texts(a@));
        commands.push(a);
        assert(argvs(commands@) =~= argvs(before).push(texts(a@)));
        i += 1;
    }
    assert(want.take(want.len() as int) =~= want);
    assert(m.len() == p.targets@.len());
    let done = "re-stamped ".to_owned().concat(decimal(p.targets.len() as u64).as_str()).concat(
        " ",
    ).concat(p.mount.as_str()).concat(" mirror(s) to ").concat(p.uuid.as_str()).concat(
        " and re-synced",
    );
    Ok(Repair::Restamp(commands, kind, done))
}

/// What is to be done to repair a check. It builds the same steps as install and
/// replace, for the running system.
pub fn repair<S: Stack>(fix: &Fix, layout: &Layout, stack: &S, live: &Live) -> (r: Result<
    Repair,
    String,
>)
    ensures
        match repair_of(*fix, layout@, *stack, *live) {
            Ok(m) => r is Ok && r->Ok_0@ == m,
            Err(e) => r is Err && r->Err_0@ == e,
        },
{
    match fix {
        Fix::BootHook(dir) => {
            let path = hook_path(dir);
            let steps = install_hook(
                "install the boot-mirror kernel hook",
                "/etc/kernel/".to_owned().concat(dir).as_str(),
                path.as_str(),
                BOOT_MIRROR_HOOK_CONTENT,
            );
            Ok(Repair::Steps(steps, "installed ".to_owned().concat(path.as_str())))
        },
        Fix::EfiHook => {
            let path = efi_hook_path();
            let steps = install_hook(
                "install the esp-mirror grub.d hook",
                "/etc/grub.d",
                path.as_str(),
                EFI_MIRROR_WRAPPER,
            );
            Ok(Repair::Steps(steps, "installed ".to_owned().concat(path.as_str())))
        },
        Fix::SyncBoot => Ok(Repair::Sync(UuidKind::Boot, "re-synced /boot mirrors".to_owned())),
        Fix::SyncEfi => Ok(Repair::Sync(UuidKind::Esp, "re-synced esp mirrors".to_owned())),
        Fix::RestampUuid(UuidKind::Boot) => restamp_repair(UuidKind::Boot, layout, &live.boot),
        Fix::RestampUuid(UuidKind::Esp) => restamp_repair(UuidKind::Esp, layout, &live.esp),
        Fix::EfiBootEntries => match efibootmgr_plan(layout, &live.nvram, &live.ids) {
            Some(p) => {
                assert(texts(p.delete@).len() == p.delete@.len());
                assert(texts(p.register@).len() == p.register@.len());
                let done = "pruned ".to_owned().concat(
                    decimal(p.delete.len() as u64).as_str(),
                ).concat(" stale entry(ies), registered ").concat(
                    decimal(p.register.len() as u64).as_str(),
                ).concat(" member shim entry(ies)");
                Ok(Repair::Commands(efibootmgr_commands(&p), done))
            },
            None => Err("could not read efibootmgr -v".to_owned()),
        },
        Fix::Debconf => Ok(
            Repair::Debconf(
                grub_debconf_selections(),
                "re-set the grub-efi debconf keys".to_owned(),
            ),
        ),
        Fix::Fstab => {
            let step = Step::sh("ensure fstab entries", fstab_fix(layout).as_str());
            Ok(Repair::Steps(one_step(step), "appended the missing fstab entry(ies)".to_owned()))
        },
        Fix::Crypttab => match stack.crypttab_regen(layout) {
            Some(step) => Ok(
                Repair::Steps(one_step(step), "regenerated /etc/crypttab".to_owned()),
            ),
            None => {
                let none: Vec<Step> = Vec::new();
                assert(models(none@) =~= Seq::<StepModel>::empty());
                Ok(
                    Repair::Steps(
                        none,
                        "crypttab is array-based; nothing to regenerate".to_owned(),
                    ),
                )
            },
        },
        Fix::GrubInstall => Ok(
            Repair::Steps(grub_install_steps(false), "re-ran grub-install".to_owned()),
        ),
        Fix::Initrd => Ok(
            Repair::Steps(
                one_step(update_initramfs_u(false)),
                "rebuilt the initramfs".to_owned(),
            ),
        ),
        Fix::RecoverBundle => Ok(
            Repair::Bundle(
                raiden_recovery_hook_step(""),
                update_initramfs_u(false),
                "installed ".to_owned().concat(RAIDEN_RECOVERY_HOOK).concat(
                    " and rebuilt the initramfs",
                ),
            ),
        ),
        Fix::LuksBackup => {
            let mut s = one_step(
                Step::sh("clear the luks header backups", "rm -f /boot/luks/*-headers.bin"),
            );
            add_steps(&mut s, backup_luks_headers(layout, "/boot"));
            Ok(Repair::Steps(s, "re-backed-up the luks headers to /boot".to_owned()))
        },
    }
}

/// Where a hook was installed by its repair, its check passes: the script is executable
/// and current.
pub proof fn an_installed_hook_passes(
    name: Seq<char>,
    note: Seq<char>,
    dir: Seq<char>,
    path: Seq<char>,
    content: Seq<char>,
    fix: Fix,
    mode: u32,
    found: String,
)
    requires
        hook_steps(note, dir, path, content).last() == write_mode_step(note, path, found@, 0o755),
        mode & 0o777 == 0o755,
    ensures
        hook_check(name, path, content, fix, HookState::Installed(mode, Some(found))).passed(),
{
    assert(mode & 0o111 != 0) by (bit_vector)
        requires
            mode & 0o777 == 0o755,
    ;
}

/// A repair runs the steps of the install, on the running system in place of the
/// target: grub-install and the rebuild of the initramfs outside the chroot, the hooks
/// at their paths below / in place of /mnt.
pub proof fn a_repair_repeats_the_install()
    ensures
        grub_installs(true) == grub_installs(false).map_values(|s: StepModel| s.chroot()),
        update_initramfs_u_plan(true) == update_initramfs_u_plan(false).chroot(),
        raiden_recovery_hook_step_plan("/mnt"@).action == (ActionModel::Write {
            path: "/mnt"@ + RAIDEN_RECOVERY_HOOK@,
            content: raiden_recovery_hook_step_plan(""@).action->Write_content,
            mode: Some(0o755),
        }),
        raiden_recovery_hook_step_plan(""@).action->Write_path == RAIDEN_RECOVERY_HOOK@,
        EFI_MIRROR_HOOK_PATH@ == "/mnt"@ + efi_hook_text(),
        boot_mirror_install_steps_plan()[1] == write_mode_step(
            "hook the boot mirror sync into kernel postinst.d"@,
            "/mnt"@ + hook_text("postinst.d"@),
            BOOT_MIRROR_HOOK_CONTENT@,
            0o755,
        ),
        boot_mirror_install_steps_plan()[2] == write_mode_step(
            "hook the boot mirror sync into kernel postrm.d"@,
            "/mnt"@ + hook_text("postrm.d"@),
            BOOT_MIRROR_HOOK_CONTENT@,
            0o755,
        ),
{
    reveal_strlit("");
    reveal_strlit("/");
    reveal_strlit("/mnt");
    reveal_strlit("/etc/grub.d/");
    reveal_strlit("90_copy_to_efi_mirrors");
    reveal_strlit("/mnt/etc/grub.d/90_copy_to_efi_mirrors");
    reveal_strlit("/etc/kernel/");
    reveal_strlit("postinst.d");
    reveal_strlit("postrm.d");
    reveal_strlit("/mnt/etc/kernel/postinst.d/");
    reveal_strlit("/mnt/etc/kernel/postrm.d/");
    let name = BOOT_MIRROR_HOOK_NAME@;
    assert(grub_installs(true) =~= grub_installs(false).map_values(|s: StepModel| s.chroot()));
    assert(""@ + RAIDEN_RECOVERY_HOOK@ =~= RAIDEN_RECOVERY_HOOK@);
    assert(EFI_MIRROR_HOOK_PATH@ =~= "/mnt"@ + efi_hook_text());
    assert("/mnt/etc/kernel/postinst.d/"@ + name =~= "/mnt"@ + hook_text("postinst.d"@));
    assert("/mnt/etc/kernel/postrm.d/"@ + name =~= "/mnt"@ + hook_text("postrm.d"@));
}

} // verus!
