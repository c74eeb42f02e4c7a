//! A health check that walks the installed system and reports the state of each layer
//! that the manifest says should be present. What the system looks like is observed
//! first; the checks judge the observations and change nothing.
use vstd::prelude::*;
use vstd::string::*;

use crate::config::{family_of, Config, ConfigModel, Family};
use crate::doctor::check::{
    add_checks, checks, failure, no_checks, pass, Check, CheckModel, Fix, Status, UuidKind,
};
use crate::doctor::layers::{
    array_checks, backup_check, bootloader_check, check_array_status, check_boot_bootloader,
    check_boot_drift, check_crypttab, check_efi_hook, check_esp_bootloader, check_esp_drift,
    check_grub, check_initrd, check_kernel_hooks, check_luks_backup, check_luks_headers,
    check_manifest, crypttab_checks, drift_check, efi_hook_text, grub_checks, hook_check,
    initrd_checks, kernel_hook_checks, luks_checks, ArrayView, Drift, Dump, HookState, Verified,
};
use crate::doctor::nvram::{check_debconf, check_efibootmgr, debconf_check, nvram_check};
use crate::doctor::probes::{
    boot_mirror_checks, boot_mount_check, check_boot_mirrors, check_boot_mount, check_disk_presence,
    check_esp_mirrors, check_esp_mount, check_fstab, check_mount_consistency, check_uuid_sharing,
    consistency_checks, disk_nodes, esp_mount_check, fstab_checks, presences, uuid_checks,
    uuid_result, Report,
};
use crate::doctor::repair::Live;
use crate::layout::{Layout, LayoutModel, ESP_MOUNT};
use crate::stack::{Stack, EFI_MIRROR_WRAPPER};
use crate::sync::{
    boot_mirror_set, efi_mirror_set, mirrors_of, opt_device, paired, DeviceModel, Listing,
};
use crate::text::{opt_text, texts};

pub mod check;
pub mod health;
pub mod layers;
pub mod nvram;
pub mod probes;
pub mod remedy;
pub mod repair;

verus! {

/// What was observed of the system. The lists go by the members of the layout, or, for
/// the drift, by the mirrors.
pub struct Observed {
    /// The mirror sets and the boot entries.
    pub live: Live,
    /// Whether each member disk is there.
    pub disks: Vec<bool>,
    /// The text of /etc/fstab, where it can be read.
    pub fstab: Option<String>,
    /// The text of /etc/crypttab, empty where it cannot be read.
    pub crypttab: String,
    /// The uuid of each root partition.
    pub root_uuids: Vec<Option<String>>,
    /// What dumping each luks header gave.
    pub dumps: Vec<Dump>,
    /// Whether each luks header is backed up.
    pub backups: Vec<bool>,
    pub array: ArrayView,
    /// How each mirror compares with the live source.
    pub boot_drift: Vec<Drift>,
    pub esp_drift: Vec<Drift>,
    /// What verifying each member's own bootloader gave.
    pub boot_loaders: Vec<Verified>,
    pub esp_loaders: Vec<Verified>,
    /// Whether the shim is on the mounted esp.
    pub shim: bool,
    /// What the package database says of grub-pc.
    pub grub_pc: Report,
    /// The names on /boot, in the order in which they are read.
    pub boot_entries: Vec<String>,
    /// The listing of the first initrd among them.
    pub listing: Listing,
    pub recover_hook: HookState,
    pub postinst_hook: HookState,
    pub postrm_hook: HookState,
    pub efi_hook: HookState,
    /// What debconf shows of grub-efi.
    pub debconf: Report,
    /// Why the manifest cannot be loaded, where it cannot.
    pub manifest_error: Option<String>,
}

/// The family of the array, that of md where the stack is unknown.
pub open spec fn array_family(cfg: ConfigModel) -> Family {
    match family_of(cfg.raid.stack) {
        Some(f) => f,
        None => Family::Md,
    }
}

/// The drift of a set of mirrors, where its source is mounted.
pub open spec fn drift_result(
    name: Seq<char>,
    src: Option<DeviceModel>,
    devs: Seq<DeviceModel>,
    found: Seq<Drift>,
    fix: Fix,
    skipped: Seq<char>,
) -> CheckModel {
    if src is Some {
        drift_check(name, mirrors_of(devs, src), found, fix)
    } else {
        pass(name, skipped)
    }
}

/// The checks of the disks, the mounts and the uuids.
pub open spec fn mount_diagnosis(cfg: ConfigModel, layout: LayoutModel, o: Observed) -> Seq<
    CheckModel,
> {
    let efi = cfg.efi();
    let none = Seq::<CheckModel>::empty();
    none + presences("disk presence"@, disk_nodes(layout), o.disks@) + seq![
        boot_mount_check(layout, opt_device(o.live.boot.src), o.live.boot.leads@),
    ] + consistency_checks(
        layout,
        opt_device(o.live.boot.src),
        if efi {
            opt_device(o.live.esp.src)
        } else {
            None
        },
        o.live.boot.leads@,
        o.live.esp.leads@,
    ) + (if efi {
        seq![esp_mount_check(opt_device(o.live.esp.src))]
    } else {
        none
    }) + fstab_checks(opt_text(o.fstab), efi) + uuid_checks(
        layout,
        efi,
        opt_text(o.fstab),
        o.live.boot.uuids@,
        o.live.esp.uuids@,
    )
}

/// The checks of the crypt layer, the array and the mirrors.
pub open spec fn layer_diagnosis(cfg: ConfigModel, layout: LayoutModel, o: Observed) -> Seq<
    CheckModel,
> {
    let none = Seq::<CheckModel>::empty();
    none + crypttab_checks(layout, o.crypttab@, o.root_uuids@) + luks_checks(layout, o.dumps@)
        + seq![backup_check(layout, o.backups@)] + array_checks(
        layout,
        array_family(cfg),
        o.array,
    ) + boot_mirror_checks(layout, o.live.boot.present@) + (if layout.boot_raid() {
        none
    } else {
        seq![
            drift_result(
                "boot drift"@,
                opt_device(o.live.boot.src),
                paired(layout.boot_devices(), o.live.boot.leads@),
                o.boot_drift@,
                Fix::SyncBoot,
                "/boot not mounted, skipped"@,
            ),
        ].push(
            bootloader_check(
                "boot bootloader"@,
                layout.boot_devices(),
                o.boot_loaders@,
                Fix::SyncBoot,
            ),
        )
    }) + (if cfg.efi() {
        presences("esp mirrors"@, layout.esp_devices(), o.live.esp.present@) + seq![
            drift_result(
                "esp drift"@,
                opt_device(o.live.esp.src),
                paired(layout.esp_devices(), o.live.esp.leads@),
                o.esp_drift@,
                Fix::SyncEfi,
                ESP_MOUNT@ + " not mounted, skipped"@,
            ),
        ].push(
            bootloader_check(
                "esp bootloader"@,
                layout.esp_devices(),
                o.esp_loaders@,
                Fix::SyncEfi,
            ),
        )
    } else {
        none
    })
}

/// The checks of the bootloader, the initrd, the hooks and the manifest.
pub open spec fn boot_diagnosis<S: Stack>(
    cfg: ConfigModel,
    layout: LayoutModel,
    stack: S,
    o: Observed,
) -> Seq<CheckModel> {
    let none = Seq::<CheckModel>::empty();
    none + grub_checks(
        layout,
        cfg.efi(),
        opt_device(o.live.esp.src),
        o.live.esp.leads@,
        o.shim,
        o.grub_pc,
    ) + initrd_checks(
        stack.initramfs_list(),
        texts(o.boot_entries@),
        o.listing,
        cfg.install.initramfs_recovery,
        o.recover_hook,
    ) + kernel_hook_checks(o.postinst_hook, o.postrm_hook) + (if cfg.efi() {
        seq![
            hook_check("esp hook"@, efi_hook_text(), EFI_MIRROR_WRAPPER@, Fix::EfiHook, o.efi_hook),
        ].push(nvram_check(layout, opt_text(o.live.nvram), o.live.ids@)).push(
            debconf_check(o.debconf),
        )
    } else {
        none
    }) + seq![
        (match opt_text(o.manifest_error) {
            Some(e) => failure("manifest"@, "cannot load: "@ + e),
            None => pass("manifest"@, "loads and parses"@),
        }),
    ]
}

/// All checks, in the order in which they are reported.
pub open spec fn diagnosis<S: Stack>(
    cfg: ConfigModel,
    layout: LayoutModel,
    stack: S,
    o: Observed,
) -> Seq<CheckModel> {
    mount_diagnosis(cfg, layout, o) + layer_diagnosis(cfg, layout, o) + boot_diagnosis(
        cfg,
        layout,
        stack,
        o,
    )
}

fn diagnose_mounts(cfg: &Config, layout: &Layout, o: &Observed) -> (r: Vec<Check>)
    ensures
        checks(r@) == mount_diagnosis(cfg@, layout@, *o),
{
    let efi = cfg.boots_efi();
    let mut v = no_checks();
    add_checks(&mut v, check_disk_presence(layout, &o.disks));
    add_checks(&mut v, check_boot_mount(layout, &o.live.boot.src, &o.live.boot.leads));
    let unmounted = None;
    let esp = if efi {
        &o.live.esp.src
    } else {
        &unmounted
    };
    add_checks(
        &mut v,
        check_mount_consistency(
            layout,
            &o.live.boot.src,
            esp,
            &o.live.boot.leads,
            &o.live.esp.leads,
        ),
    );
    add_checks(
        &mut v,
        if efi {
            check_esp_mount(&o.live.esp.src)
        } else {
            no_checks()
        },
    );
    add_checks(&mut v, check_fstab(&o.fstab, efi));
    add_checks(
        &mut v,
        check_uuid_sharing(layout, efi, &o.fstab, &o.live.boot.uuids, &o.live.esp.uuids),
    );
    v
}

fn diagnose_layers(cfg: &Config, layout: &Layout, o: &Observed) -> (r: Vec<Check>)
    ensures
        checks(r@) == layer_diagnosis(cfg@, layout@, *o),
{
    let family = match cfg.family() {
        Ok(f) => f,
        Err(_) => Family::Md,
    };
    let mut v = no_checks();
    add_checks(&mut v, check_crypttab(layout, o.crypttab.as_str(), &o.root_uuids));
    add_checks(&mut v, check_luks_headers(layout, &o.dumps));
    add_checks(&mut v, check_luks_backup(layout, &o.backups));
    add_checks(&mut v, check_array_status(layout, family, &o.array));
    add_checks(&mut v, check_boot_mirrors(layout, &o.live.boot.present));
    let boot = &o.live.boot;
    let mut part = no_checks();
    if !layout.boot_raid() {
        let mirrors = boot_mirror_set(layout, &boot.src, &boot.leads);
        part = check_boot_drift(boot.src.is_some(), &mirrors, &o.boot_drift);
        add_checks(&mut part, check_boot_bootloader(layout, &o.boot_loaders));
    }
    add_checks(&mut v, part);
    let esp = &o.live.esp;
    let mut part = no_checks();
    if cfg.boots_efi() {
        let mirrors = efi_mirror_set(layout, &esp.src, &esp.leads);
        part = check_esp_mirrors(layout, &esp.present);
        let mut rest = check_esp_drift(esp.src.is_some(), &mirrors, &o.esp_drift);
        add_checks(&mut rest, check_esp_bootloader(layout, &o.esp_loaders));
        add_checks(&mut part, rest);
    }
    add_checks(&mut v, part);
    v
}

fn diagnose_boot<S: Stack>(cfg: &Config, layout: &Layout, stack: &S, o: &Observed) -> (r: Vec<
    Check,
>)
    ensures
        checks(r@) == boot_diagnosis(cfg@, layout@, *stack, *o),
{
    let efi = cfg.boots_efi();
    let mut v = no_checks();
    add_checks(
        &mut v,
        check_grub(layout, efi, &o.live.esp.src, &o.live.esp.leads, o.shim, &o.grub_pc),
    );
    add_checks(
        &mut v,
        check_initrd(
            &stack.initramfs_binaries(),
            &o.boot_entries,
            &o.listing,
            cfg.install.initramfs_recovery,
            &o.recover_hook,
        ),
    );
    add_checks(&mut v, check_kernel_hooks(&o.postinst_hook, &o.postrm_hook));
    let mut part = no_checks();
    if efi {
        part = check_efi_hook(&o.efi_hook);
        add_checks(&mut part, check_efibootmgr(layout, &o.live.nvram, &o.live.ids));
        add_checks(&mut part, check_debconf(&o.debconf));
    }
    add_checks(&mut v, part);
    add_checks(&mut v, check_manifest(&o.manifest_error));
    v
}

/// Judges all that was observed. Every check stands on its own: a dead disk fails its
/// own check and the rest are still made.
pub fn diagnose<S: Stack>(cfg: &Config, layout: &Layout, stack: &S, o: &Observed) -> (r: Vec<Check>)
    ensures
        checks(r@) == diagnosis(cfg@, layout@, *stack, *o),
{
    let mut v = diagnose_mounts(cfg, layout, o);
    add_checks(&mut v, diagnose_layers(cfg, layout, o));
    add_checks(&mut v, diagnose_boot(cfg, layout, stack, o));
    v
}

// ---------------------------------------------------------------------- laws

/// Whether a check offers a repair only where there is something to repair.
pub open spec fn sound(c: CheckModel) -> bool {
    c.fix is Some ==> !c.passed()
}

/// Whether all checks are sound.
pub open spec fn all_sound(v: Seq<CheckModel>) -> bool {
    forall|i: int| 0 <= i < v.len() ==> sound(#[trigger] v[i])
}

broadcast proof fn sound_push(v: Seq<CheckModel>, c: CheckModel)
    ensures
        all_sound(v) && sound(c) ==> #[trigger] all_sound(v.push(c)),
{
}

broadcast proof fn sound_both(a: Seq<CheckModel>, b: Seq<CheckModel>)
    ensures
        all_sound(a) && all_sound(b) ==> #[trigger] all_sound(a + b),
{
}

proof fn mounts_sound(cfg: ConfigModel, layout: LayoutModel, o: Observed)
    ensures
        all_sound(mount_diagnosis(cfg, layout, o)),
{
    broadcast use {sound_push, sound_both};

    let fstab = opt_text(o.fstab);
    assert(all_sound(presences("disk presence"@, disk_nodes(layout), o.disks@)));
    assert(sound(boot_mount_check(layout, opt_device(o.live.boot.src), o.live.boot.leads@)));
    assert(all_sound(fstab_checks(fstab, cfg.efi())));
    assert(all_sound(
        uuid_checks(layout, cfg.efi(), fstab, o.live.boot.uuids@, o.live.esp.uuids@),
    ));
}

proof fn layers_sound(cfg: ConfigModel, layout: LayoutModel, o: Observed)
    ensures
        all_sound(layer_diagnosis(cfg, layout, o)),
{
    broadcast use {sound_push, sound_both};

    assert(all_sound(crypttab_checks(layout, o.crypttab@, o.root_uuids@)));
    assert(all_sound(luks_checks(layout, o.dumps@)));
    assert(sound(backup_check(layout, o.backups@)));
    assert(all_sound(array_checks(layout, array_family(cfg), o.array)));
    assert(all_sound(boot_mirror_checks(layout, o.live.boot.present@)));
    assert(all_sound(presences("esp mirrors"@, layout.esp_devices(), o.live.esp.present@)));
}

proof fn boot_sound<S: Stack>(cfg: ConfigModel, layout: LayoutModel, stack: S, o: Observed)
    ensures
        all_sound(boot_diagnosis(cfg, layout, stack, o)),
{
    broadcast use {sound_push, sound_both};

    assert(all_sound(
        grub_checks(
            layout,
            cfg.efi(),
            opt_device(o.live.esp.src),
            o.live.esp.leads@,
            o.shim,
            o.grub_pc,
        ),
    ));
    assert(all_sound(
        initrd_checks(
            stack.initramfs_list(),
            texts(o.boot_entries@),
            o.listing,
            cfg.install.initramfs_recovery,
            o.recover_hook,
        ),
    ));
    assert(all_sound(kernel_hook_checks(o.postinst_hook, o.postrm_hook)));
    assert(sound(nvram_check(layout, opt_text(o.live.nvram), o.live.ids@)));
    assert(sound(debconf_check(o.debconf)));
}

/// A repair is offered only where a check did not pass.
pub proof fn repairs_are_for_what_did_not_pass<S: Stack>(
    cfg: ConfigModel,
    layout: LayoutModel,
    stack: S,
    o: Observed,
)
    ensures
        all_sound(diagnosis(cfg, layout, stack, o)),
{
    mounts_sound(cfg, layout, o);
    layers_sound(cfg, layout, o);
    boot_sound(cfg, layout, stack, o);
    let a = mount_diagnosis(cfg, layout, o);
    let b = layer_diagnosis(cfg, layout, o);
    sound_both(a, b);
    sound_both(a + b, boot_diagnosis(cfg, layout, stack, o));
}

/// Drift and diverging uuids are never failures: the system still boots from the primary.
pub proof fn drift_and_divergence_never_fail(
    name: Seq<char>,
    kind: UuidKind,
    mirrors: Seq<Seq<char>>,
    found: Seq<Drift>,
    present: Seq<(Seq<char>, Seq<char>)>,
    expected: Option<Seq<char>>,
    fix: Fix,
)
    ensures
        drift_check(name, mirrors, found, fix).status != Status::Fail,
        uuid_result(name, kind, present, expected).status != Status::Fail,
{
}

} // verus!
