//! Which repair a check offers.
use vstd::prelude::*;
use vstd::string::*;

use crate::config::ConfigModel;
use crate::doctor::check::{failure, CheckModel, Fix, Status, UuidKind};
use crate::doctor::health::{all_checks, group_all_checks};
use crate::doctor::layers::{
    array_checks, backup_check, bootloader_check, crypttab_checks, efi_hook_text, grub_checks,
    hook_check, initrd_checks, kernel_hook_checks, luks_checks,
};
use crate::doctor::nvram::{debconf_check, nvram_check};
use crate::doctor::probes::{
    boot_mirror_checks, boot_mount_check, consistency_checks, disk_nodes, esp_mount_check,
    fstab_checks, presences, uuid_checks,
};
use crate::doctor::{
    array_family, boot_diagnosis, diagnosis, drift_result, layer_diagnosis, mount_diagnosis,
    Observed,
};
use crate::doctor::repair::{
    a_stamp_touches_what_differs, repair_of, restamp_of, restamp_words, stamp_list, to_stamp,
    view_of, without_dashes, Live, MirrorView, RepairModel,
};
use crate::efi::{debconf_keys, debconf_text};
use crate::laws::effects::{command, group_some_steps, some_step};
use crate::laws::target::puts_runnable;
use crate::layout::{ESP_MOUNT, LayoutModel};
use crate::stack::{
    backup_luks_header, backup_luks_headers_plan, update_initramfs_u_plan, EFI_MIRROR_WRAPPER,
    INITRAMFS_HOOK_RAIDEN, Stack,
};
use crate::step::{sh_step, StepModel};
use crate::sync::{one_device, opt_device, paired, DeviceModel};
use crate::text::{opt_text, text_at, texts};

verus! {

proof fn check_names()
    ensures
        "grub"@.len() == 4,
        "fstab"@.len() == 5,
        "initrd"@.len() == 6,
        "md boot"@.len() == 7 && "md boot"@[3] == 'b',
        "md root"@.len() == 7 && "md root"@[3] == 'r',
        "recover"@.len() == 7 && "recover"@[3] == 'o',
        "debconf"@.len() == 7 && "debconf"@[3] == 'c',
        "esp uuid"@.len() == 8 && "esp uuid"@[4] == 'u',
        "crypttab"@.len() == 8 && "crypttab"@[4] == 't',
        "esp hook"@.len() == 8 && "esp hook"@[4] == 'h',
        "manifest"@.len() == 8 && "manifest"@[4] == 'f',
        "esp mount"@.len() == 9 && "esp mount"@[4] == 'm',
        "boot uuid"@.len() == 9 && "boot uuid"@[4] == ' ',
        "fs status"@.len() == 9 && "fs status"@[4] == 't',
        "esp drift"@.len() == 9 && "esp drift"@[4] == 'd',
        "boot mount"@.len() == 10 && "boot mount"@[5] == 'm',
        "zfs status"@.len() == 10 && "zfs status"@[5] == 't',
        "boot drift"@.len() == 10 && "boot drift"@[5] == 'd',
        "efibootmgr"@.len() == 10 && "efibootmgr"@[5] == 'o',
        "luks backup"@.len() == 11 && "luks backup"@[0] == 'l',
        "esp mirrors"@.len() == 11 && "esp mirrors"@[0] == 'e',
        "luks headers"@.len() == 12 && "luks headers"@[3] == 's',
        "btrfs status"@.len() == 12 && "btrfs status"@[3] == 'f',
        "boot mirrors"@.len() == 12 && "boot mirrors"@[3] == 't',
        "kernel hooks"@.len() == 12 && "kernel hooks"@[3] == 'n',
        "recover hook"@.len() == 12 && "recover hook"@[3] == 'o',
        "disk presence"@.len() == 13,
        "esp bootloader"@.len() == 14,
        "boot bootloader"@.len() == 15,
        "mount consistency"@.len() == 17,
{
    reveal_strlit("grub");
    reveal_strlit("fstab");
    reveal_strlit("initrd");
    reveal_strlit("md boot");
    reveal_strlit("md root");
    reveal_strlit("recover");
    reveal_strlit("debconf");
    reveal_strlit("esp uuid");
    reveal_strlit("crypttab");
    reveal_strlit("esp hook");
    reveal_strlit("manifest");
    reveal_strlit("esp mount");
    reveal_strlit("boot uuid");
    reveal_strlit("fs status");
    reveal_strlit("esp drift");
    reveal_strlit("boot mount");
    reveal_strlit("zfs status");
    reveal_strlit("boot drift");
    reveal_strlit("efibootmgr");
    reveal_strlit("luks backup");
    reveal_strlit("esp mirrors");
    reveal_strlit("luks headers");
    reveal_strlit("btrfs status");
    reveal_strlit("boot mirrors");
    reveal_strlit("kernel hooks");
    reveal_strlit("recover hook");
    reveal_strlit("disk presence");
    reveal_strlit("esp bootloader");
    reveal_strlit("boot bootloader");
    reveal_strlit("mount consistency");
}

/// Whether a check that did not pass offers the repair of what it found, where there is
/// one.
pub open spec fn remedied(c: CheckModel) -> bool {
    &&& c.name == "fstab"@ ==> c.fix == Some(Fix::Fstab)
    &&& c.name == "boot uuid"@ ==> c.fix == Some(Fix::RestampUuid(UuidKind::Boot))
    &&& c.name == "esp uuid"@ ==> c.fix == Some(Fix::RestampUuid(UuidKind::Esp))
    &&& c.name == "crypttab"@ ==> c.fix == Some(Fix::Crypttab)
    &&& c.name == "luks backup"@ ==> c.fix == Some(Fix::LuksBackup)
    &&& c.name == "boot drift"@ ==> c.fix == Some(Fix::SyncBoot)
    &&& c.name == "boot bootloader"@ ==> c.fix == Some(Fix::SyncBoot)
    &&& c.name == "esp drift"@ ==> c.fix == Some(Fix::SyncEfi)
    &&& c.name == "esp bootloader"@ ==> c.fix == Some(Fix::SyncEfi)
    &&& c.name == "esp hook"@ ==> c.fix == Some(Fix::EfiHook)
    &&& c.name == "recover hook"@ ==> c.fix == Some(Fix::RecoverBundle)
    &&& c.name == "recover"@ ==> c.fix == Some(Fix::RecoverBundle)
    &&& c.name == "kernel hooks"@ ==> c.fix == Some(Fix::BootHook("postinst.d")) || c.fix == Some(
        Fix::BootHook("postrm.d"),
    )
    &&& c.name == "grub"@ ==> c.fix is None || c.fix == Some(Fix::GrubInstall)
    &&& c.name == "initrd"@ ==> c.fix is None || c.fix == Some(Fix::Initrd)
    &&& c.name == "efibootmgr"@ ==> c.fix is None || c.fix == Some(Fix::EfiBootEntries)
    &&& c.name == "debconf"@ ==> c.fix is None || c.fix == Some(Fix::Debconf)
    &&& c.name == "disk presence"@ ==> c.fix is None
    &&& c.name == "boot mount"@ ==> c.fix is None
    &&& c.name == "esp mount"@ ==> c.fix is None
    &&& c.name == "luks headers"@ ==> c.fix is None
    &&& c.name == "md boot"@ ==> c.fix is None
    &&& c.name == "md root"@ ==> c.fix is None
    &&& c.name == "zfs status"@ ==> c.fix is None
    &&& c.name == "btrfs status"@ ==> c.fix is None
    &&& c.name == "fs status"@ ==> c.fix is None
    &&& c.name == "boot mirrors"@ ==> c.fix is None
    &&& c.name == "esp mirrors"@ ==> c.fix is None
    &&& c.name == "manifest"@ ==> c.fix is None
}

/// Whether a check offers the repair of what it found, and none where it passed.
pub open spec fn offers() -> spec_fn(CheckModel) -> bool {
    |c: CheckModel|
        if c.status == Status::Pass {
            c.fix is None
        } else {
            remedied(c)
        }
}

proof fn presences_offer(layout: LayoutModel, o: Observed)
    ensures
        all_checks(presences("disk presence"@, disk_nodes(layout), o.disks@), offers()),
        all_checks(
            presences("esp mirrors"@, layout.esp_devices(), o.live.esp.present@),
            offers(),
        ),
        all_checks(boot_mirror_checks(layout, o.live.boot.present@), offers()),
{
    broadcast use group_all_checks;

    check_names();
}

proof fn live_mounts_offer(layout: LayoutModel, o: Observed, esp: Option<DeviceModel>)
    ensures
        offers()(boot_mount_check(layout, opt_device(o.live.boot.src), o.live.boot.leads@)),
        all_checks(
            consistency_checks(
                layout,
                opt_device(o.live.boot.src),
                esp,
                o.live.boot.leads@,
                o.live.esp.leads@,
            ),
            offers(),
        ),
        offers()(esp_mount_check(opt_device(o.live.esp.src))),
{
    broadcast use group_all_checks;

    check_names();
}

proof fn tables_offer(layout: LayoutModel, o: Observed, efi: bool)
    ensures
        all_checks(fstab_checks(opt_text(o.fstab), efi), offers()),
        all_checks(
            uuid_checks(
                layout,
                efi,
                opt_text(o.fstab),
                o.live.boot.uuids@,
                o.live.esp.uuids@,
            ),
            offers(),
        ),
{
    broadcast use group_all_checks;

    check_names();
}

proof fn mounts_offer(cfg: ConfigModel, layout: LayoutModel, o: Observed)
    ensures
        all_checks(mount_diagnosis(cfg, layout, o), offers()),
{
    broadcast use group_all_checks;

    presences_offer(layout, o);
    live_mounts_offer(layout, o, opt_device(o.live.esp.src));
    live_mounts_offer(layout, o, None);
    tables_offer(layout, o, cfg.efi());
}

proof fn crypts_offer(layout: LayoutModel, o: Observed)
    ensures
        all_checks(crypttab_checks(layout, o.crypttab@, o.root_uuids@), offers()),
        all_checks(luks_checks(layout, o.dumps@), offers()),
        offers()(backup_check(layout, o.backups@)),
{
    broadcast use group_all_checks;

    check_names();
}

proof fn arrays_offer(cfg: ConfigModel, layout: LayoutModel, o: Observed)
    ensures
        all_checks(array_checks(layout, array_family(cfg), o.array), offers()),
{
    broadcast use group_all_checks;

    check_names();
}

proof fn mirrors_offer(layout: LayoutModel, o: Observed)
    ensures
        offers()(
            drift_result(
                "boot drift"@,
                opt_device(o.live.boot.src),
                paired(layout.boot_devices(), o.live.boot.leads@),
                o.boot_drift@,
                Fix::SyncBoot,
                "/boot not mounted, skipped"@,
            ),
        ),
        offers()(
            bootloader_check(
                "boot bootloader"@,
                layout.boot_devices(),
                o.boot_loaders@,
                Fix::SyncBoot,
            ),
        ),
        offers()(
            drift_result(
                "esp drift"@,
                opt_device(o.live.esp.src),
                paired(layout.esp_devices(), o.live.esp.leads@),
                o.esp_drift@,
                Fix::SyncEfi,
                ESP_MOUNT@ + " not mounted, skipped"@,
            ),
        ),
        offers()(
            bootloader_check(
                "esp bootloader"@,
                layout.esp_devices(),
                o.esp_loaders@,
                Fix::SyncEfi,
            ),
        ),
{
    broadcast use group_all_checks;

    check_names();
}

proof fn layers_offer(cfg: ConfigModel, layout: LayoutModel, o: Observed)
    ensures
        all_checks(layer_diagnosis(cfg, layout, o), offers()),
{
    broadcast use group_all_checks;

    crypts_offer(layout, o);
    arrays_offer(cfg, layout, o);
    presences_offer(layout, o);
    mirrors_offer(layout, o);
}

proof fn grubs_offer(cfg: ConfigModel, layout: LayoutModel, o: Observed)
    ensures
        all_checks(
            grub_checks(
                layout,
                cfg.efi(),
                opt_device(o.live.esp.src),
                o.live.esp.leads@,
                o.shim,
                o.grub_pc,
            ),
            offers(),
        ),
{
    broadcast use group_all_checks;

    check_names();
}

proof fn initrds_offer(binaries: Seq<Seq<char>>, recovery: bool, o: Observed)
    ensures
        all_checks(
            initrd_checks(
                binaries,
                texts(o.boot_entries@),
                o.listing,
                recovery,
                o.recover_hook,
            ),
            offers(),
        ),
{
    broadcast use group_all_checks;

    check_names();
}

proof fn hooks_offer(o: Observed)
    ensures
        all_checks(kernel_hook_checks(o.postinst_hook, o.postrm_hook), offers()),
{
    broadcast use group_all_checks;

    check_names();
}

proof fn firmware_offers(layout: LayoutModel, o: Observed)
    ensures
        offers()(
            hook_check("esp hook"@, efi_hook_text(), EFI_MIRROR_WRAPPER@, Fix::EfiHook, o.efi_hook),
        ),
        offers()(nvram_check(layout, opt_text(o.live.nvram), o.live.ids@)),
        offers()(debconf_check(o.debconf)),
{
    check_names();
}

proof fn boots_offer<S: Stack>(cfg: ConfigModel, layout: LayoutModel, stack: S, o: Observed)
    ensures
        all_checks(boot_diagnosis(cfg, layout, stack, o), offers()),
{
    grubs_offer(cfg, layout, o);
    initrds_offer(stack.initramfs_list(), cfg.install.initramfs_recovery, o);
    hooks_offer(o);
    firmware_offers(layout, o);
    manifest_offers(o);
    boots_together(cfg, layout, stack, o);
}

proof fn manifest_offers(o: Observed)
    ensures
        o.manifest_error is Some ==> offers()(
            failure("manifest"@, "cannot load: "@ + o.manifest_error->0@),
        ),
{
    check_names();
}

proof fn boots_together<S: Stack>(cfg: ConfigModel, layout: LayoutModel, stack: S, o: Observed)
    requires
        all_checks(
            grub_checks(
                layout,
                cfg.efi(),
                opt_device(o.live.esp.src),
                o.live.esp.leads@,
                o.shim,
                o.grub_pc,
            ),
            offers(),
        ),
        all_checks(
            initrd_checks(
                stack.initramfs_list(),
                texts(o.boot_entries@),
                o.listing,
                cfg.install.initramfs_recovery,
                o.recover_hook,
            ),
            offers(),
        ),
        all_checks(kernel_hook_checks(o.postinst_hook, o.postrm_hook), offers()),
        offers()(
            hook_check("esp hook"@, efi_hook_text(), EFI_MIRROR_WRAPPER@, Fix::EfiHook, o.efi_hook),
        ),
        offers()(nvram_check(layout, opt_text(o.live.nvram), o.live.ids@)),
        offers()(debconf_check(o.debconf)),
        o.manifest_error is Some ==> offers()(
            failure("manifest"@, "cannot load: "@ + o.manifest_error->0@),
        ),
    ensures
        all_checks(boot_diagnosis(cfg, layout, stack, o), offers()),
{
    broadcast use group_all_checks;

}

/// Every check of a diagnosis that did not pass offers the repair of what it found, and
/// none that passed offers any.
pub proof fn a_diagnosis_offers_the_right_repairs<S: Stack>(
    cfg: ConfigModel,
    layout: LayoutModel,
    stack: S,
    o: Observed,
)
    ensures
        all_checks(diagnosis(cfg, layout, stack, o), offers()),
{
    broadcast use group_all_checks;

    mounts_offer(cfg, layout, o);
    layers_offer(cfg, layout, o);
    boots_offer(cfg, layout, stack, o);
}

// ------------------------------------------------------------------- repairs

/// The mirrors of the live /boot or esp that a restamp touches: those that are there with
/// another uuid. They get the uuid of what is mounted.
pub proof fn a_restamp_gives_the_live_uuid(
    kind: UuidKind,
    layout: LayoutModel,
    view: MirrorView,
    x: Seq<char>,
)
    ensures
        ({
            let n: nat = match kind {
                UuidKind::Boot => 2,
                UuidKind::Esp => 1,
            };
            let r = restamp_of(kind, layout, view);
            &&& r is Ok <==> view.src is Some && view.src_uuid is Some
            &&& r is Ok ==> r->Ok_0.uuid == view.src_uuid->0@ && (r->Ok_0.targets.contains(x)
                <==> exists|k: int|
                #![trigger layout.members[k]]
                0 <= k < layout.members.len() && x == layout.part(layout.members[k], n)
                    && k < view.present@.len() && view.present@[k] && !(k < view.uuids@.len()
                    && opt_text(view.uuids@[k]) == Some(view.src_uuid->0@)) && !one_device(
                    DeviceModel { path: x, resolved: text_at(view.leads@, k) },
                    view.src->0@,
                ))
        }),
{
    if view.src is Some && view.src_uuid is Some {
        let n: nat = match kind {
            UuidKind::Boot => 2,
            UuidKind::Esp => 1,
        };
        let src = view.src->0@;
        let uuid = view.src_uuid->0@;
        let paths = layout.parts(n);
        let devs = paired(paths, view.leads@);
        a_stamp_touches_what_differs(devs, view, src, uuid, devs.len(), x);
        let t = stamp_list(devs, view, src, uuid, devs.len());
        if t.contains(x) {
            let i = choose|i: int|
                0 <= i < devs.len() && #[trigger] devs[i].path == x && to_stamp(
                    devs,
                    view,
                    src,
                    uuid,
                    i,
                );
            assert(paths[i] == layout.part(layout.members[i], n));
            assert(devs[i] == DeviceModel { path: x, resolved: text_at(view.leads@, i) });
        }
        if exists|k: int|
            #![trigger layout.members[k]]
            0 <= k < layout.members.len() && x == layout.part(layout.members[k], n) && k
                < view.present@.len() && view.present@[k] && !(k < view.uuids@.len() && opt_text(
                view.uuids@[k],
            ) == Some(uuid)) && !one_device(
                DeviceModel { path: x, resolved: text_at(view.leads@, k) },
                src,
            ) {
            let k = choose|k: int|
                #![trigger layout.members[k]]
                0 <= k < layout.members.len() && x == layout.part(layout.members[k], n) && k
                    < view.present@.len() && view.present@[k] && !(k < view.uuids@.len()
                    && opt_text(view.uuids@[k]) == Some(uuid)) && !one_device(
                    DeviceModel { path: x, resolved: text_at(view.leads@, k) },
                    src,
                );
            assert(paths[k] == layout.part(layout.members[k], n));
            assert(devs[k].path == x);
            assert(devs[k] == DeviceModel { path: x, resolved: text_at(view.leads@, k) });
        }
    }
}

/// A text loses its dashes and nothing else.
pub proof fn only_dashes_are_dropped(s: Seq<char>)
    ensures
        without_dashes(s) == s.filter(|c: char| c != '-'),
    decreases s.len(),
{
    reveal(Seq::filter);
    if s.len() > 0 {
        only_dashes_are_dropped(s.drop_last());
    }
}

/// Whether a command gives a device this uuid: an ext4 one in place, an esp by making it
/// anew with the digits of the uuid.
pub open spec fn stamps_device(
    kind: UuidKind,
    w: Seq<Seq<char>>,
    dev: Seq<char>,
    uuid: Seq<char>,
) -> bool {
    match kind {
        UuidKind::Boot => w == seq!["tune2fs"@, "-U"@, uuid, dev],
        UuidKind::Esp => w == seq![
            "mkfs.msdos"@,
            "-F"@,
            "32"@,
            "-s"@,
            "1"@,
            "-n"@,
            "EFI"@,
            "-i"@,
            uuid.filter(|c: char| c != '-'),
            dev,
        ],
    }
}

/// What each repair does.
pub proof fn every_repair_mends_what_was_found<S: Stack>(
    layout: LayoutModel,
    stack: S,
    live: Live,
    kind: UuidKind,
    dir: &'static str,
    k: int,
)
    ensures
        repair_of(Fix::SyncBoot, layout, stack, live) matches Ok(RepairModel::Sync(
            UuidKind::Boot,
            _,
        )),
        repair_of(Fix::SyncEfi, layout, stack, live) matches Ok(RepairModel::Sync(
            UuidKind::Esp,
            _,
        )),
        repair_of(Fix::Initrd, layout, stack, live) matches Ok(RepairModel::Steps(v, _))
            && v.len() == 1 && rebuilds_initramfs(v[0]),
        repair_of(Fix::RecoverBundle, layout, stack, live) matches Ok(
            RepairModel::Bundle(hook, rebuild, _),
        ) && rebuilds_initramfs(rebuild) && puts_runnable(
            hook,
            "/etc/initramfs-tools/hooks/raiden"@,
            INITRAMFS_HOOK_RAIDEN@,
        ),
        repair_of(Fix::BootHook(dir), layout, stack, live) matches Ok(RepairModel::Steps(v, _))
            && v.len() == 2 && puts_runnable(
            v[1],
            "/etc/kernel/"@ + dir@ + "/"@ + "zzz-raiden-boot-mirror"@,
            "#!/bin/sh\nexec /usr/local/sbin/raiden sync boot --yes\n"@,
        ),
        repair_of(Fix::EfiHook, layout, stack, live) matches Ok(RepairModel::Steps(v, _))
            && v.len() == 2 && puts_runnable(
            v[1],
            "/etc/grub.d/"@ + "90_copy_to_efi_mirrors"@,
            "#!/bin/sh\nexec 1>&2\n/usr/local/sbin/raiden sync efi --yes || true\n"@,
        ),
        repair_of(Fix::Crypttab, layout, stack, live) matches Ok(RepairModel::Steps(v, _)) && v
            == (match stack.crypttab_regen_plan(layout) {
            Some(s) => seq![s],
            None => Seq::empty(),
        }),
        repair_of(Fix::LuksBackup, layout, stack, live) matches Ok(RepairModel::Steps(v, _)) && (
        0 <= k < layout.members.len() ==> some_step(
            v,
            |s: StepModel|
                command(s) == seq![
                    "cryptsetup"@,
                    "luksHeaderBackup"@,
                    layout.part(layout.members[k], 3),
                    "--header-backup-file"@,
                    "/boot"@ + "/luks/"@ + layout.members[k] + "3-headers.bin"@,
                ],
        )),
        repair_of(Fix::Debconf, layout, stack, live) matches Ok(RepairModel::Debconf(t, _)) && t
            == "grub-efi-amd64 grub2/force_efi_extra_removable boolean true\ngrub-efi-amd64 grub2/update_nvram boolean false\n"@,
        repair_of(Fix::RestampUuid(kind), layout, stack, live) is Ok <==> restamp_of(
            kind,
            layout,
            view_of(kind, live),
        ) is Ok,
        restamp_of(kind, layout, view_of(kind, live)) matches Ok(p) ==> repair_of(
            Fix::RestampUuid(kind),
            layout,
            stack,
            live,
        ) matches Ok(RepairModel::Restamp(w, again, _)) && again == kind && w.len()
            == p.targets.len() && (0 <= k < p.targets.len() ==> stamps_device(
            kind,
            w[k],
            p.targets[k],
            p.uuid,
        )),
{
    the_initramfs_is_rebuilt();
    reveal_strlit("");
    assert(""@ + "/etc/initramfs-tools/hooks/raiden"@ =~= "/etc/initramfs-tools/hooks/raiden"@);
    if 0 <= k < layout.members.len() {
        headers_are_kept_again(layout, k);
    }
    the_selections_are();
    if let Ok(p) = restamp_of(kind, layout, view_of(kind, live)) {
        if 0 <= k < p.targets.len() {
            only_dashes_are_dropped(p.uuid);
            let dev = p.targets[k];
            let w = restamp_words(kind, dev, p.uuid);
            match kind {
                UuidKind::Boot => {
                    assert(w =~= seq!["tune2fs"@, "-U"@, p.uuid, dev]);
                },
                UuidKind::Esp => {
                    assert(w =~= seq![
                        "mkfs.msdos"@,
                        "-F"@,
                        "32"@,
                        "-s"@,
                        "1"@,
                        "-n"@,
                        "EFI"@,
                        "-i"@,
                        p.uuid.filter(|c: char| c != '-'),
                        dev,
                    ]);
                },
            }
        }
    }
}

/// Whether a step rebuilds every initramfs of the running system.
pub open spec fn rebuilds_initramfs(s: StepModel) -> bool {
    command(s) == seq!["update-initramfs"@, "-u"@, "-k"@, "all"@] && !s.action->Run_0.chroot
}

proof fn the_initramfs_is_rebuilt()
    ensures
        rebuilds_initramfs(update_initramfs_u_plan(false)),
{
    assert(command(update_initramfs_u_plan(false)) =~= seq![
        "update-initramfs"@,
        "-u"@,
        "-k"@,
        "all"@,
    ]);
}

proof fn headers_are_kept_again(layout: LayoutModel, k: int)
    requires
        0 <= k < layout.members.len(),
    ensures
        some_step(
            seq![sh_step("clear the luks header backups"@, "rm -f /boot/luks/*-headers.bin"@)]
                + backup_luks_headers_plan(layout, "/boot"@),
            |s: StepModel|
                command(s) == seq![
                    "cryptsetup"@,
                    "luksHeaderBackup"@,
                    layout.part(layout.members[k], 3),
                    "--header-backup-file"@,
                    "/boot"@ + "/luks/"@ + layout.members[k] + "3-headers.bin"@,
                ],
        ),
{
    broadcast use group_some_steps;

    let d = layout.members[k];
    let w = seq![
        "cryptsetup"@,
        "luksHeaderBackup"@,
        layout.part(d, 3),
        "--header-backup-file"@,
        "/boot"@ + "/luks/"@ + d + "3-headers.bin"@,
    ];
    let s = backup_luks_header(layout, "/boot"@, d)[0];
    assert(command(s) =~= w);
}

proof fn the_selections_are()
    ensures
        debconf_text(debconf_keys())
            == "grub-efi-amd64 grub2/force_efi_extra_removable boolean true\ngrub-efi-amd64 grub2/update_nvram boolean false\n"@,
{
    reveal_strlit("grub-efi-amd64");
    reveal_strlit(" ");
    reveal_strlit("grub2/force_efi_extra_removable");
    reveal_strlit("grub2/update_nvram");
    reveal_strlit(" boolean ");
    reveal_strlit("true");
    reveal_strlit("false");
    reveal_strlit("\n");
    reveal_strlit("grub-efi-amd64 grub2/force_efi_extra_removable boolean true\ngrub-efi-amd64 grub2/update_nvram boolean false\n");
    let keys = debconf_keys();
    let one = keys.drop_last();
    assert(one.drop_last().len() == 0);
    reveal_with_fuel(debconf_text, 3);
    assert(one.last() == ("grub2/force_efi_extra_removable"@, "true"@));
    let a = "grub-efi-amd64"@ + " "@ + "grub2/force_efi_extra_removable"@ + " boolean "@ + "true"@
        + "\n"@;
    let b = "grub-efi-amd64"@ + " "@ + "grub2/update_nvram"@ + " boolean "@ + "false"@ + "\n"@;
    assert(debconf_text(one) =~= a);
    assert(debconf_text(keys) =~= a + b);
    assert(a + b
        =~= "grub-efi-amd64 grub2/force_efi_extra_removable boolean true\ngrub-efi-amd64 grub2/update_nvram boolean false\n"@);
}

} // verus!
