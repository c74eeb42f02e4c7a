//! Plans assembled as ordered phases. Each phase is a reusable builder, so that the
//! operations compose the ones they need. File edits are native writes (static
//! content) or `sh -c` (where a runtime uuid from blkid is needed).
use vstd::prelude::*;
use vstd::string::*;

use crate::config::{Config, ConfigModel};
use crate::efi::{
    debconf_keys, debconf_text, grub_debconf_selections, grub_install_steps, grub_installs,
    mkfs_esp_argv, mkfs_esp_words, register_argv, register_words,
};
use crate::layout::{
    first_of, first_or_empty, Layout, LayoutModel, BOOT_MD_DEVICE, BOOT_MD_NAME, ESP_MOUNT,
};
use crate::ops::{verify_bootloaders, verify_bootloaders_plan};
use crate::stack::{
    md_create, md_create_plan, md_stop, md_stop_plan, raiden_recovery_hook_step,
    raiden_recovery_hook_step_plan, update_initramfs_u, update_initramfs_u_plan, Stack,
    BOOT_MIRROR_HOOK_CONTENT, BOOT_MIRROR_HOOK_NAME, EFI_MIRROR_HOOK_PATH, EFI_MIRROR_WRAPPER,
};
use crate::step::{
    add_phase, add_step, add_steps, append_step, each, each_disk, models, no_steps, one_phase,
    phases, run_step, sh_step, write_mode_step, write_step, Phase, PhaseModel, Step, StepModel,
};
use crate::text::{
    cmd, copy_texts, dec, decimal, head_all, headed, join, joined, opt_text, rest, rest_of,
    reversed, same, texts, ArgList,
};

verus! {

pub const APT: &'static str = "apt";

pub const PREPARE: &'static str = "prepare";

pub const RESET: &'static str = "reset";

pub const PARTITION: &'static str = "partition";

pub const FORMAT: &'static str = "format";

pub const MOUNT: &'static str = "mount";

pub const BIND: &'static str = "bind";

pub const STRAP: &'static str = "strap";

pub const INSTALL: &'static str = "install";

pub const BOOTLOADER: &'static str = "bootloader";

pub const FINISH: &'static str = "finish";

pub const CLOSE: &'static str = "close";

/// The phases of an install, in order.
pub const PHASES: [&'static str; 12] = [
    APT,
    PREPARE,
    RESET,
    PARTITION,
    FORMAT,
    MOUNT,
    STRAP,
    BIND,
    INSTALL,
    BOOTLOADER,
    FINISH,
    CLOSE,
];

/// The vfat mount options of the esp, as grub-install would write them.
pub const EFI_OPTS: &'static str =
    "rw,relatime,fmask=0022,dmask=0022,codepage=437,iocharset=ascii,shortname=mixed,utf8,errors=remount-ro";

/// Grub serial settings: the boot menu, the kernel console and the unlock prompt of
/// the initramfs all reach ttyS0.
pub const GRUB_SERIAL_CFG: &'static str =
    "GRUB_CMDLINE_LINUX_DEFAULT=\"console=tty1 console=ttyS0,115200\"\nGRUB_TERMINAL=\"console serial\"\nGRUB_SERIAL_COMMAND=\"serial --speed=115200 --unit=0 --word=8 --parity=no --stop=1\"\n";

/// What an install needs to know besides the configuration: how the root password is
/// set, the path of the running binary (where it is known), and the manifest's text.
pub struct Staging {
    pub auto_root_password: bool,
    pub raiden_bin: Option<String>,
    pub manifest: String,
}

/// The plan of `install`.
pub open spec fn install_plan<S: Stack>(
    cfg: ConfigModel,
    layout: LayoutModel,
    stack: S,
    staging: Staging,
) -> Seq<PhaseModel> {
    seq![
        apt_phase_plan(cfg, stack),
        prepare_phase_plan(),
        reset_phase_plan(cfg, layout, stack),
        partition_phase_plan(cfg, layout, stack),
        format_phase_plan(cfg, layout, stack),
        PhaseModel { name: MOUNT@, steps: stack.mount_root_plan(cfg, layout) },
        strap_phase_plan(cfg),
        bind_phase_plan(cfg, layout),
        install_base_phase_plan(cfg, stack, staging.auto_root_password),
        bootloader_phase_plan(cfg, layout),
        finish_phase_plan(cfg, layout, stack, opt_text(staging.raiden_bin), staging.manifest@),
        close_phase_plan(cfg, layout, stack),
    ]
}

/// The full install pipeline for the configured stack. In an unattended run with a
/// password source the root password is set to the disk password; otherwise it is
/// asked for.
pub fn install<S: Stack>(
    cfg: &Config,
    layout: &Layout,
    stack: &S,
    staging: &Staging,
) -> (r: Vec<Phase>)
    requires
        layout@.boot_raid() || layout@.members.len() > 0,
    ensures
        phases(r@) == install_plan(cfg@, layout@, *stack, *staging),
{
    let mut v = one_phase(apt_phase(cfg, stack));
    add_phase(&mut v, prepare_phase());
    add_phase(&mut v, reset_phase(cfg, layout, stack));
    add_phase(&mut v, partition_phase(cfg, layout, stack));
    add_phase(&mut v, format_phase(cfg, layout, stack));
    add_phase(&mut v, Phase::new(MOUNT, stack.mount_root(cfg, layout)));
    // strap must precede bind: debootstrap creates /mnt/{dev,proc,sys,run}.
    add_phase(&mut v, strap_phase(cfg));
    add_phase(&mut v, bind_phase(cfg, layout));
    add_phase(&mut v, install_base_phase(cfg, stack, staging.auto_root_password));
    add_phase(&mut v, bootloader_phase(cfg, layout));
    add_phase(
        &mut v,
        finish_phase(cfg, layout, stack, &staging.raiden_bin, staging.manifest.as_str()),
    );
    add_phase(&mut v, close_phase(cfg, layout, stack));
    v
}

/// The plan of `finish_phase`.
pub open spec fn finish_phase_plan<S: Stack>(
    cfg: ConfigModel,
    layout: LayoutModel,
    stack: S,
    raiden_bin: Option<Seq<char>>,
    manifest: Seq<char>,
) -> PhaseModel {
    let steps = {
        let s = stack.finish_plan(cfg, layout);
        let s = s.push(
            run_step(
                "create the raiden state dirs in the target"@,
                seq!["mkdir"@].push("-p"@).push("/mnt/etc/raiden"@).push("/mnt/boot/raiden"@),
            ),
        );
        let s = s.push(
            write_step("write the install manifest"@, "/mnt/boot/raiden/manifest.toml"@, manifest),
        );
        let s = s.push(
            write_step("mirror the manifest to /etc"@, "/mnt/etc/raiden/manifest.toml"@, manifest),
        );
        let s = s + stage_binary_plan(raiden_bin);
        let s = if cfg.install.initramfs_recovery {
            let s = s.push(raiden_recovery_hook_step_plan("/mnt"@));
            s.push(update_initramfs_u_plan(true))
        } else {
            s
        };
        let s = if !layout.boot_raid() {
            s.push(boot_mirror_sync_step_plan())
        } else {
            s
        };
        let s = if cfg.efi() {
            s.push(efi_mirror_sync_step_plan())
        } else {
            s
        };
        s + verify_bootloaders_plan(layout, cfg.efi(), true)
    };
    PhaseModel { name: FINISH@, steps }
}

/// The stack's finish steps, the manifest and the binary in the target while /mnt is
/// still mounted, and the recovery bundle in the initrd. With the final initrd and
/// the manifest in /boot, every mirror is then synced, so a survivor boots an
/// identical, working copy. Last, every member's own bootloader is verified.
pub fn finish_phase<S: Stack>(
    cfg: &Config,
    layout: &Layout,
    stack: &S,
    raiden_bin: &Option<String>,
    manifest: &str,
) -> (r: Phase)
    ensures
        r@ == finish_phase_plan(cfg@, layout@, *stack, opt_text(*raiden_bin), manifest@),
{
    let mut s = no_steps();
    add_steps(&mut s, stack.finish(cfg, layout));
    add_step(
        &mut s,
        Step::run_owned(
            "create the raiden state dirs in the target",
            cmd("mkdir").arg("-p").arg("/mnt/etc/raiden").arg("/mnt/boot/raiden"),
        ),
    );
    add_step(
        &mut s,
        Step::write("write the install manifest", "/mnt/boot/raiden/manifest.toml", manifest),
    );
    add_step(
        &mut s,
        Step::write("mirror the manifest to /etc", "/mnt/etc/raiden/manifest.toml", manifest),
    );
    add_steps(&mut s, stage_binary(raiden_bin));
    if cfg.install.initramfs_recovery {
        add_step(&mut s, raiden_recovery_hook_step("/mnt"));
        add_step(&mut s, update_initramfs_u(true));
    }
    if !layout.boot_raid() {
        add_step(&mut s, boot_mirror_sync_step());
    }
    if cfg.boots_efi() {
        add_step(&mut s, efi_mirror_sync_step());
    }
    add_steps(&mut s, verify_bootloaders(layout, cfg.boots_efi(), true));
    Phase::new(FINISH, s)
}

/// Copies the running binary into the target, where its path is known.
pub open spec fn stage_binary_plan(raiden_bin: Option<Seq<char>>) -> Seq<StepModel> {
    match raiden_bin {
        Some(bin) => seq![
            run_step(
                "install the raiden binary in the target"@,
                seq!["install"@].push("-D"@).push("-m"@).push("0755"@).push(bin)
                    .push("/mnt/usr/local/sbin/raiden"@),
            ),
        ],
        None => Seq::empty(),
    }
}

fn stage_binary(raiden_bin: &Option<String>) -> (r: Vec<Step>)
    ensures
        models(r@) == stage_binary_plan(opt_text(*raiden_bin)),
{
    let mut s = no_steps();
    if let Some(bin) = raiden_bin {
        add_step(
            &mut s,
            Step::run_owned(
                "install the raiden binary in the target",
                cmd("install").arg("-D").arg("-m").arg("0755").arg(bin.as_str())
                    .arg("/mnt/usr/local/sbin/raiden"),
            ),
        );
    }
    s
}

/// The plan of `apt_install`.
pub open spec fn apt_install_plan(note: Seq<char>, pkgs: Seq<Seq<char>>) -> StepModel {
    run_step(
        note,
        (
            seq!["env"@].push("DEBIAN_FRONTEND=noninteractive"@).push("apt-get"@).push("install"@)
                .push("-y"@)
                + pkgs
        ),
    )
}

/// A non-interactive `apt-get install` of the packages.
pub fn apt_install(note: &str, pkgs: &Vec<String>) -> (r: Step)
    ensures
        r@ == apt_install_plan(note@, texts(pkgs@)),
{
    Step::run_owned(
        note,
        cmd("env").arg("DEBIAN_FRONTEND=noninteractive").arg("apt-get").arg("install").arg("-y")
            .args(pkgs),
    )
}

/// The plan of `apt_phase`.
pub open spec fn apt_phase_plan<S: Stack>(cfg: ConfigModel, stack: S) -> PhaseModel {
    let steps = {
        let s = seq![
            sh_step(
                "enable contrib on the host"@,
                "sed -i 's/ main/ main contrib/g' /etc/apt/sources.list"@,
            ),
        ];
        let s = if cfg.install.backports {
            s.push(
                write_step(
                    "enable backports on the host"@,
                    "/etc/apt/sources.list.d/backports.list"@,
                    "deb http://deb.debian.org/debian/ "@ + cfg.install.release
                        + "-backports main contrib\n"@,
                ),
            )
        } else {
            s
        };
        let s = s.push(
            run_step(
                "refresh package lists"@,
                seq!["env"@].push("DEBIAN_FRONTEND=noninteractive"@).push("apt-get"@)
                    .push("update"@),
            ),
        );
        let s = s.push(
            apt_install_plan(
                "install host provisioning tools"@,
                seq!["gdisk"@].push("dosfstools"@).push("mdadm"@).push("debootstrap"@)
                    .push("rsync"@),
            ),
        );
        let s = if cfg.efi() {
            s.push(apt_install_plan("install efi tools"@, seq!["efibootmgr"@]))
        } else {
            s
        };
        let s = s + stack.apt_repos_plan(cfg, ""@);
        let s = s + stack.host_prereqs_plan();
        let s = s.push(
            apt_install_plan("install stack packages on host"@, stack.host_packages_list()),
        );
        if cfg.install.extra_packages.len() > 0 {
            s.push(
                apt_install_plan("install extra packages on host"@, cfg.install.extra_packages),
            )
        } else {
            s
        }
    };
    PhaseModel { name: APT@, steps }
}

/// Enables the repositories on the live host, and installs the provisioning tools
/// and the stack's packages there.
pub fn apt_phase<S: Stack>(cfg: &Config, stack: &S) -> (r: Phase)
    ensures
        r@ == apt_phase_plan(cfg@, *stack),
{
    let mut s = no_steps();
    // contrib is needed on the host for zfs; harmless otherwise.
    add_step(
        &mut s,
        Step::sh(
            "enable contrib on the host",
            "sed -i 's/ main/ main contrib/g' /etc/apt/sources.list",
        ),
    );
    if cfg.install.backports {
        add_step(
            &mut s,
            Step::write(
                "enable backports on the host",
                "/etc/apt/sources.list.d/backports.list",
                "deb http://deb.debian.org/debian/ ".to_owned().concat(cfg.install.release.as_str())
                    .concat("-backports main contrib\n").as_str(),
            ),
        );
    }
    add_step(
        &mut s,
        Step::run_owned(
            "refresh package lists",
            cmd("env").arg("DEBIAN_FRONTEND=noninteractive").arg("apt-get").arg("update"),
        ),
    );
    add_step(
        &mut s,
        apt_install(
            "install host provisioning tools",
            &cmd("gdisk").arg("dosfstools").arg("mdadm").arg("debootstrap").arg("rsync"),
        ),
    );
    if cfg.boots_efi() {
        add_step(&mut s, apt_install("install efi tools", &cmd("efibootmgr")));
    }
    add_steps(&mut s, stack.apt_repos(cfg, ""));
    add_steps(&mut s, stack.host_prereqs());
    add_step(&mut s, apt_install("install stack packages on host", &stack.host_packages()));
    if cfg.install.extra_packages.len() > 0 {
        add_step(
            &mut s,
            apt_install("install extra packages on host", &cfg.install.extra_packages),
        );
    }
    Phase::new(APT, s)
}

/// The plan of `prepare_phase`.
pub open spec fn prepare_phase_plan() -> PhaseModel {
    PhaseModel {
        name: PREPARE@,
        steps: seq![
            append_step(
                "disable mdadm auto-assembly during install"@,
                "/etc/mdadm/mdadm.conf"@,
                "AUTO -all\n"@,
            ),
        ],
    }
}

/// Keeps mdadm from assembling arrays by itself while the disks are worked on.
pub fn prepare_phase() -> (r: Phase)
    ensures
        r@ == prepare_phase_plan(),
{
    let mut s = no_steps();
    add_step(
        &mut s,
        Step::append(
            "disable mdadm auto-assembly during install",
            "/etc/mdadm/mdadm.conf",
            "AUTO -all\n",
        ),
    );
    Phase::new(PREPARE, s)
}

/// The plan of `teardown_steps`.
pub open spec fn teardown_steps_plan<S: Stack>(
    cfg: ConfigModel,
    layout: LayoutModel,
    stack: S,
) -> Seq<StepModel> {
    let s = seq![
        sh_step(
            "unmount everything under /mnt"@,
            "mount | tac | awk '/\\/mnt/ {print $3}' | xargs -r -I{} umount -lf {}"@,
        ).best_effort(),
    ];
    let s = s + stack.close_plan(cfg, layout);
    if layout.boot_raid() {
        s.push(md_stop_plan(BOOT_MD_DEVICE@))
    } else {
        s
    }
}

/// Unmounts everything under /mnt and takes down the stack's mappings and the boot
/// array, best-effort.
pub fn teardown_steps<S: Stack>(cfg: &Config, layout: &Layout, stack: &S) -> (r: Vec<Step>)
    ensures
        models(r@) == teardown_steps_plan(cfg@, layout@, *stack),
{
    let mut s = no_steps();
    add_step(
        &mut s,
        Step::sh(
            "unmount everything under /mnt",
            "mount | tac | awk '/\\/mnt/ {print $3}' | xargs -r -I{} umount -lf {}",
        ).best_effort(),
    );
    add_steps(&mut s, stack.close(cfg, layout));
    if layout.boot_raid() {
        add_step(&mut s, md_stop(BOOT_MD_DEVICE));
    }
    s
}

/// The plan of `reset_phase`.
pub open spec fn reset_phase_plan<S: Stack>(
    cfg: ConfigModel,
    layout: LayoutModel,
    stack: S,
) -> PhaseModel {
    let steps = {
        let s = teardown_steps_plan(cfg, layout, stack);
        s.push(
            run_step("settle udev after teardown"@, seq!["udevadm"@].push("settle"@)).best_effort(),
        )
    };
    PhaseModel { name: RESET@, steps }
}

/// Takes down whatever stack a previous attempt left on the members, so that a retry
/// can repartition them.
pub fn reset_phase<S: Stack>(cfg: &Config, layout: &Layout, stack: &S) -> (r: Phase)
    ensures
        r@ == reset_phase_plan(cfg@, layout@, *stack),
{
    let mut s = no_steps();
    add_steps(&mut s, teardown_steps(cfg, layout, stack));
    add_step(
        &mut s,
        Step::run_owned("settle udev after teardown", cmd("udevadm").arg("settle")).best_effort(),
    );
    Phase::new(RESET, s)
}

/// The plan of `partition_phase`.
pub open spec fn partition_phase_plan<S: Stack>(
    cfg: ConfigModel,
    layout: LayoutModel,
    stack: S,
) -> PhaseModel {
    let steps = {
        let s = seq![
            run_step(
                "wipe filesystem signatures"@,
                (seq!["wipefs"@].push("-a"@) + headed("/dev/"@, layout.members)),
            ),
        ];
        let s = s + partition_disks_plan(layout, cfg.efi());
        s + stack.partition_root_plan(cfg, layout)
    };
    PhaseModel { name: PARTITION@, steps }
}

/// Wipes the member disks and creates the esp, boot and root partitions.
pub fn partition_phase<S: Stack>(cfg: &Config, layout: &Layout, stack: &S) -> (r: Phase)
    ensures
        r@ == partition_phase_plan(cfg@, layout@, *stack),
{
    let mut s = no_steps();
    add_step(
        &mut s,
        Step::run_owned(
            "wipe filesystem signatures",
            cmd("wipefs").arg("-a").args(&head_all("/dev/", &layout.members)),
        ),
    );
    add_steps(&mut s, partition_disks(layout, cfg.boots_efi()));
    add_steps(&mut s, stack.partition_root(cfg, layout));
    Phase::new(PARTITION, s)
}

/// The steps of `partition_disks` for one disk.
pub open spec fn partition_disk(efi: bool, d: Seq<char>) -> Seq<StepModel> {
    let dev = "/dev/"@ + d;
    seq![
        run_step("zap gpt on "@ + dev, seq!["sgdisk"@].push("--zap-all"@).push(dev)),
        first_partition_plan(dev, efi),
        sgdisk_plan(dev, "create boot member"@, "-n2:0:+512M"@, "-t2:8301"@),
    ]
}

/// The plan of `partition_disks`.
pub open spec fn partition_disks_plan(layout: LayoutModel, efi: bool) -> Seq<StepModel> {
    each(layout.members, |d: Seq<char>| partition_disk(efi, d))
}

/// gpt and the esp (or bios-boot) and boot partitions on each member of the layout.
pub fn partition_disks(layout: &Layout, efi: bool) -> (r: Vec<Step>)
    ensures
        models(r@) == partition_disks_plan(layout@, efi),
{
    let each_d = |d: &str| -> (s: Vec<Step>)
        ensures
            models(s@) =~= partition_disk(efi, d@),
    {
        let mut s = no_steps();
        let dev_text = "/dev/".to_owned().concat(d);
        let dev = dev_text.as_str();
        add_step(
            &mut s,
            Step::run_owned(
                "zap gpt on ".to_owned().concat(dev).as_str(),
                cmd("sgdisk").arg("--zap-all").arg(dev),
            ),
        );
        add_step(&mut s, first_partition(dev, efi));
        add_step(&mut s, sgdisk(dev, "create boot member", "-n2:0:+512M", "-t2:8301"));
        s
    };
    each_disk(&layout.members, each_d, Ghost(|d: Seq<char>| partition_disk(efi, d)))
}

/// The plan of `first_partition`.
pub open spec fn first_partition_plan(dev: Seq<char>, efi: bool) -> StepModel {
    if efi {
        sgdisk_plan(dev, "create esp"@, "-n1:1M:+512M"@, "-t1:EF00"@)
    } else {
        sgdisk_plan(dev, "create bios-boot"@, "-n1:1M:+16M"@, "-t1:EF02"@)
    }
}

/// The first partition: an esp, or a bios-boot partition.
pub fn first_partition(dev: &str, efi: bool) -> (r: Step)
    ensures
        r@ == first_partition_plan(dev@, efi),
{
    if efi {
        sgdisk(dev, "create esp", "-n1:1M:+512M", "-t1:EF00")
    } else {
        sgdisk(dev, "create bios-boot", "-n1:1M:+16M", "-t1:EF02")
    }
}

/// The plan of `sgdisk`.
pub open spec fn sgdisk_plan(
    dev: Seq<char>,
    note: Seq<char>,
    size: Seq<char>,
    kind: Seq<char>,
) -> StepModel {
    run_step(note + " on "@ + dev, seq!["sgdisk"@].push(size).push(kind).push(dev))
}

/// Creates one partition.
pub fn sgdisk(dev: &str, note: &str, size: &str, kind: &str) -> (r: Step)
    ensures
        r@ == sgdisk_plan(dev@, note@, size@, kind@),
{
    Step::run_owned(
        note.to_owned().concat(" on ").concat(dev).as_str(),
        cmd("sgdisk").arg(size).arg(kind).arg(dev),
    )
}

/// The plan of `format_phase`.
pub open spec fn format_phase_plan<S: Stack>(
    cfg: ConfigModel,
    layout: LayoutModel,
    stack: S,
) -> PhaseModel {
    let steps = {
        let s = seq![
            run_step(
                "zero stale md superblocks on boot members"@,
                (seq!["mdadm"@].push("--zero-superblock"@) + layout.boot_devices()),
            ),
        ];
        let s = if layout.boot_raid() {
            let s = s.push(
                md_create_plan(
                    BOOT_MD_NAME@,
                    dec(cfg.boot.level as nat),
                    cfg.boot.bitmap,
                    layout.boot_devices(),
                ),
            );
            s.push(
                run_step(
                    "format /boot as ext4"@,
                    seq!["mkfs.ext4"@].push("-m"@).push("0"@).push(BOOT_MD_DEVICE@),
                ),
            )
        } else {
            s + format_boot_independent_plan(layout.boot_devices())
        };
        let s = if cfg.efi() {
            s + format_esps_plan(layout.esp_devices())
        } else {
            s
        };
        s + stack.format_root_plan(cfg, layout)
    };
    PhaseModel { name: FORMAT@, steps }
}

/// Creates /boot, the esps and the root filesystem.
pub fn format_phase<S: Stack>(cfg: &Config, layout: &Layout, stack: &S) -> (r: Phase)
    requires
        layout@.boot_raid() || layout@.members.len() > 0,
    ensures
        r@ == format_phase_plan(cfg@, layout@, *stack),
{
    let mut s = no_steps();
    add_step(
        &mut s,
        Step::run_owned(
            "zero stale md superblocks on boot members",
            cmd("mdadm").arg("--zero-superblock").args(&layout.boot_devices()),
        ),
    );
    if layout.boot_raid() {
        add_step(
            &mut s,
            md_create(
                BOOT_MD_NAME,
                decimal(cfg.boot.level as u64).as_str(),
                cfg.boot.bitmap.as_str(),
                &layout.boot_devices(),
            ),
        );
        add_step(
            &mut s,
            Step::run_owned(
                "format /boot as ext4",
                cmd("mkfs.ext4").arg("-m").arg("0").arg(BOOT_MD_DEVICE),
            ),
        );
    } else {
        add_steps(&mut s, format_boot_independent(&layout.boot_devices()));
    }
    if cfg.boots_efi() {
        add_steps(&mut s, format_esps(&layout.esp_devices()));
    }
    add_steps(&mut s, stack.format_root(cfg, layout));
    Phase::new(FORMAT, s)
}

/// The steps of `format_boot_independent` for one disk.
pub open spec fn format_boot_copy(boot: Seq<Seq<char>>, dev: Seq<char>) -> Seq<StepModel> {
    let shared = first_or_empty(boot);
    seq![
        sh_step(
            "format "@ + dev + " as ext4 sharing the /boot uuid"@,
            "u=$(blkid -s UUID -o value "@ + shared + "); mkfs.ext4 -m 0 -F -U \"$u\" -L boot "@
                + dev,
        ),
    ]
}

/// The plan of `format_boot_independent`.
pub open spec fn format_boot_independent_plan(boot: Seq<Seq<char>>) -> Seq<StepModel> {
    let src = first_or_empty(boot);
    let s = seq![
        run_step(
            "format "@ + src + " as ext4 (/boot)"@,
            seq!["mkfs.ext4"@].push("-m"@).push("0"@).push("-F"@).push("-L"@).push("boot"@)
                .push(src),
        ),
    ];
    s + each(rest(boot), |dev: Seq<char>| format_boot_copy(boot, dev))
}

/// Formats each boot partition as an independent ext4 /boot, all sharing the first
/// one's fs uuid so that every disk's grub finds its own local copy. -F overwrites a
/// residual filesystem without asking.
pub fn format_boot_independent(boot: &Vec<String>) -> (r: Vec<Step>)
    requires
        boot@.len() > 0,
    ensures
        models(r@) == format_boot_independent_plan(texts(boot@)),
{
    let mut s = no_steps();
    let src_text = first_of(boot);
    let src = src_text.as_str();
    add_step(
        &mut s,
        Step::run_owned(
            "format ".to_owned().concat(src).concat(" as ext4 (/boot)").as_str(),
            cmd("mkfs.ext4").arg("-m").arg("0").arg("-F").arg("-L").arg("boot").arg(src),
        ),
    );
    let each_dev = |dev: &str| -> (s: Vec<Step>)
        ensures
            models(s@) == format_boot_copy(texts(boot@), dev@),
    {
        let mut s = no_steps();
        let shared_text = first_of(boot);
        let shared = shared_text.as_str();
        add_step(
            &mut s,
            Step::sh(
                "format ".to_owned().concat(dev).concat(" as ext4 sharing the /boot uuid").as_str(),
                "u=$(blkid -s UUID -o value ".to_owned().concat(shared)
                    .concat("); mkfs.ext4 -m 0 -F -U \"$u\" -L boot ").concat(dev).as_str(),
            ),
        );
        s
    };
    add_steps(
        &mut s,
        each_disk(
            &rest_of(boot),
            each_dev,
            Ghost(|dev: Seq<char>| format_boot_copy(texts(boot@), dev)),
        ),
    );
    s
}

/// The steps of `format_esps` for one disk.
pub open spec fn format_esp_copy(esps: Seq<Seq<char>>, dev: Seq<char>) -> Seq<StepModel> {
    let shared = first_or_empty(esps);
    let mkfs = joined(mkfs_esp_words(dev, Some("\"$u\""@)), " "@);
    seq![
        sh_step(
            "format esp "@ + dev + " sharing the esp uuid"@,
            "u=$(blkid -s UUID -o value "@ + shared + " | tr -d -); "@ + mkfs,
        ),
    ]
}

/// The plan of `format_esps`.
pub open spec fn format_esps_plan(esps: Seq<Seq<char>>) -> Seq<StepModel> {
    let s = Seq::<StepModel>::empty();
    let s = if esps.len() > 0 {
        let src = first_or_empty(esps);
        s.push(run_step("format esp "@ + src, mkfs_esp_words(src, None)))
    } else {
        s
    };
    s + each(rest(esps), |dev: Seq<char>| format_esp_copy(esps, dev))
}

/// Formats each esp, all sharing the first one's volume id, so that the one fstab
/// entry resolves to any survivor.
pub fn format_esps(esps: &Vec<String>) -> (r: Vec<Step>)
    ensures
        models(r@) == format_esps_plan(texts(esps@)),
{
    let mut s = no_steps();
    if esps.len() > 0 {
        let src_text = first_of(esps);
        let src = src_text.as_str();
        add_step(
            &mut s,
            Step::run_owned(
                "format esp ".to_owned().concat(src).as_str(),
                copy_texts(&mkfs_esp_argv(src, None)),
            ),
        );
    }
    let each_dev = |dev: &str| -> (s: Vec<Step>)
        ensures
            models(s@) == format_esp_copy(texts(esps@), dev@),
    {
        let mut s = no_steps();
        let shared_text = first_of(esps);
        let shared = shared_text.as_str();
        let mkfs_text = join(&mkfs_esp_argv(dev, Some("\"$u\"")), " ");
        let mkfs = mkfs_text.as_str();
        add_step(
            &mut s,
            Step::sh(
                "format esp ".to_owned().concat(dev).concat(" sharing the esp uuid").as_str(),
                "u=$(blkid -s UUID -o value ".to_owned().concat(shared).concat(" | tr -d -); ")
                    .concat(mkfs).as_str(),
            ),
        );
        s
    };
    add_steps(
        &mut s,
        each_disk(
            &rest_of(esps),
            each_dev,
            Ghost(|dev: Seq<char>| format_esp_copy(texts(esps@), dev)),
        ),
    );
    s
}

/// The plan of `bind_phase`.
pub open spec fn bind_phase_plan(cfg: ConfigModel, layout: LayoutModel) -> PhaseModel {
    let steps = {
        let s = seq![
            run_step(
                "create bind mount points"@,
                seq!["mkdir"@].push("-p"@).push("/mnt/dev"@).push("/mnt/proc"@).push("/mnt/sys"@)
                    .push("/mnt/run"@),
            ),
            run_step(
                "bind /dev into the target"@,
                seq!["mount"@].push("--rbind"@).push("/dev"@).push("/mnt/dev"@),
            ),
            run_step(
                "bind /proc into the target"@,
                seq!["mount"@].push("--rbind"@).push("/proc"@).push("/mnt/proc"@),
            ),
            run_step(
                "bind /sys into the target"@,
                seq!["mount"@].push("--rbind"@).push("/sys"@).push("/mnt/sys"@),
            ),
            run_step(
                "bind /run into the target"@,
                seq!["mount"@].push("--rbind"@).push("/run"@).push("/mnt/run"@),
            ),
        ];
        s + boot_mount_steps_plan(layout, "/mnt"@, cfg.efi())
    };
    PhaseModel { name: BIND@, steps }
}

/// Binds the live system's trees into the target, and mounts /boot and the esp there.
pub fn bind_phase(cfg: &Config, layout: &Layout) -> (r: Phase)
    ensures
        r@ == bind_phase_plan(cfg@, layout@),
{
    let mut s = no_steps();
    // debootstrap already creates these, but mkdir -p keeps bind robust.
    add_step(
        &mut s,
        Step::run_owned(
            "create bind mount points",
            cmd("mkdir").arg("-p").arg("/mnt/dev").arg("/mnt/proc").arg("/mnt/sys").arg("/mnt/run"),
        ),
    );
    add_step(
        &mut s,
        Step::run_owned(
            "bind /dev into the target",
            cmd("mount").arg("--rbind").arg("/dev").arg("/mnt/dev"),
        ),
    );
    add_step(
        &mut s,
        Step::run_owned(
            "bind /proc into the target",
            cmd("mount").arg("--rbind").arg("/proc").arg("/mnt/proc"),
        ),
    );
    add_step(
        &mut s,
        Step::run_owned(
            "bind /sys into the target",
            cmd("mount").arg("--rbind").arg("/sys").arg("/mnt/sys"),
        ),
    );
    add_step(
        &mut s,
        Step::run_owned(
            "bind /run into the target",
            cmd("mount").arg("--rbind").arg("/run").arg("/mnt/run"),
        ),
    );
    add_steps(&mut s, boot_mount_steps(layout, "/mnt", cfg.boots_efi()));
    Phase::new(BIND, s)
}

/// The path below which /boot lies, for a root mounted at `at`.
pub open spec fn below(at: Seq<char>) -> Seq<char> {
    if at == "/"@ {
        Seq::empty()
    } else {
        at
    }
}

fn base_of(at: &str) -> (r: String)
    ensures
        r@ == below(at@),
{
    if same(at, "/") {
        String::new()
    } else {
        at.to_owned()
    }
}

/// The plan of `mount_first`.
pub open spec fn mount_first_plan(
    note: Seq<char>,
    devices: Seq<Seq<char>>,
    point: Seq<char>,
) -> StepModel {
    let list = joined(devices, " "@);
    sh_step(
        note,
        "mountpoint -q "@ + point + " || for d in "@ + list + "; do mount \"$d\" "@ + point
            + " 2>/dev/null && break; done; mountpoint -q "@ + point,
    )
}

/// Mounts the first of the devices that can be mounted at `point`, unless something
/// is mounted there already.
pub fn mount_first(note: &str, devices: &Vec<String>, point: &str) -> (r: Step)
    ensures
        r@ == mount_first_plan(note@, texts(devices@), point@),
{
    let list_text = join(devices, " ");
    let list = list_text.as_str();
    Step::sh(
        note,
        "mountpoint -q ".to_owned().concat(point).concat(" || for d in ").concat(list)
            .concat("; do mount \"$d\" ").concat(point)
            .concat(" 2>/dev/null && break; done; mountpoint -q ").concat(point).as_str(),
    )
}

/// The plan of `boot_mount_steps`.
pub open spec fn boot_mount_steps_plan(
    layout: LayoutModel,
    at: Seq<char>,
    efi: bool,
) -> Seq<StepModel> {
    let base = below(at);
    let s = seq![
        run_step("create "@ + base + "/boot"@, seq!["mkdir"@].push("-p"@).push(base + "/boot"@)),
    ];
    let s = if layout.boot_raid() {
        s.push(
            sh_step(
                "mount /boot"@,
                "mountpoint -q "@ + base + "/boot || mount "@ + BOOT_MD_DEVICE@ + " "@ + base
                    + "/boot"@,
            ),
        )
    } else {
        s.push(mount_first_plan("mount /boot"@, layout.boot_devices(), base + "/boot"@))
    };
    if efi {
        let s = s.push(
            run_step(
                "create "@ + base + ESP_MOUNT@,
                seq!["mkdir"@].push("-p"@).push(base + ESP_MOUNT@),
            ),
        );
        s.push(
            mount_first_plan("mount the primary esp"@, layout.esp_devices(), base + ESP_MOUNT@),
        )
    } else {
        s
    }
}

/// Mounts /boot and the esp from the first available member, for a root at `at`.
/// Every step is guarded, so it is safe to run against an already-mounted system.
pub fn boot_mount_steps(layout: &Layout, at: &str, efi: bool) -> (r: Vec<Step>)
    ensures
        models(r@) == boot_mount_steps_plan(layout@, at@, efi),
{
    let mut s = no_steps();
    let base_text = base_of(at);
    let base = base_text.as_str();
    add_step(
        &mut s,
        Step::run_owned(
            "create ".to_owned().concat(base).concat("/boot").as_str(),
            cmd("mkdir").arg("-p").arg(base.to_owned().concat("/boot").as_str()),
        ),
    );
    if layout.boot_raid() {
        add_step(
            &mut s,
            Step::sh(
                "mount /boot",
                "mountpoint -q ".to_owned().concat(base).concat("/boot || mount ")
                    .concat(BOOT_MD_DEVICE).concat(" ").concat(base).concat("/boot").as_str(),
            ),
        );
    } else {
        // every copy shares one uuid, so any member's will do.
        add_step(
            &mut s,
            mount_first(
                "mount /boot",
                &layout.boot_devices(),
                base.to_owned().concat("/boot").as_str(),
            ),
        );
    }
    if efi {
        add_step(
            &mut s,
            Step::run_owned(
                "create ".to_owned().concat(base).concat(ESP_MOUNT).as_str(),
                cmd("mkdir").arg("-p").arg(base.to_owned().concat(ESP_MOUNT).as_str()),
            ),
        );
        add_step(
            &mut s,
            mount_first(
                "mount the primary esp",
                &layout.esp_devices(),
                base.to_owned().concat(ESP_MOUNT).as_str(),
            ),
        );
    }
    s
}

/// The plan of `strap_phase`.
pub open spec fn strap_phase_plan(cfg: ConfigModel) -> PhaseModel {
    PhaseModel {
        name: STRAP@,
        steps: seq![
            run_step(
                "debootstrap "@ + cfg.install.release + " into /mnt"@,
                seq!["debootstrap"@].push(cfg.install.release).push("/mnt"@),
            ),
        ],
    }
}

/// Puts a minimal system of the configured release into the target.
pub fn strap_phase(cfg: &Config) -> (r: Phase)
    ensures
        r@ == strap_phase_plan(cfg@),
{
    let mut s = no_steps();
    add_step(
        &mut s,
        Step::run_owned(
            "debootstrap ".to_owned().concat(cfg.install.release.as_str()).concat(" into /mnt")
                .as_str(),
            cmd("debootstrap").arg(cfg.install.release.as_str()).arg("/mnt"),
        ),
    );
    Phase::new(STRAP, s)
}

/// The plan of `install_base_phase`.
pub open spec fn install_base_phase_plan<S: Stack>(
    cfg: ConfigModel,
    stack: S,
    auto_root_password: bool,
) -> PhaseModel {
    let steps = {
        let s = seq![
            sh_step(
                "enable contrib in the target"@,
                "sed -i 's/ main/ main contrib/g' /mnt/etc/apt/sources.list"@,
            ),
        ];
        let s = if cfg.install.backports {
            let s = s.push(
                write_step(
                    "enable backports in the target"@,
                    "/mnt/etc/apt/sources.list.d/backports.list"@,
                    "deb http://deb.debian.org/debian/ "@ + cfg.install.release
                        + "-backports main contrib\n"@,
                ),
            );
            s + pin_backports_plan(stack, cfg.install.release)
        } else {
            s
        };
        let s = s.push(
            run_step(
                "refresh package lists in target"@,
                seq!["env"@].push("DEBIAN_FRONTEND=noninteractive"@).push("apt-get"@)
                    .push("update"@),
            ).chroot(),
        );
        let s = s + stack.apt_repos_plan(cfg, "/mnt"@);
        let s = s.push(
            apt_install_plan(
                "install raid packages in target"@,
                (seq!["gdisk"@].push("dosfstools"@).push("mdadm"@) + stack.packages_list()),
            ).chroot(),
        );
        let s = if cfg.install.extra_packages.len() > 0 {
            s.push(
                apt_install_plan(
                    "install extra packages in target"@,
                    cfg.install.extra_packages,
                ).chroot(),
            )
        } else {
            s
        };
        let s = s.push(apt_install_plan("install locales in target"@, seq!["locales"@]).chroot());
        let s = s.push(
            apt_install_plan("install the kernel in target"@, seq!["linux-image-amd64"@]).chroot(),
        );
        let s = s.push(
            sh_step(
                "configure dhcp networking"@,
                "mkdir -p /etc/network/interfaces.d; e=$(ip addr show | awk '/inet.*brd/{print $NF; exit}'); [ -n \"$e\" ] || e=enp0s1; printf '\\nauto %s\\niface %s inet dhcp\\n' \"$e\" \"$e\" >> /etc/network/interfaces.d/$e"@,
            ).chroot(),
        );
        let s = s.push(
            run_step(
                "upgrade the base system"@,
                seq!["env"@].push("DEBIAN_FRONTEND=noninteractive"@).push("apt-get"@)
                    .push("full-upgrade"@).push("-y"@).push("--autoremove"@).push("--purge"@),
            ).chroot(),
        );
        let s = s.push(apt_install_plan("install tasksel in target"@, seq!["tasksel"@]).chroot());
        let s = s.push(
            run_step(
                "install the standard task"@,
                seq!["env"@].push("DEBIAN_FRONTEND=noninteractive"@).push("tasksel"@)
                    .push("--debconf-apt-progress=--logstderr"@).push("install"@).push("standard"@),
            ).chroot(),
        );
        if auto_root_password {
            s.push(
                run_step("set the root password (same as the disk password)"@, seq!["chpasswd"@])
                    .chroot().secret_prefixed("root:"@),
            )
        } else {
            s.push(run_step("set the root password"@, seq!["passwd"@]).chroot())
        }
    };
    PhaseModel { name: INSTALL@, steps }
}

/// The base system in the target: repositories, packages, the kernel, networking and
/// the root password.
pub fn install_base_phase<S: Stack>(cfg: &Config, stack: &S, auto_root_password: bool) -> (r: Phase)
    ensures
        r@ == install_base_phase_plan(cfg@, *stack, auto_root_password),
{
    let mut s = no_steps();
    add_step(
        &mut s,
        Step::sh(
            "enable contrib in the target",
            "sed -i 's/ main/ main contrib/g' /mnt/etc/apt/sources.list",
        ),
    );
    if cfg.install.backports {
        add_step(
            &mut s,
            Step::write(
                "enable backports in the target",
                "/mnt/etc/apt/sources.list.d/backports.list",
                "deb http://deb.debian.org/debian/ ".to_owned().concat(cfg.install.release.as_str())
                    .concat("-backports main contrib\n").as_str(),
            ),
        );
        add_steps(&mut s, pin_backports(stack, cfg.install.release.as_str()));
    }
    add_step(
        &mut s,
        Step::run_owned(
            "refresh package lists in target",
            cmd("env").arg("DEBIAN_FRONTEND=noninteractive").arg("apt-get").arg("update"),
        ).chroot(),
    );
    add_steps(&mut s, stack.apt_repos(cfg, "/mnt"));
    // mkfs.msdos is needed on the running system too: replace recreates an esp there.
    add_step(
        &mut s,
        apt_install(
            "install raid packages in target",
            &cmd("gdisk").arg("dosfstools").arg("mdadm").args(&stack.packages()),
        ).chroot(),
    );
    if cfg.install.extra_packages.len() > 0 {
        add_step(
            &mut s,
            apt_install("install extra packages in target", &cfg.install.extra_packages).chroot(),
        );
    }
    add_step(&mut s, apt_install("install locales in target", &cmd("locales")).chroot());
    add_step(
        &mut s,
        apt_install("install the kernel in target", &cmd("linux-image-amd64")).chroot(),
    );
    add_step(
        &mut s,
        Step::sh(
            "configure dhcp networking",
            "mkdir -p /etc/network/interfaces.d; e=$(ip addr show | awk '/inet.*brd/{print $NF; exit}'); [ -n \"$e\" ] || e=enp0s1; printf '\\nauto %s\\niface %s inet dhcp\\n' \"$e\" \"$e\" >> /etc/network/interfaces.d/$e",
        ).chroot(),
    );
    add_step(
        &mut s,
        Step::run_owned(
            "upgrade the base system",
            cmd("env").arg("DEBIAN_FRONTEND=noninteractive").arg("apt-get").arg("full-upgrade")
                .arg("-y").arg("--autoremove").arg("--purge"),
        ).chroot(),
    );
    add_step(&mut s, apt_install("install tasksel in target", &cmd("tasksel")).chroot());
    add_step(
        &mut s,
        Step::run_owned(
            "install the standard task",
            cmd("env").arg("DEBIAN_FRONTEND=noninteractive").arg("tasksel")
                .arg("--debconf-apt-progress=--logstderr").arg("install").arg("standard"),
        ).chroot(),
    );
    if auto_root_password {
        // chpasswd reads "root:<password>"; the prefix is added at run time.
        add_step(
            &mut s,
            Step::run_owned("set the root password (same as the disk password)", cmd("chpasswd"))
                .chroot().secret_prefixed("root:"),
        );
    } else {
        add_step(&mut s, Step::run_owned("set the root password", cmd("passwd")).chroot());
    }
    Phase::new(INSTALL, s)
}

/// Pins the stack's packages to backports, where the stack has pins.
pub open spec fn pin_backports_plan<S: Stack>(stack: S, release: Seq<char>) -> Seq<StepModel> {
    match stack.backports_pins_text(release) {
        Some(pins) => seq![
            write_step("pin backports packages"@, "/mnt/etc/apt/preferences.d/backports"@, pins),
        ],
        None => Seq::empty(),
    }
}

fn pin_backports<S: Stack>(stack: &S, release: &str) -> (r: Vec<Step>)
    ensures
        models(r@) == pin_backports_plan(*stack, release@),
{
    let mut s = no_steps();
    if let Some(pins) = stack.backports_pins(release) {
        add_step(
            &mut s,
            Step::write(
                "pin backports packages",
                "/mnt/etc/apt/preferences.d/backports",
                pins.as_str(),
            ),
        );
    }
    s
}

/// Grub, shim, and rsync where a mirror needs it.
pub open spec fn boot_packages_list(efi: bool, raid: bool) -> Seq<Seq<char>> {
    let grub = if efi {
        seq!["grub-efi-amd64"@].push("shim-signed"@)
    } else {
        seq!["grub-pc"@]
    };
    if efi || !raid {
        grub.push("rsync"@)
    } else {
        grub
    }
}

fn boot_packages(efi: bool, raid: bool) -> (r: Vec<String>)
    ensures
        texts(r@) == boot_packages_list(efi, raid),
{
    let grub = if efi {
        cmd("grub-efi-amd64").arg("shim-signed")
    } else {
        cmd("grub-pc")
    };
    if efi || !raid {
        grub.arg("rsync")
    } else {
        grub
    }
}

/// The plan of `bootloader_phase`.
pub open spec fn bootloader_phase_plan(cfg: ConfigModel, layout: LayoutModel) -> PhaseModel {
    let steps = {
        let s = seq![
            run_step(
                "remove os-prober"@,
                seq!["apt-get"@].push("purge"@).push("-y"@).push("os-prober"@),
            ).chroot(),
            apt_install_plan(
                "install grub + mirror packages in target"@,
                boot_packages_list(cfg.efi(), layout.boot_raid()),
            ).chroot(),
            boot_fstab_step_plan(layout),
        ];
        let s = if cfg.efi() {
            s + bootloader_efi_plan(layout)
        } else {
            s + bootloader_bios_plan(layout)
        };
        let s = if !layout.boot_raid() {
            s + boot_mirror_install_steps_plan()
        } else {
            s
        };
        let s = if cfg.install.serial_console {
            s + serial_console_steps_plan()
        } else {
            s
        };
        s.push(run_step("regenerate grub config"@, seq!["update-grub"@]).chroot())
    };
    PhaseModel { name: BOOTLOADER@, steps }
}

/// Installs the bootloader on every member, the fstab entries, and the hooks that
/// keep the mirrors in sync. The first sync of the mirrors comes in the finish phase,
/// once the crypttab-aware initrd is built.
pub fn bootloader_phase(cfg: &Config, layout: &Layout) -> (r: Phase)
    ensures
        r@ == bootloader_phase_plan(cfg@, layout@),
{
    let mut s = no_steps();
    add_step(
        &mut s,
        Step::run_owned(
            "remove os-prober",
            cmd("apt-get").arg("purge").arg("-y").arg("os-prober"),
        ).chroot(),
    );
    add_step(
        &mut s,
        apt_install(
            "install grub + mirror packages in target",
            &boot_packages(cfg.boots_efi(), layout.boot_raid()),
        ).chroot(),
    );
    add_step(&mut s, boot_fstab_step(layout));
    if cfg.boots_efi() {
        add_steps(&mut s, bootloader_efi(layout));
    } else {
        add_steps(&mut s, bootloader_bios(layout));
    }
    if !layout.boot_raid() {
        add_steps(&mut s, boot_mirror_install_steps());
    }
    if cfg.install.serial_console {
        add_steps(&mut s, serial_console_steps());
    }
    add_step(&mut s, Step::run_owned("regenerate grub config", cmd("update-grub")).chroot());
    Phase::new(BOOTLOADER, s)
}

/// The steps of `bootloader_bios` for one disk.
pub open spec fn bootloader_bios_disk(d: Seq<char>) -> Seq<StepModel> {
    seq![run_step("install grub to "@ + d, seq!["grub-install"@].push("/dev/"@ + d)).chroot()]
}

/// The plan of `bootloader_bios`.
pub open spec fn bootloader_bios_plan(layout: LayoutModel) -> Seq<StepModel> {
    let devices = joined(headed("/dev/"@, layout.members), ", "@);
    let s = seq![
        sh_step(
            "preseed grub-pc install devices"@,
            "printf 'grub-pc grub-pc/install_devices multiselect "@ + devices
                + "\\n' | chroot /mnt debconf-set-selections"@,
        ),
    ];
    s + each(layout.members, |d: Seq<char>| bootloader_bios_disk(d))
}

/// Preseeds grub-pc's install devices, so that it configures non-interactively now
/// and on upgrades, then installs grub to each member's mbr.
pub fn bootloader_bios(layout: &Layout) -> (r: Vec<Step>)
    ensures
        models(r@) == bootloader_bios_plan(layout@),
{
    let mut s = no_steps();
    let devices_text = join(&head_all("/dev/", &layout.members), ", ");
    let devices = devices_text.as_str();
    add_step(
        &mut s,
        Step::sh(
            "preseed grub-pc install devices",
            "printf 'grub-pc grub-pc/install_devices multiselect ".to_owned().concat(devices)
                .concat("\\n' | chroot /mnt debconf-set-selections").as_str(),
        ),
    );
    let each_d = |d: &str| -> (s: Vec<Step>)
        ensures
            models(s@) == bootloader_bios_disk(d@),
    {
        let mut s = no_steps();
        add_step(
            &mut s,
            Step::run_owned(
                "install grub to ".to_owned().concat(d).as_str(),
                cmd("grub-install").arg("/dev/".to_owned().concat(d).as_str()),
            ).chroot(),
        );
        s
    };
    add_steps(
        &mut s,
        each_disk(&layout.members, each_d, Ghost(|d: Seq<char>| bootloader_bios_disk(d))),
    );
    s
}

/// The plan of `boot_mirror_sync_step`.
pub open spec fn boot_mirror_sync_step_plan() -> StepModel {
    run_step(
        "sync the boot mirrors"@,
        seq!["/usr/local/sbin/raiden"@].push("sync"@).push("boot"@).push("--yes"@),
    ).chroot()
}

/// One sync of the boot mirrors, after the final initrd exists: an earlier one would
/// ship an initrd that cannot unlock the root.
pub fn boot_mirror_sync_step() -> (r: Step)
    ensures
        r@ == boot_mirror_sync_step_plan(),
{
    Step::run_owned(
        "sync the boot mirrors",
        cmd("/usr/local/sbin/raiden").arg("sync").arg("boot").arg("--yes"),
    ).chroot()
}

/// The plan of `efi_mirror_sync_step`.
pub open spec fn efi_mirror_sync_step_plan() -> StepModel {
    run_step(
        "sync the esp mirrors"@,
        seq!["/usr/local/sbin/raiden"@].push("sync"@).push("efi"@).push("--yes"@),
    ).chroot()
}

/// One sync of the esp mirrors, once the binary that the grub.d hook calls is there.
pub fn efi_mirror_sync_step() -> (r: Step)
    ensures
        r@ == efi_mirror_sync_step_plan(),
{
    Step::run_owned(
        "sync the esp mirrors",
        cmd("/usr/local/sbin/raiden").arg("sync").arg("efi").arg("--yes"),
    ).chroot()
}

/// The plan of `boot_fstab_step`.
pub open spec fn boot_fstab_step_plan(layout: LayoutModel) -> StepModel {
    if layout.boot_raid() {
        write_step(
            "write the boot fstab entry"@,
            "/mnt/etc/fstab"@,
            "/dev/md/boot /boot ext4 defaults,nofail 0 2\n"@,
        )
    } else {
        let dev = first_or_empty(layout.boot_devices());
        sh_step(
            "write the boot fstab entry"@,
            "uuid=$(blkid -s UUID -o value "@ + dev
                + "); echo \"UUID=$uuid /boot ext4 defaults,nofail 0 2\" > /mnt/etc/fstab"@,
        )
    }
}

/// The /boot fstab entry: the md array, or the shared-uuid independent filesystem.
/// nofail keeps a missing /boot from dropping the boot into emergency.
pub fn boot_fstab_step(layout: &Layout) -> (r: Step)
    ensures
        r@ == boot_fstab_step_plan(layout@),
{
    if layout.boot_raid() {
        Step::write(
            "write the boot fstab entry",
            "/mnt/etc/fstab",
            "/dev/md/boot /boot ext4 defaults,nofail 0 2\n",
        )
    } else {
        let dev_text = first_of(&layout.boot_devices());
        let dev = dev_text.as_str();
        Step::sh(
            "write the boot fstab entry",
            "uuid=$(blkid -s UUID -o value ".to_owned().concat(dev)
                .concat("); echo \"UUID=$uuid /boot ext4 defaults,nofail 0 2\" > /mnt/etc/fstab")
                .as_str(),
        )
    }
}

/// The plan of `boot_mirror_install_steps`.
pub open spec fn boot_mirror_install_steps_plan() -> Seq<StepModel> {
    seq![
        run_step(
            "create the boot mirror hook dirs"@,
            seq!["mkdir"@].push("-p"@).push("/mnt/etc/kernel/postinst.d"@)
                .push("/mnt/etc/kernel/postrm.d"@),
        ),
        write_mode_step(
            "hook the boot mirror sync into kernel postinst.d"@,
            "/mnt/etc/kernel/postinst.d/"@ + BOOT_MIRROR_HOOK_NAME@,
            BOOT_MIRROR_HOOK_CONTENT@,
            0o755,
        ),
        write_mode_step(
            "hook the boot mirror sync into kernel postrm.d"@,
            "/mnt/etc/kernel/postrm.d/"@ + BOOT_MIRROR_HOOK_NAME@,
            BOOT_MIRROR_HOOK_CONTENT@,
            0o755,
        ),
    ]
}

/// The kernel hooks of the independent /boot. They run after zz-update-grub, so each
/// new kernel, initrd and grub.cfg reaches every disk's /boot.
pub fn boot_mirror_install_steps() -> (r: Vec<Step>)
    ensures
        models(r@) == boot_mirror_install_steps_plan(),
{
    let mut s = no_steps();
    add_step(
        &mut s,
        Step::run_owned(
            "create the boot mirror hook dirs",
            cmd("mkdir").arg("-p").arg(
                "/mnt/etc/kernel/postinst.d",
            ).arg("/mnt/etc/kernel/postrm.d"),
        ),
    );
    add_step(
        &mut s,
        Step::write_mode(
            "hook the boot mirror sync into kernel postinst.d",
            "/mnt/etc/kernel/postinst.d/".to_owned().concat(BOOT_MIRROR_HOOK_NAME).as_str(),
            BOOT_MIRROR_HOOK_CONTENT,
            0o755,
        ),
    );
    add_step(
        &mut s,
        Step::write_mode(
            "hook the boot mirror sync into kernel postrm.d",
            "/mnt/etc/kernel/postrm.d/".to_owned().concat(BOOT_MIRROR_HOOK_NAME).as_str(),
            BOOT_MIRROR_HOOK_CONTENT,
            0o755,
        ),
    );
    s
}

/// The plan of `serial_console_steps`.
pub open spec fn serial_console_steps_plan() -> Seq<StepModel> {
    seq![write_step("enable grub serial console"@, "/mnt/etc/default/grub.d/serial.cfg"@, GRUB_SERIAL_CFG@)].push(
        run_step(
            "enable a login on the serial console"@,
            seq!["systemctl"@].push("enable"@).push("serial-getty@ttyS0.service"@),
        ).chroot(),
    )
}

/// A serial console on the installed system.
pub fn serial_console_steps() -> (r: Vec<Step>)
    ensures
        models(r@) == serial_console_steps_plan(),
{
    let mut s = no_steps();
    add_step(
        &mut s,
        Step::write(
            "enable grub serial console",
            "/mnt/etc/default/grub.d/serial.cfg",
            GRUB_SERIAL_CFG,
        ),
    );
    add_step(
        &mut s,
        Step::run_owned(
            "enable a login on the serial console",
            cmd("systemctl").arg("enable").arg("serial-getty@ttyS0.service"),
        ).chroot(),
    );
    s
}

/// The steps of `bootloader_efi` for one disk.
pub open spec fn register_disk(d: Seq<char>) -> Seq<StepModel> {
    seq![run_step("register efi boot entry for "@ + d, register_words(d)).chroot()]
}

/// The plan of `bootloader_efi`.
pub open spec fn bootloader_efi_plan(layout: LayoutModel) -> Seq<StepModel> {
    let selections = debconf_text(debconf_keys());
    let s = seq![
        sh_step(
            "preseed grub-efi debconf"@,
            "printf '%s' '"@ + selections + "' | chroot /mnt debconf-set-selections"@,
        ),
    ];
    let s = s + grub_installs(true);
    let s = s + each(layout.members.reverse(), |d: Seq<char>| register_disk(d));
    let s = s.push(esp_fstab_step_plan(layout));
    s.push(
        write_mode_step(
            "install the esp mirror grub.d hook"@,
            EFI_MIRROR_HOOK_PATH@,
            EFI_MIRROR_WRAPPER@,
            0o755,
        ),
    )
}

/// Grub on the esp, a firmware entry per disk, the esp fstab entry, and the mirror
/// hook. The entries are registered in reverse, so that the first disk ends up first
/// in the firmware's boot menu.
pub fn bootloader_efi(layout: &Layout) -> (r: Vec<Step>)
    ensures
        models(r@) == bootloader_efi_plan(layout@),
{
    let mut s = no_steps();
    let selections_text = grub_debconf_selections();
    let selections = selections_text.as_str();
    add_step(
        &mut s,
        Step::sh(
            "preseed grub-efi debconf",
            "printf '%s' '".to_owned().concat(selections)
                .concat("' | chroot /mnt debconf-set-selections").as_str(),
        ),
    );
    add_steps(&mut s, grub_install_steps(true));
    let each_d = |d: &str| -> (s: Vec<Step>)
        ensures
            models(s@) == register_disk(d@),
    {
        let mut s = no_steps();
        add_step(
            &mut s,
            Step::run_owned(
                "register efi boot entry for ".to_owned().concat(d).as_str(),
                copy_texts(&register_argv(d)),
            ).chroot(),
        );
        s
    };
    add_steps(
        &mut s,
        each_disk(&reversed(&layout.members), each_d, Ghost(|d: Seq<char>| register_disk(d))),
    );
    add_step(&mut s, esp_fstab_step(layout));
    add_step(
        &mut s,
        Step::write_mode(
            "install the esp mirror grub.d hook",
            EFI_MIRROR_HOOK_PATH,
            EFI_MIRROR_WRAPPER,
            0o755,
        ),
    );
    s
}

/// The plan of `esp_fstab_step`.
pub open spec fn esp_fstab_step_plan(layout: LayoutModel) -> StepModel {
    let dev = first_or_empty(layout.esp_devices());
    sh_step(
        "add "@ + ESP_MOUNT@ + " to fstab"@,
        "uuid=$(blkid -s UUID -o value "@ + dev + "); echo \"UUID=$uuid "@ + ESP_MOUNT@ + " vfat "@
            + EFI_OPTS@ + ",nofail 0 0\" >> /mnt/etc/fstab"@,
    )
}

/// The esp fstab entry, by the uuid that every esp shares.
pub fn esp_fstab_step(layout: &Layout) -> (r: Step)
    ensures
        r@ == esp_fstab_step_plan(layout@),
{
    let dev_text = first_of(&layout.esp_devices());
    let dev = dev_text.as_str();
    Step::sh(
        "add ".to_owned().concat(ESP_MOUNT).concat(" to fstab").as_str(),
        "uuid=$(blkid -s UUID -o value ".to_owned().concat(dev).concat("); echo \"UUID=$uuid ")
            .concat(ESP_MOUNT).concat(" vfat ").concat(EFI_OPTS)
            .concat(",nofail 0 0\" >> /mnt/etc/fstab").as_str(),
    )
}

/// The plan of `close_phase`.
pub open spec fn close_phase_plan<S: Stack>(
    cfg: ConfigModel,
    layout: LayoutModel,
    stack: S,
) -> PhaseModel {
    PhaseModel { name: CLOSE@, steps: teardown_steps_plan(cfg, layout, stack) }
}

/// The phase that takes the mounted system down again.
pub fn close_phase<S: Stack>(cfg: &Config, layout: &Layout, stack: &S) -> (r: Phase)
    ensures
        r@ == close_phase_plan(cfg@, layout@, *stack),
{
    let mut s = no_steps();
    add_steps(&mut s, teardown_steps(cfg, layout, stack));
    Phase::new(CLOSE, s)
}

// ----------------------------------------------------------------------- laws

/// The names of a plan's phases, in order.
pub open spec fn names(plan: Seq<PhaseModel>) -> Seq<Seq<char>> {
    plan.map_values(|p: PhaseModel| p.name)
}

/// An install goes through the phases of `PHASES`, in that order: it takes down a
/// previous attempt before it repartitions, and straps before it binds.
pub proof fn install_follows_the_phases<S: Stack>(
    cfg: ConfigModel,
    layout: LayoutModel,
    stack: S,
    staging: Staging,
)
    ensures
        names(install_plan(cfg, layout, stack, staging)) == seq![
            APT@,
            PREPARE@,
            RESET@,
            PARTITION@,
            FORMAT@,
            MOUNT@,
            STRAP@,
            BIND@,
            INSTALL@,
            BOOTLOADER@,
            FINISH@,
            CLOSE@,
        ],
{
}

/// The reset before an install is the teardown that close performs.
pub proof fn reset_is_close<S: Stack>(cfg: ConfigModel, layout: LayoutModel, stack: S)
    ensures
        reset_phase_plan(
            cfg,
            layout,
            stack,
        ).steps.drop_last() == close_phase_plan(cfg, layout, stack).steps,
{
}

} // verus!
