//! dm-crypt~btrfs: per-disk dm-crypt with a multi-device btrfs filesystem on top.
//! Btrfs has its own raid and checksums, so the crypt layer usually runs without
//! aead integrity.
use vstd::prelude::*;
use vstd::string::*;

use super::{
    backup_luks_headers, backup_luks_headers_plan, crypt_close, crypt_close_disks,
    crypt_close_disks_plan, crypt_close_plan, crypt_initramfs_binaries, crypt_initramfs_list,
    crypt_open_disks, crypt_open_disks_plan, crypt_partition_root, crypt_partition_root_plan,
    crypttab_step, crypttab_step_plan, fstab_root_btrfs, fstab_root_btrfs_plan, install_keyutils,
    install_keyutils_plan, two_actions, update_initramfs, update_initramfs_plan, RecoverAction,
    RecoverModel, Stack,
};
use crate::config::{Config, ConfigModel, STACK_BTRFS};
use crate::layout::{first_of, first_or_empty, Layout, LayoutModel};
use crate::step::{
    add_step, add_steps, each, each_disk, models, no_steps, one_step, run_step, sh_step, Step,
    StepModel,
};
use crate::text::{cmd, join, joined, ArgList};

verus! {

/// The crypttab options of this stack's members. The initramfs flag pulls every
/// member into the initrd, so a multi-device root can unlock all its devices.
pub const CRYPTTAB_OPTS: &'static str = "luks,discard,initramfs,keyscript=decrypt_keyctl";

pub struct BtrfsStack;

/// The steps of `scrub` for one disk.
pub open spec fn scrub_device(dev: Seq<char>) -> Seq<StepModel> {
    seq![
        run_step(
            "scrub "@ + dev,
            seq!["btrfs"@].push("scrub"@).push("start"@).push("-B"@).push(dev),
        ).best_effort(),
    ]
}

/// The steps of `scrub` for one disk.
pub open spec fn reset_device_stats(held: Seq<char>) -> Seq<StepModel> {
    seq![
        run_step(
            "reset stats for "@ + held,
            seq!["btrfs"@].push("device"@).push("stats"@).push("-z"@).push(held),
        ),
    ]
}

/// The steps of `replace` for one disk.
pub open spec fn replace_disk(layout: LayoutModel, d: Seq<char>) -> Seq<StepModel> {
    let dev = layout.crypt_device(d);
    seq![
        run_step(
            "add "@ + dev + " to the volume"@,
            seq!["btrfs"@].push("device"@).push("add"@).push(dev).push("/"@),
        ),
        run_step(
            "remove the missing device"@,
            seq!["btrfs"@].push("device"@).push("remove"@).push("missing"@).push("/"@),
        ),
    ]
}

/// The steps of `remove` for one disk.
pub open spec fn remove_disk(layout: LayoutModel, d: Seq<char>) -> Seq<StepModel> {
    seq![crypt_close_plan(layout.crypt_name(d))]
}


impl Stack for BtrfsStack {
    open spec fn id_text(&self) -> Seq<char> {
        STACK_BTRFS@
    }

    fn id(&self) -> (r: &str) {
        STACK_BTRFS
    }

    open spec fn packages_list(&self) -> Seq<Seq<char>> {
        seq!["cryptsetup"@].push("cryptsetup-initramfs"@).push("btrfs-progs"@)
    }

    fn packages(&self) -> (r: Vec<String>) {
        cmd("cryptsetup").arg("cryptsetup-initramfs").arg("btrfs-progs")
    }

    open spec fn partition_root_plan(
        &self,
        cfg: ConfigModel,
        layout: LayoutModel,
    ) -> Seq<StepModel> {
        crypt_partition_root_plan(cfg, layout)
    }

    fn partition_root(&self, cfg: &Config, layout: &Layout) -> (r: Vec<Step>)
    {
        crypt_partition_root(cfg, layout)
    }

    open spec fn format_root_plan(&self, cfg: ConfigModel, layout: LayoutModel) -> Seq<StepModel> {
        let csum = cfg.btrfs_csum;
        seq![
            run_step(
                "create btrfs (data "@ + cfg.raid.level + ", metadata "@ + cfg.metadata_level()
                    + ", csum "@ + csum + ")"@,
                (
                    seq!["mkfs.btrfs"@].push("-f"@).push("--csum"@).push(csum).push("-m"@)
                        .push(cfg.metadata_level()).push("-d"@).push(cfg.raid.level)
                        + layout.crypt_devices()
                ),
            ),
        ]
    }

    fn format_root(&self, cfg: &Config, layout: &Layout) -> (r: Vec<Step>)
    {
        let mut s = no_steps();
        let csum_text = cfg.btrfs.csum.clone();
        let csum = csum_text.as_str();
        add_step(
            &mut s,
            Step::run_owned(
                "create btrfs (data ".to_owned().concat(cfg.raid.level.as_str())
                    .concat(", metadata ").concat(cfg.metadata_level()).concat(", csum ")
                    .concat(csum).concat(")").as_str(),
                cmd("mkfs.btrfs").arg("-f").arg("--csum").arg(csum).arg("-m")
                    .arg(cfg.metadata_level()).arg("-d").arg(cfg.raid.level.as_str())
                    .args(&layout.crypt_devices()),
            ),
        );
        s
    }

    open spec fn mount_root_plan(&self, cfg: ConfigModel, layout: LayoutModel) -> Seq<StepModel> {
        let dev = first_or_empty(layout.crypt_devices());
        seq![
            run_step("mount btrfs root at /mnt"@, seq!["mount"@].push(dev).push("/mnt"@)),
            run_step(
                "balance the new array"@,
                seq!["btrfs"@].push("balance"@).push("start"@).push(
                    "--full-balance"@,
                ).push("/mnt"@),
            ),
            run_step(
                "scrub the new array"@,
                seq!["btrfs"@].push("scrub"@).push("start"@).push("-B"@).push("/mnt"@),
            ),
        ]
    }

    fn mount_root(&self, cfg: &Config, layout: &Layout) -> (r: Vec<Step>)
    {
        let mut s = no_steps();
        let dev_text = first_of(&layout.crypt_devices());
        let dev = dev_text.as_str();
        add_step(
            &mut s,
            Step::run_owned("mount btrfs root at /mnt", cmd("mount").arg(dev).arg("/mnt")),
        );
        add_step(
            &mut s,
            Step::run_owned(
                "balance the new array",
                cmd("btrfs").arg("balance").arg("start").arg("--full-balance").arg("/mnt"),
            ),
        );
        add_step(
            &mut s,
            Step::run_owned(
                "scrub the new array",
                cmd("btrfs").arg("scrub").arg("start").arg("-B").arg("/mnt"),
            ),
        );
        s
    }

    open spec fn finish_plan(&self, cfg: ConfigModel, layout: LayoutModel) -> Seq<StepModel> {
        let s = seq![
            install_keyutils_plan(),
            crypttab_step_plan(layout, CRYPTTAB_OPTS@, "/mnt/etc/crypttab"@),
        ];
        let s = s + backup_luks_headers_plan(layout, "/mnt/boot"@);
        let s = s.push(fstab_root_btrfs_plan(layout));
        s.push(update_initramfs_plan())
    }

    fn finish(&self, cfg: &Config, layout: &Layout) -> (r: Vec<Step>)
    {
        let mut s = no_steps();
        add_step(&mut s, install_keyutils());
        add_step(&mut s, crypttab_step(layout, CRYPTTAB_OPTS, "/mnt/etc/crypttab"));
        add_steps(&mut s, backup_luks_headers(layout, "/mnt/boot"));
        add_step(&mut s, fstab_root_btrfs(layout));
        add_step(&mut s, update_initramfs());
        s
    }

    open spec fn map_plan(&self, cfg: ConfigModel, layout: LayoutModel) -> Seq<StepModel> {
        crypt_open_disks_plan(layout)
    }

    fn map(&self, cfg: &Config, layout: &Layout) -> (r: Vec<Step>)
    {
        crypt_open_disks(layout)
    }

    open spec fn status_plan(&self, cfg: ConfigModel, layout: LayoutModel) -> Seq<StepModel> {
        seq![
            run_step(
                "btrfs filesystem"@,
                seq!["btrfs"@].push("filesystem"@).push("show"@).push("/"@),
            ).best_effort(),
            run_step(
                "btrfs device stats"@,
                seq!["btrfs"@].push("device"@).push("stats"@).push("/"@),
            ).best_effort(),
            run_step(
                "btrfs scrub status"@,
                seq!["btrfs"@].push("scrub"@).push("status"@).push("-d"@).push("/"@),
            ).best_effort(),
            sh_step(
                "checksum errors from the kernel ring buffer"@,
                "dmesg -c | grep \"checksum error at\" | grep \"(path:\" | sed -n -r 's#.*BTRFS.*i/o error.*path: (.*)\\)#\\1#p' || true"@,
            ),
        ]
    }

    fn status(&self, cfg: &Config, layout: &Layout) -> (r: Vec<Step>)
    {
        let mut s = no_steps();
        add_step(
            &mut s,
            Step::run_owned(
                "btrfs filesystem",
                cmd("btrfs").arg("filesystem").arg("show").arg("/"),
            ).best_effort(),
        );
        add_step(
            &mut s,
            Step::run_owned(
                "btrfs device stats",
                cmd("btrfs").arg("device").arg("stats").arg("/"),
            ).best_effort(),
        );
        add_step(
            &mut s,
            Step::run_owned(
                "btrfs scrub status",
                cmd("btrfs").arg("scrub").arg("status").arg("-d").arg("/"),
            ).best_effort(),
        );
        add_step(
            &mut s,
            Step::sh(
                "checksum errors from the kernel ring buffer",
                "dmesg -c | grep \"checksum error at\" | grep \"(path:\" | sed -n -r 's#.*BTRFS.*i/o error.*path: (.*)\\)#\\1#p' || true",
            ),
        );
        s
    }

    open spec fn scrub_plan(&self, cfg: ConfigModel, layout: LayoutModel) -> Seq<StepModel> {
        let s = each(layout.crypt_devices(), |dev: Seq<char>| scrub_device(dev));
        s + each(layout.crypt_devices(), |held: Seq<char>| reset_device_stats(held))
    }

    fn scrub(&self, cfg: &Config, layout: &Layout) -> (r: Vec<Step>)
    {
        let mut s = no_steps();
        let each_dev = |dev: &str| -> (s: Vec<Step>)
            ensures
                models(s@) == scrub_device(dev@),
        {
            let mut s = no_steps();
            add_step(
                &mut s,
                Step::run_owned(
                    "scrub ".to_owned().concat(dev).as_str(),
                    cmd("btrfs").arg("scrub").arg("start").arg("-B").arg(dev),
                ).best_effort(),
            );
            s
        };
        add_steps(
            &mut s,
            each_disk(&layout.crypt_devices(), each_dev, Ghost(|dev: Seq<char>| scrub_device(dev))),
        );
        let each_held = |held: &str| -> (s: Vec<Step>)
            ensures
                models(s@) == reset_device_stats(held@),
        {
            let mut s = no_steps();
            add_step(
                &mut s,
                Step::run_owned(
                    "reset stats for ".to_owned().concat(held).as_str(),
                    cmd("btrfs").arg("device").arg("stats").arg("-z").arg(held),
                ),
            );
            s
        };
        add_steps(
            &mut s,
            each_disk(
                &layout.crypt_devices(),
                each_held,
                Ghost(|held: Seq<char>| reset_device_stats(held)),
            ),
        );
        s
    }

    open spec fn replace_plan(
        &self,
        cfg: ConfigModel,
        layout: LayoutModel,
        disks: Seq<Seq<char>>,
    ) -> Seq<StepModel> {
        let s = each(disks, |d: Seq<char>| replace_disk(layout, d));
        s.push(
            run_step(
                "rebalance onto the new raid profile"@,
                seq!["btrfs"@].push("balance"@).push("start"@)
                    .push("-dconvert="@ + cfg.raid.level + ",soft"@)
                    .push("-mconvert="@ + cfg.metadata_level() + ",soft"@).push("/"@),
            ),
        )
    }

    fn replace(&self, cfg: &Config, layout: &Layout, disks: &Vec<String>) -> (r: Vec<Step>)
    {
        let mut s = no_steps();
        let each_d = |d: &str| -> (s: Vec<Step>)
            ensures
                models(s@) =~= replace_disk(layout@, d@),
        {
            let mut s = no_steps();
            let dev_text = layout.crypt_device(d);
            let dev = dev_text.as_str();
            add_step(
                &mut s,
                Step::run_owned(
                    "add ".to_owned().concat(dev).concat(" to the volume").as_str(),
                    cmd("btrfs").arg("device").arg("add").arg(dev).arg("/"),
                ),
            );
            add_step(
                &mut s,
                Step::run_owned(
                    "remove the missing device",
                    cmd("btrfs").arg("device").arg("remove").arg("missing").arg("/"),
                ),
            );
            s
        };
        add_steps(&mut s, each_disk(disks, each_d, Ghost(|d: Seq<char>| replace_disk(layout@, d))));
        add_step(
            &mut s,
            Step::run_owned(
                "rebalance onto the new raid profile",
                cmd("btrfs").arg("balance").arg("start")
                    .arg(
                        "-dconvert=".to_owned().concat(cfg.raid.level.as_str()).concat(",soft")
                            .as_str(),
                    )
                    .arg(
                        "-mconvert=".to_owned().concat(cfg.metadata_level()).concat(",soft")
                            .as_str(),
                    )
                    .arg("/"),
            ),
        );
        s
    }

    open spec fn remove_plan(
        &self,
        cfg: ConfigModel,
        layout: LayoutModel,
        disks: Seq<Seq<char>>,
    ) -> Seq<StepModel> {
        each(disks, |d: Seq<char>| remove_disk(layout, d))
    }

    fn remove(&self, cfg: &Config, layout: &Layout, disks: &Vec<String>) -> (r: Vec<Step>)
    {
        let each_d = |d: &str| -> (s: Vec<Step>)
            ensures
                models(s@) == remove_disk(layout@, d@),
        {
            let mut s = no_steps();
            add_step(&mut s, crypt_close(layout.crypt_name(d).as_str()));
            s
        };
        each_disk(disks, each_d, Ghost(|d: Seq<char>| remove_disk(layout@, d)))
    }

    open spec fn close_plan(&self, cfg: ConfigModel, layout: LayoutModel) -> Seq<StepModel> {
        let s = seq![run_step("unmount /mnt"@, seq!["umount"@].push("/mnt"@)).best_effort()];
        s + crypt_close_disks_plan(layout)
    }

    fn close(&self, cfg: &Config, layout: &Layout) -> (r: Vec<Step>)
    {
        let mut s = no_steps();
        add_step(&mut s, Step::run_owned("unmount /mnt", cmd("umount").arg("/mnt")).best_effort());
        add_steps(&mut s, crypt_close_disks(layout));
        s
    }

    open spec fn recover_actions_plan(
        &self,
        cfg: ConfigModel,
        layout: LayoutModel,
        at: Seq<char>,
    ) -> Seq<RecoverModel> {
        let label = "mount the btrfs root (degraded) at "@ + at;
        let script = "for d in "@ + joined(layout.crypt_devices(), " "@)
            + "; do mount -o degraded \"$d\" "@ + at + " 2>/dev/null && break; done"@;
        seq![
            RecoverModel {
                label: "scan btrfs devices"@,
                steps: seq![
                    sh_step(
                        "scan btrfs devices"@,
                        "btrfs device scan 2>/dev/null || true"@,
                    ).best_effort(),
                ],
            },
            RecoverModel { label, steps: seq![sh_step(label, script)] },
        ]
    }

    /// A multi-device root with a faulty member refuses to mount, and needs a degraded
    /// mount from a surviving crypt device.
    fn recover_actions(&self, cfg: &Config, layout: &Layout, at: &str) -> (r: Vec<RecoverAction>) {
        let label = "mount the btrfs root (degraded) at ".to_owned().concat(at);
        let script = "for d in ".to_owned().concat(join(&layout.crypt_devices(), " ").as_str()).concat(
            "; do mount -o degraded \"$d\" ",
        ).concat(at).concat(" 2>/dev/null && break; done");
        let scan = one_step(
            Step::sh("scan btrfs devices", "btrfs device scan 2>/dev/null || true").best_effort(),
        );
        let mount = one_step(Step::sh(label.as_str(), script.as_str()));
        two_actions(
            RecoverAction::new("scan btrfs devices", scan),
            RecoverAction::new(label.as_str(), mount),
        )
    }

    open spec fn crypttab_regen_plan(&self, layout: LayoutModel) -> Option<StepModel> {
        Some(crypttab_step_plan(layout, CRYPTTAB_OPTS@, "/etc/crypttab"@))
    }

    fn crypttab_regen(&self, layout: &Layout) -> (r: Option<Step>) {
        Some(crypttab_step(layout, CRYPTTAB_OPTS, "/etc/crypttab"))
    }

    open spec fn initramfs_list(&self) -> Seq<Seq<char>> {
        crypt_initramfs_list().push("btrfs"@)
    }

    fn initramfs_binaries(&self) -> (r: Vec<String>) {
        crypt_initramfs_binaries().arg("btrfs")
    }

    open spec fn backports_pins_text(&self, release: Seq<char>) -> Option<Seq<char>> {
        None
    }

    fn backports_pins(&self, release: &str) -> (r: Option<String>) {
        None
    }

    open spec fn host_prereqs_plan(&self) -> Seq<StepModel> {
        Seq::<StepModel>::empty()
    }

    fn host_prereqs(&self) -> (r: Vec<Step>)
    {
        no_steps()
    }

    open spec fn host_packages_list(&self) -> Seq<Seq<char>> {
        self.packages_list()
    }

    fn host_packages(&self) -> (r: Vec<String>) {
        self.packages()
    }

    open spec fn apt_repos_plan(&self, cfg: ConfigModel, root: Seq<char>) -> Seq<StepModel> {
        Seq::<StepModel>::empty()
    }

    fn apt_repos(&self, cfg: &Config, root: &str) -> (r: Vec<Step>)
    {
        no_steps()
    }
}

} // verus!
