//! dm-crypt~zfs: per-disk dm-crypt with a zfs pool (rpool) on top. The pool is
//! created with an altroot, so its root dataset mounts at /mnt during install.
use vstd::prelude::*;
use vstd::string::*;

use super::{
    backup_luks_headers, backup_luks_headers_plan, crypt_close, crypt_close_disks,
    crypt_close_disks_plan, crypt_close_plan, crypt_initramfs_binaries, crypt_initramfs_list,
    crypt_open_disks, crypt_open_disks_plan, crypt_partition_root, crypt_partition_root_plan,
    crypttab_step, crypttab_step_plan, two_actions, update_initramfs, update_initramfs_plan,
    RecoverAction, RecoverModel, Stack,
};
use crate::config::{Config, ConfigModel, STACK_ZFS};
use crate::layout::{Layout, LayoutModel, ZPOOL_NAME};
use crate::step::{
    add_step, add_steps, each, each_disk, models, no_steps, one_step, run_step, sh_step, write_step,
    Step, StepModel,
};
use crate::text::{cmd, ArgList};

verus! {

pub const ROOT_DATASET: &'static str = "rpool/ROOT/debian";

/// The crypttab options of this stack's members, at install and on a rewrite.
pub const CRYPTTAB_OPTS: &'static str = "luks,discard,initramfs,keyscript=decrypt_keyctl";

pub struct ZfsStack;

/// The steps of `replace` for one disk.
pub open spec fn replace_disk(layout: LayoutModel, d: Seq<char>) -> Seq<StepModel> {
    let dev = layout.crypt_device(d);
    seq![
        run_step(
            "replace the vdev at "@ + dev,
            seq!["zpool"@].push("replace"@).push("-f"@).push(ZPOOL_NAME@).push(dev),
        ),
    ]
}

/// The steps of `remove` for one disk.
pub open spec fn remove_disk(layout: LayoutModel, d: Seq<char>) -> Seq<StepModel> {
    let dev = layout.crypt_device(d);
    seq![
        run_step(
            "offline the vdev at "@ + dev,
            seq!["zpool"@].push("offline"@).push(ZPOOL_NAME@).push(dev),
        ).best_effort(),
        crypt_close_plan(layout.crypt_name(d)),
    ]
}


impl Stack for ZfsStack {
    open spec fn id_text(&self) -> Seq<char> {
        STACK_ZFS@
    }

    fn id(&self) -> (r: &str) {
        STACK_ZFS
    }

    open spec fn packages_list(&self) -> Seq<Seq<char>> {
        seq!["cryptsetup"@].push("cryptsetup-initramfs"@).push("linux-headers-amd64"@)
            .push("zfs-dkms"@).push("zfsutils-linux"@)
    }

    fn packages(&self) -> (r: Vec<String>) {
        cmd("cryptsetup").arg("cryptsetup-initramfs").arg("linux-headers-amd64").arg("zfs-dkms")
            .arg("zfsutils-linux")
    }

    open spec fn host_prereqs_plan(&self) -> Seq<StepModel> {
        seq![
            sh_step(
                "install running-kernel headers on host (zfs-dkms)"@,
                "env DEBIAN_FRONTEND=noninteractive apt-get install -y \"linux-headers-$(uname -r)\""@,
            ),
        ]
    }

    /// zfs-dkms builds against installed kernel headers; on the livecd those must match
    /// the running kernel, not the target's.
    fn host_prereqs(&self) -> (r: Vec<Step>)
    {
        let mut s = no_steps();
        add_step(
            &mut s,
            Step::sh(
                "install running-kernel headers on host (zfs-dkms)",
                "env DEBIAN_FRONTEND=noninteractive apt-get install -y \"linux-headers-$(uname -r)\"",
            ),
        );
        s
    }

    open spec fn host_packages_list(&self) -> Seq<Seq<char>> {
        seq!["cryptsetup"@].push("cryptsetup-initramfs"@).push("zfs-dkms"@).push("zfsutils-linux"@)
    }

    /// Without the target kernel's headers: the running kernel's are a prerequisite.
    fn host_packages(&self) -> (r: Vec<String>) {
        cmd("cryptsetup").arg("cryptsetup-initramfs").arg("zfs-dkms").arg("zfsutils-linux")
    }

    open spec fn partition_root_plan(
        &self,
        cfg: ConfigModel,
        layout: LayoutModel,
    ) -> Seq<StepModel> {
        crypt_partition_root_plan(cfg, layout)
    }

    fn partition_root(&self, cfg: &Config, layout: &Layout) -> (r: Vec<Step>)
    {
        crypt_partition_root(cfg, layout)
    }

    open spec fn format_root_plan(&self, cfg: ConfigModel, layout: LayoutModel) -> Seq<StepModel> {
        seq![
            run_step("load the zfs module"@, seq!["modprobe"@].push("zfs"@)),
            run_step(
                "create zpool "@ + ZPOOL_NAME@ + " ("@ + cfg.raid.level + ")"@,
                seq!["zpool"@].push("create"@).push("-f"@).push("-o"@).push("ashift=12"@).push(
                    "-O"@,
                ).push("acltype=posixacl"@).push("-O"@).push("canmount=off"@).push("-O"@).push(
                    "compression=lz4"@,
                ).push("-O"@).push("dnodesize=auto"@).push("-O"@).push("normalization=formD"@).push(
                    "-O"@,
                ).push("relatime=on"@).push("-O"@).push("xattr=sa"@).push("-O"@).push(
                    "mountpoint=/"@,
                ).push("-R"@).push("/mnt"@).push(ZPOOL_NAME@).push(cfg.raid.level)
                    + layout.crypt_devices(),
            ),
            run_step(
                "create the ROOT container dataset"@,
                seq!["zfs"@].push("create"@).push("-o"@).push("canmount=off"@).push("-o"@).push(
                    "mountpoint=none"@,
                ).push("rpool/ROOT"@),
            ),
            run_step(
                "create the debian root dataset"@,
                seq!["zfs"@].push("create"@).push("-o"@).push("canmount=noauto"@).push("-o"@).push(
                    "mountpoint=/"@,
                ).push(ROOT_DATASET@),
            ),
            run_step(
                "mount the root dataset"@,
                seq!["zfs"@].push("mount"@).push(ROOT_DATASET@),
            ),
        ]
    }

    fn format_root(&self, cfg: &Config, layout: &Layout) -> (r: Vec<Step>)
    {
        let mut s = no_steps();
        add_step(&mut s, Step::run_owned("load the zfs module", cmd("modprobe").arg("zfs")));
        add_step(
            &mut s,
            Step::run_owned(
                "create zpool ".to_owned().concat(ZPOOL_NAME).concat(" (")
                    .concat(cfg.raid.level.as_str()).concat(")").as_str(),
                cmd("zpool").arg("create").arg("-f").arg("-o").arg("ashift=12").arg("-O")
                    .arg("acltype=posixacl").arg("-O").arg("canmount=off").arg("-O")
                    .arg("compression=lz4").arg("-O").arg("dnodesize=auto").arg("-O")
                    .arg("normalization=formD").arg("-O").arg("relatime=on").arg("-O")
                    .arg("xattr=sa").arg("-O").arg("mountpoint=/").arg("-R").arg("/mnt")
                    .arg(ZPOOL_NAME).arg(cfg.raid.level.as_str()).args(&layout.crypt_devices()),
            ),
        );
        add_step(
            &mut s,
            Step::run_owned(
                "create the ROOT container dataset",
                cmd("zfs").arg("create").arg("-o").arg("canmount=off").arg("-o")
                    .arg("mountpoint=none").arg("rpool/ROOT"),
            ),
        );
        add_step(
            &mut s,
            Step::run_owned(
                "create the debian root dataset",
                cmd("zfs").arg("create").arg("-o").arg("canmount=noauto").arg("-o")
                    .arg("mountpoint=/").arg(ROOT_DATASET),
            ),
        );
        add_step(
            &mut s,
            Step::run_owned("mount the root dataset", cmd("zfs").arg("mount").arg(ROOT_DATASET)),
        );
        s
    }

    open spec fn mount_root_plan(&self, cfg: ConfigModel, layout: LayoutModel) -> Seq<StepModel> {
        seq![run_step("wait for the root dataset"@, seq!["zfs"@].push("wait"@).push(ROOT_DATASET@))]
    }

    fn mount_root(&self, cfg: &Config, layout: &Layout) -> (r: Vec<Step>)
    {
        let mut s = no_steps();
        add_step(
            &mut s,
            Step::run_owned("wait for the root dataset", cmd("zfs").arg("wait").arg(ROOT_DATASET)),
        );
        s
    }

    open spec fn finish_plan(&self, cfg: ConfigModel, layout: LayoutModel) -> Seq<StepModel> {
        let s = seq![
            run_step(
                "install zfs initramfs support and keyutils in target"@,
                seq!["apt-get"@].push("install"@).push("-y"@).push("zfs-initramfs"@)
                    .push("keyutils"@),
            ).chroot(),
            crypttab_step_plan(layout, CRYPTTAB_OPTS@, "/mnt/etc/crypttab"@),
        ];
        let s = s + backup_luks_headers_plan(layout, "/mnt/boot"@);
        let s = s.push(
            write_step(
                "force the zfs initrd to be rebuilt by dkms"@,
                "/mnt/etc/dkms/zfs.conf"@,
                "REMAKE_INITRD=yes\n"@,
            ),
        );
        let s = s.push(
            write_step(
                "point grub at the zfs root dataset"@,
                "/mnt/etc/default/grub.d/zfs.cfg"@,
                "GRUB_CMDLINE_LINUX=\"root=ZFS=rpool/ROOT/debian\"\n"@,
            ),
        );
        let s = s.push(run_step("regenerate grub config"@, seq!["update-grub"@]).chroot());
        s.push(update_initramfs_plan())
    }

    fn finish(&self, cfg: &Config, layout: &Layout) -> (r: Vec<Step>)
    {
        let mut s = no_steps();
        add_step(
            &mut s,
            Step::run_owned(
                "install zfs initramfs support and keyutils in target",
                cmd("apt-get").arg("install").arg("-y").arg("zfs-initramfs").arg("keyutils"),
            ).chroot(),
        );
        add_step(&mut s, crypttab_step(layout, CRYPTTAB_OPTS, "/mnt/etc/crypttab"));
        add_steps(&mut s, backup_luks_headers(layout, "/mnt/boot"));
        add_step(
            &mut s,
            Step::write(
                "force the zfs initrd to be rebuilt by dkms",
                "/mnt/etc/dkms/zfs.conf",
                "REMAKE_INITRD=yes\n",
            ),
        );
        add_step(
            &mut s,
            Step::write(
                "point grub at the zfs root dataset",
                "/mnt/etc/default/grub.d/zfs.cfg",
                "GRUB_CMDLINE_LINUX=\"root=ZFS=rpool/ROOT/debian\"\n",
            ),
        );
        add_step(&mut s, Step::run_owned("regenerate grub config", cmd("update-grub")).chroot());
        add_step(&mut s, update_initramfs());
        s
    }

    open spec fn map_plan(&self, cfg: ConfigModel, layout: LayoutModel) -> Seq<StepModel> {
        let s = crypt_open_disks_plan(layout);
        let s = s.push(run_step("load the zfs module"@, seq!["modprobe"@].push("zfs"@)));
        let s = s.push(
            run_step(
                "import the pool under /mnt"@,
                seq!["zpool"@].push("import"@).push("-f"@).push("-N"@).push("-R"@).push("/mnt"@)
                    .push(ZPOOL_NAME@),
            ),
        );
        s.push(
            run_step("mount the root dataset"@, seq!["zfs"@].push("mount"@).push(ROOT_DATASET@)),
        )
    }

    fn map(&self, cfg: &Config, layout: &Layout) -> (r: Vec<Step>)
    {
        let mut s = no_steps();
        add_steps(&mut s, crypt_open_disks(layout));
        add_step(&mut s, Step::run_owned("load the zfs module", cmd("modprobe").arg("zfs")));
        add_step(
            &mut s,
            Step::run_owned(
                "import the pool under /mnt",
                cmd("zpool").arg("import").arg("-f").arg("-N").arg("-R").arg("/mnt").arg(
                    ZPOOL_NAME,
                ),
            ),
        );
        add_step(
            &mut s,
            Step::run_owned("mount the root dataset", cmd("zfs").arg("mount").arg(ROOT_DATASET)),
        );
        s
    }

    open spec fn status_plan(&self, cfg: ConfigModel, layout: LayoutModel) -> Seq<StepModel> {
        seq![
            run_step(
                "zpool status"@,
                seq!["zpool"@].push("status"@).push("-v"@).push(ZPOOL_NAME@),
            ).best_effort(),
        ]
    }

    fn status(&self, cfg: &Config, layout: &Layout) -> (r: Vec<Step>)
    {
        let mut s = no_steps();
        add_step(
            &mut s,
            Step::run_owned(
                "zpool status",
                cmd("zpool").arg("status").arg("-v").arg(ZPOOL_NAME),
            ).best_effort(),
        );
        s
    }

    open spec fn scrub_plan(&self, cfg: ConfigModel, layout: LayoutModel) -> Seq<StepModel> {
        seq![
            run_step(
                "scrub the pool"@,
                seq!["zpool"@].push("scrub"@).push("-w"@).push(ZPOOL_NAME@),
            ),
        ].push(run_step("clear pool errors"@, seq!["zpool"@].push("clear"@).push(ZPOOL_NAME@)))
    }

    fn scrub(&self, cfg: &Config, layout: &Layout) -> (r: Vec<Step>)
    {
        let mut s = no_steps();
        add_step(
            &mut s,
            Step::run_owned("scrub the pool", cmd("zpool").arg("scrub").arg("-w").arg(ZPOOL_NAME)),
        );
        add_step(
            &mut s,
            Step::run_owned("clear pool errors", cmd("zpool").arg("clear").arg(ZPOOL_NAME)),
        );
        s
    }

    open spec fn replace_plan(
        &self,
        cfg: ConfigModel,
        layout: LayoutModel,
        disks: Seq<Seq<char>>,
    ) -> Seq<StepModel> {
        let s = each(disks, |d: Seq<char>| replace_disk(layout, d));
        s.push(
            run_step("wait for the resilver"@, seq!["zpool"@].push("wait"@).push(ZPOOL_NAME@)),
        )
    }

    /// Removing a disk offlined its vdev, and partitioning recreated a fresh luks device
    /// at the same path; the single-argument replace resilvers onto it.
    fn replace(&self, cfg: &Config, layout: &Layout, disks: &Vec<String>) -> (r: Vec<Step>)
    {
        let mut s = no_steps();
        let each_d = |d: &str| -> (s: Vec<Step>)
            ensures
                models(s@) == replace_disk(layout@, d@),
        {
            let mut s = no_steps();
            let dev_text = layout.crypt_device(d);
            let dev = dev_text.as_str();
            add_step(
                &mut s,
                Step::run_owned(
                    "replace the vdev at ".to_owned().concat(dev).as_str(),
                    cmd("zpool").arg("replace").arg("-f").arg(ZPOOL_NAME).arg(dev),
                ),
            );
            s
        };
        add_steps(&mut s, each_disk(disks, each_d, Ghost(|d: Seq<char>| replace_disk(layout@, d))));
        add_step(
            &mut s,
            Step::run_owned("wait for the resilver", cmd("zpool").arg("wait").arg(ZPOOL_NAME)),
        );
        s
    }

    open spec fn remove_plan(
        &self,
        cfg: ConfigModel,
        layout: LayoutModel,
        disks: Seq<Seq<char>>,
    ) -> Seq<StepModel> {
        each(disks, |d: Seq<char>| remove_disk(layout, d))
    }

    fn remove(&self, cfg: &Config, layout: &Layout, disks: &Vec<String>) -> (r: Vec<Step>)
    {
        let each_d = |d: &str| -> (s: Vec<Step>)
            ensures
                models(s@) =~= remove_disk(layout@, d@),
        {
            let mut s = no_steps();
            let dev_text = layout.crypt_device(d);
            let dev = dev_text.as_str();
            add_step(
                &mut s,
                Step::run_owned(
                    "offline the vdev at ".to_owned().concat(dev).as_str(),
                    cmd("zpool").arg("offline").arg(ZPOOL_NAME).arg(dev),
                ).best_effort(),
            );
            add_step(&mut s, crypt_close(layout.crypt_name(d).as_str()));
            s
        };
        each_disk(disks, each_d, Ghost(|d: Seq<char>| remove_disk(layout@, d)))
    }

    open spec fn crypttab_regen_plan(&self, layout: LayoutModel) -> Option<StepModel> {
        Some(crypttab_step_plan(layout, CRYPTTAB_OPTS@, "/etc/crypttab"@))
    }

    fn crypttab_regen(&self, layout: &Layout) -> (r: Option<Step>) {
        Some(crypttab_step(layout, CRYPTTAB_OPTS, "/etc/crypttab"))
    }

    open spec fn initramfs_list(&self) -> Seq<Seq<char>> {
        crypt_initramfs_list().push("zpool"@).push("zfs"@)
    }

    fn initramfs_binaries(&self) -> (r: Vec<String>) {
        crypt_initramfs_binaries().arg("zpool").arg("zfs")
    }

    open spec fn recover_actions_plan(
        &self,
        cfg: ConfigModel,
        layout: LayoutModel,
        at: Seq<char>,
    ) -> Seq<RecoverModel> {
        seq![
            RecoverModel {
                label: "import the zfs pool (forced)"@,
                steps: seq![
                    run_step("load the zfs module"@, seq!["modprobe"@].push("zfs"@)).best_effort(),
                ].push(
                    run_step(
                        "import "@ + ZPOOL_NAME@ + " under "@ + at,
                        seq!["zpool"@].push("import"@).push("-f"@).push("-N"@).push("-R"@).push(at)
                            .push(ZPOOL_NAME@),
                    ).best_effort(),
                ),
            },
            RecoverModel {
                label: "mount the root dataset at "@ + at,
                steps: seq![
                    run_step(
                        "mount "@ + ROOT_DATASET@,
                        seq!["zfs"@].push("mount"@).push(ROOT_DATASET@),
                    ),
                ],
            },
        ]
    }

    /// Zfs imports and mounts degraded by itself; this is for the case that it stalled.
    fn recover_actions(&self, cfg: &Config, layout: &Layout, at: &str) -> (r: Vec<RecoverAction>) {
        let mut import = one_step(
            Step::run_owned("load the zfs module", cmd("modprobe").arg("zfs")).best_effort(),
        );
        add_step(
            &mut import,
            Step::run_owned(
                "import ".to_owned().concat(ZPOOL_NAME).concat(" under ").concat(at).as_str(),
                cmd("zpool").arg("import").arg("-f").arg("-N").arg("-R").arg(at).arg(ZPOOL_NAME),
            ).best_effort(),
        );
        let mount = one_step(
            Step::run_owned(
                "mount ".to_owned().concat(ROOT_DATASET).as_str(),
                cmd("zfs").arg("mount").arg(ROOT_DATASET),
            ),
        );
        two_actions(
            RecoverAction::new("import the zfs pool (forced)", import),
            RecoverAction::new("mount the root dataset at ".to_owned().concat(at).as_str(), mount),
        )
    }

    open spec fn close_plan(&self, cfg: ConfigModel, layout: LayoutModel) -> Seq<StepModel> {
        let s = seq![
            run_step("unmount /mnt"@, seq!["umount"@].push("/mnt"@)).best_effort(),
            run_step("export all pools"@, seq!["zpool"@].push("export"@).push("-a"@)).best_effort(),
            run_step(
                "destroy the pool"@,
                seq!["zpool"@].push("destroy"@).push(ZPOOL_NAME@),
            ).best_effort(),
        ];
        s + crypt_close_disks_plan(layout)
    }

    fn close(&self, cfg: &Config, layout: &Layout) -> (r: Vec<Step>)
    {
        let mut s = no_steps();
        add_step(&mut s, Step::run_owned("unmount /mnt", cmd("umount").arg("/mnt")).best_effort());
        add_step(
            &mut s,
            Step::run_owned("export all pools", cmd("zpool").arg("export").arg("-a")).best_effort(),
        );
        add_step(
            &mut s,
            Step::run_owned(
                "destroy the pool",
                cmd("zpool").arg("destroy").arg(ZPOOL_NAME),
            ).best_effort(),
        );
        add_steps(&mut s, crypt_close_disks(layout));
        s
    }

    open spec fn backports_pins_text(&self, release: Seq<char>) -> Option<Seq<char>> {
        Some(
            "Package: libnvpair1linux libuutil1linux libzfs2linux libzfslinux-dev libzpool2linux python3-pyzfs pyzfs-doc spl spl-dkms zfs-dkms zfs-dracut zfs-initramfs zfs-test zfsutils-linux zfsutils-linux-dev zfs-zed\nPin: release n="@
            + release + "-backports\nPin-Priority: 990\n"@,
        )
    }

    fn backports_pins(&self, release: &str) -> (r: Option<String>) {
        Some(
            "Package: libnvpair1linux libuutil1linux libzfs2linux libzfslinux-dev libzpool2linux python3-pyzfs pyzfs-doc spl spl-dkms zfs-dkms zfs-dracut zfs-initramfs zfs-test zfsutils-linux zfsutils-linux-dev zfs-zed\nPin: release n="
                .to_owned().concat(release).concat("-backports\nPin-Priority: 990\n"),
        )
    }

    open spec fn apt_repos_plan(&self, cfg: ConfigModel, root: Seq<char>) -> Seq<StepModel> {
        Seq::<StepModel>::empty()
    }

    fn apt_repos(&self, cfg: &Config, root: &str) -> (r: Vec<Step>)
    {
        no_steps()
    }
}

} // verus!
