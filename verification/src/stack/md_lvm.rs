//! dm-crypt~md~lvm~{ext4,xfs}: per-disk dm-crypt, an md array over the crypt
//! devices, lvm on top, and an ext4 or xfs root. The two differ only in the root
//! mkfs, the fstab line, and (for xfs) the xfsprogs package.
use vstd::prelude::*;
use vstd::string::*;

use super::{
    backup_luks_headers, backup_luks_headers_plan, crypt_close_disks, crypt_close_disks_plan,
    crypt_initramfs_binaries, crypt_initramfs_list, crypt_open_disks, crypt_open_disks_plan,
    crypt_partition_root, crypt_partition_root_plan, crypttab_step, crypttab_step_plan,
    fstab_root_ext4, fstab_root_ext4_plan, fstab_root_xfs, fstab_root_xfs_plan, install_keyutils,
    install_keyutils_plan, lvm_activate, lvm_activate_plan, lvm_create_root, lvm_create_root_plan,
    lvm_deactivate, lvm_deactivate_plan, md_assemble, md_assemble_plan, md_create, md_create_plan,
    md_recover_actions, md_recover_plan, md_remove, md_remove_plan, md_replace, md_replace_plan,
    md_scrub, md_scrub_plan, md_status, md_status_plan, md_stop, md_stop_holders,
    md_stop_holders_plan, md_stop_plan, mkfs_ext4_root, mkfs_ext4_root_plan, mkfs_xfs_root,
    mkfs_xfs_root_plan, update_initramfs, update_initramfs_plan, Layer, RecoverAction, RecoverModel,
    Stack, INITRAMFS_HOOK_AEAD,
};
use crate::config::{Config, ConfigModel, STACK_MD_LVM_EXT4, STACK_MD_LVM_XFS};
use crate::layout::{Layout, LayoutModel, ROOT_MD_DEVICE, ROOT_MD_NAME};
use crate::step::{add_step, add_steps, no_steps, run_step, write_mode_step, Step, StepModel};
use crate::text::{cmd, ArgList};

verus! {

/// The crypttab options of this stack's members, at install and on a rewrite.
pub const CRYPTTAB_OPTS: &'static str = "luks,initramfs,keyscript=decrypt_keyctl";

#[derive(Clone, Copy)]
pub enum RootFs {
    Ext4,
    Xfs,
}

pub struct MdLvm {
    pub fs: RootFs,
}

impl MdLvm {
    pub fn ext4() -> (r: Self)
        ensures
            r.fs is Ext4,
    {
        Self { fs: RootFs::Ext4 }
    }

    pub fn xfs() -> (r: Self)
        ensures
            r.fs is Xfs,
    {
        Self { fs: RootFs::Xfs }
    }

    fn is_ext4(&self) -> (r: bool)
        ensures
            r == (self.fs is Ext4),
    {
        match self.fs {
            RootFs::Ext4 => true,
            RootFs::Xfs => false,
        }
    }
}

impl Stack for MdLvm {
    open spec fn id_text(&self) -> Seq<char> {
        if self.fs is Ext4 {
            STACK_MD_LVM_EXT4@
        } else {
            STACK_MD_LVM_XFS@
        }
    }

    fn id(&self) -> (r: &str) {
        match self.fs {
            RootFs::Ext4 => STACK_MD_LVM_EXT4,
            RootFs::Xfs => STACK_MD_LVM_XFS,
        }
    }

    open spec fn packages_list(&self) -> Seq<Seq<char>> {
        let base = seq!["cryptsetup"@].push("cryptsetup-initramfs"@).push("mdadm"@).push("lvm2"@);
        if self.fs is Xfs {
            base.push("xfsprogs"@)
        } else {
            base
        }
    }

    fn packages(&self) -> (r: Vec<String>) {
        let base = cmd("cryptsetup").arg("cryptsetup-initramfs").arg("mdadm").arg("lvm2");
        match self.fs {
            RootFs::Ext4 => base,
            RootFs::Xfs => base.arg("xfsprogs"),
        }
    }

    open spec fn partition_root_plan(
        &self,
        cfg: ConfigModel,
        layout: LayoutModel,
    ) -> Seq<StepModel> {
        crypt_partition_root_plan(cfg, layout)
    }

    fn partition_root(&self, cfg: &Config, layout: &Layout) -> (r: Vec<Step>)
    {
        crypt_partition_root(cfg, layout)
    }

    open spec fn format_root_plan(&self, cfg: ConfigModel, layout: LayoutModel) -> Seq<StepModel> {
        let s = seq![
            md_create_plan(ROOT_MD_NAME@, cfg.raid.level, cfg.boot.bitmap, layout.crypt_devices()),
        ];
        let s = s + lvm_create_root_plan(ROOT_MD_DEVICE@);
        if self.fs is Ext4 {
            s.push(mkfs_ext4_root_plan())
        } else {
            s.push(mkfs_xfs_root_plan())
        }
    }

    fn format_root(&self, cfg: &Config, layout: &Layout) -> (r: Vec<Step>)
    {
        let mut s = no_steps();
        add_step(
            &mut s,
            md_create(
                ROOT_MD_NAME,
                cfg.raid.level.as_str(),
                cfg.boot.bitmap.as_str(),
                &layout.crypt_devices(),
            ),
        );
        add_steps(&mut s, lvm_create_root(ROOT_MD_DEVICE));
        if self.is_ext4() {
            add_step(&mut s, mkfs_ext4_root());
        } else {
            add_step(&mut s, mkfs_xfs_root());
        }
        s
    }

    open spec fn mount_root_plan(&self, cfg: ConfigModel, layout: LayoutModel) -> Seq<StepModel> {
        seq![
            run_step(
                "mount root filesystem at /mnt"@,
                seq!["mount"@].push("/dev/vg0/root"@).push("/mnt"@),
            ),
        ]
    }

    fn mount_root(&self, cfg: &Config, layout: &Layout) -> (r: Vec<Step>)
    {
        let mut s = no_steps();
        add_step(
            &mut s,
            Step::run_owned(
                "mount root filesystem at /mnt",
                cmd("mount").arg("/dev/vg0/root").arg("/mnt"),
            ),
        );
        s
    }

    open spec fn finish_plan(&self, cfg: ConfigModel, layout: LayoutModel) -> Seq<StepModel> {
        let s = seq![
            install_keyutils_plan(),
            crypttab_step_plan(layout, CRYPTTAB_OPTS@, "/mnt/etc/crypttab"@),
        ];
        let s = s + backup_luks_headers_plan(layout, "/mnt/boot"@);
        let s = if self.fs is Ext4 {
            s.push(fstab_root_ext4_plan())
        } else {
            s.push(fstab_root_xfs_plan())
        };
        let s = s.push(
            write_mode_step(
                "install the dm_integrity initramfs hook"@,
                "/mnt/etc/initramfs-tools/hooks/integrity"@,
                INITRAMFS_HOOK_AEAD@,
                0o755,
            ),
        );
        s.push(update_initramfs_plan())
    }

    fn finish(&self, cfg: &Config, layout: &Layout) -> (r: Vec<Step>)
    {
        let mut s = no_steps();
        add_step(&mut s, install_keyutils());
        add_step(&mut s, crypttab_step(layout, CRYPTTAB_OPTS, "/mnt/etc/crypttab"));
        add_steps(&mut s, backup_luks_headers(layout, "/mnt/boot"));
        if self.is_ext4() {
            add_step(&mut s, fstab_root_ext4());
        } else {
            add_step(&mut s, fstab_root_xfs());
        }
        // dm-crypt aead is backed by dm_integrity, which the initrd must load.
        add_step(
            &mut s,
            Step::write_mode(
                "install the dm_integrity initramfs hook",
                "/mnt/etc/initramfs-tools/hooks/integrity",
                INITRAMFS_HOOK_AEAD,
                0o755,
            ),
        );
        add_step(&mut s, update_initramfs());
        s
    }

    open spec fn map_plan(&self, cfg: ConfigModel, layout: LayoutModel) -> Seq<StepModel> {
        let s = crypt_open_disks_plan(layout);
        let s = s.push(md_assemble_plan(ROOT_MD_NAME@));
        s.push(lvm_activate_plan())
    }

    fn map(&self, cfg: &Config, layout: &Layout) -> (r: Vec<Step>)
    {
        let mut s = no_steps();
        add_steps(&mut s, crypt_open_disks(layout));
        add_step(&mut s, md_assemble(ROOT_MD_NAME));
        // udev auto-activation is unreliable for a freshly assembled array.
        add_step(&mut s, lvm_activate());
        s
    }

    open spec fn status_plan(&self, cfg: ConfigModel, layout: LayoutModel) -> Seq<StepModel> {
        md_status_plan()
    }

    fn status(&self, cfg: &Config, layout: &Layout) -> (r: Vec<Step>)
    {
        md_status()
    }

    open spec fn scrub_plan(&self, cfg: ConfigModel, layout: LayoutModel) -> Seq<StepModel> {
        md_scrub_plan()
    }

    fn scrub(&self, cfg: &Config, layout: &Layout) -> (r: Vec<Step>)
    {
        md_scrub()
    }

    open spec fn replace_plan(
        &self,
        cfg: ConfigModel,
        layout: LayoutModel,
        disks: Seq<Seq<char>>,
    ) -> Seq<StepModel> {
        md_replace_plan(layout, disks, Layer::Crypt)
    }

    fn replace(&self, cfg: &Config, layout: &Layout, disks: &Vec<String>) -> (r: Vec<Step>)
    {
        md_replace(layout, disks, Layer::Crypt)
    }

    open spec fn remove_plan(
        &self,
        cfg: ConfigModel,
        layout: LayoutModel,
        disks: Seq<Seq<char>>,
    ) -> Seq<StepModel> {
        md_remove_plan(layout, disks, Layer::Crypt)
    }

    fn remove(&self, cfg: &Config, layout: &Layout, disks: &Vec<String>) -> (r: Vec<Step>)
    {
        md_remove(layout, disks, Layer::Crypt)
    }

    open spec fn close_plan(&self, cfg: ConfigModel, layout: LayoutModel) -> Seq<StepModel> {
        let s = seq![
            run_step("unmount /mnt"@, seq!["umount"@].push("/mnt"@)).best_effort(),
            lvm_deactivate_plan(),
            md_stop_plan(ROOT_MD_DEVICE@),
            md_stop_holders_plan(layout.crypt_devices()),
        ];
        s + crypt_close_disks_plan(layout)
    }

    fn close(&self, cfg: &Config, layout: &Layout) -> (r: Vec<Step>)
    {
        let mut s = no_steps();
        add_step(&mut s, Step::run_owned("unmount /mnt", cmd("umount").arg("/mnt")).best_effort());
        add_step(&mut s, lvm_deactivate());
        add_step(&mut s, md_stop(ROOT_MD_DEVICE));
        add_step(&mut s, md_stop_holders(&layout.crypt_devices()));
        add_steps(&mut s, crypt_close_disks(layout));
        s
    }

    open spec fn recover_actions_plan(
        &self,
        cfg: ConfigModel,
        layout: LayoutModel,
        at: Seq<char>,
    ) -> Seq<RecoverModel> {
        md_recover_plan(at)
    }

    fn recover_actions(&self, cfg: &Config, layout: &Layout, at: &str) -> (r: Vec<RecoverAction>) {
        md_recover_actions(at)
    }

    open spec fn crypttab_regen_plan(&self, layout: LayoutModel) -> Option<StepModel> {
        Some(crypttab_step_plan(layout, CRYPTTAB_OPTS@, "/etc/crypttab"@))
    }

    fn crypttab_regen(&self, layout: &Layout) -> (r: Option<Step>) {
        Some(crypttab_step(layout, CRYPTTAB_OPTS, "/etc/crypttab"))
    }

    open spec fn initramfs_list(&self) -> Seq<Seq<char>> {
        crypt_initramfs_list().push("mdadm"@).push("lvm"@)
    }

    fn initramfs_binaries(&self) -> (r: Vec<String>) {
        crypt_initramfs_binaries().arg("mdadm").arg("lvm")
    }

    open spec fn backports_pins_text(&self, release: Seq<char>) -> Option<Seq<char>> {
        None
    }

    fn backports_pins(&self, release: &str) -> (r: Option<String>) {
        None
    }

    open spec fn host_prereqs_plan(&self) -> Seq<StepModel> {
        Seq::<StepModel>::empty()
    }

    fn host_prereqs(&self) -> (r: Vec<Step>)
    {
        no_steps()
    }

    open spec fn host_packages_list(&self) -> Seq<Seq<char>> {
        self.packages_list()
    }

    fn host_packages(&self) -> (r: Vec<String>) {
        self.packages()
    }

    open spec fn apt_repos_plan(&self, cfg: ConfigModel, root: Seq<char>) -> Seq<StepModel> {
        Seq::<StepModel>::empty()
    }

    fn apt_repos(&self, cfg: &Config, root: &str) -> (r: Vec<Step>)
    {
        no_steps()
    }
}

} // verus!
