//! dm-integrity~md~dm-crypt~lvm~ext4: dm-integrity below md, a single dm-crypt over
//! the whole md array, then lvm and ext4.
use vstd::prelude::*;
use vstd::string::*;

use super::{
    create_root_partitions, create_root_partitions_plan, crypt_close, crypt_close_plan,
    crypt_format_device, crypt_format_device_plan, crypt_initramfs_binaries, crypt_initramfs_list,
    crypt_open_device, crypt_open_device_plan, fstab_root_ext4, fstab_root_ext4_plan,
    integrity_close, integrity_close_plan, lvm_activate, lvm_activate_plan, lvm_create_root,
    lvm_create_root_plan, lvm_deactivate, lvm_deactivate_plan, md_assemble, md_assemble_plan,
    md_create, md_create_plan, md_recover_actions, md_recover_plan, md_remove, md_remove_plan,
    md_replace, md_replace_plan, md_scrub, md_scrub_plan, md_status, md_status_plan, md_stop,
    md_stop_holders, md_stop_holders_plan, md_stop_plan, mkfs_ext4_root, mkfs_ext4_root_plan,
    update_initramfs, update_initramfs_plan, Layer, RecoverAction, RecoverModel, Stack,
    INITRAMFS_HOOK_INTEGRITY,
};
use crate::config::{Config, ConfigModel, STACK_MD_INTEGRITY};
use crate::layout::{Layout, LayoutModel, ROOT_MD_DEVICE, ROOT_MD_NAME};
use crate::step::{
    add_step, add_steps, each, each_disk, models, no_steps, run_step, sh_step, write_mode_step,
    write_step, Step, StepModel,
};
use crate::text::{cmd, ArgList};

verus! {

pub const ROOT_CRYPT_NAME: &'static str = "md_root_crypt";

pub const ROOT_CRYPT_DEVICE: &'static str = "/dev/mapper/md_root_crypt";

pub struct MdIntegrity;

impl Stack for MdIntegrity {
    open spec fn id_text(&self) -> Seq<char> {
        STACK_MD_INTEGRITY@
    }

    fn id(&self) -> (r: &str) {
        STACK_MD_INTEGRITY
    }

    open spec fn packages_list(&self) -> Seq<Seq<char>> {
        seq!["cryptsetup"@].push("cryptsetup-initramfs"@).push("mdadm"@).push("lvm2"@)
    }

    fn packages(&self) -> (r: Vec<String>) {
        cmd("cryptsetup").arg("cryptsetup-initramfs").arg("mdadm").arg("lvm2")
    }

    open spec fn partition_root_plan(
        &self,
        cfg: ConfigModel,
        layout: LayoutModel,
    ) -> Seq<StepModel> {
        let s = create_root_partitions_plan(cfg, layout);
        let s = s + integrity_format_disks_plan(cfg, layout);
        s + integrity_open_disks_plan(cfg, layout)
    }

    fn partition_root(&self, cfg: &Config, layout: &Layout) -> (r: Vec<Step>)
    {
        let mut s = no_steps();
        add_steps(&mut s, create_root_partitions(cfg, layout));
        add_steps(&mut s, integrity_format_disks(cfg, layout));
        add_steps(&mut s, integrity_open_disks(cfg, layout));
        s
    }

    open spec fn format_root_plan(&self, cfg: ConfigModel, layout: LayoutModel) -> Seq<StepModel> {
        let s = seq![
            md_create_plan(ROOT_MD_NAME@, cfg.raid.level, cfg.boot.bitmap, layout.int_devices()),
            crypt_format_device_plan(cfg, ROOT_MD_DEVICE@, "luks-format "@ + ROOT_MD_DEVICE@),
            crypt_open_device_plan(
                ROOT_MD_DEVICE@,
                ROOT_CRYPT_NAME@,
                "unlock "@ + ROOT_MD_DEVICE@ + " as "@ + ROOT_CRYPT_NAME@,
            ),
        ];
        let s = s + lvm_create_root_plan(ROOT_CRYPT_DEVICE@);
        s.push(mkfs_ext4_root_plan())
    }

    fn format_root(&self, cfg: &Config, layout: &Layout) -> (r: Vec<Step>)
    {
        let mut s = no_steps();
        add_step(
            &mut s,
            md_create(
                ROOT_MD_NAME,
                cfg.raid.level.as_str(),
                cfg.boot.bitmap.as_str(),
                &layout.int_devices(),
            ),
        );
        add_step(
            &mut s,
            crypt_format_device(
                cfg,
                ROOT_MD_DEVICE,
                "luks-format ".to_owned().concat(ROOT_MD_DEVICE).as_str(),
            ),
        );
        add_step(
            &mut s,
            crypt_open_device(
                ROOT_MD_DEVICE,
                ROOT_CRYPT_NAME,
                "unlock ".to_owned().concat(ROOT_MD_DEVICE).concat(" as ").concat(ROOT_CRYPT_NAME)
                    .as_str(),
            ),
        );
        add_steps(&mut s, lvm_create_root(ROOT_CRYPT_DEVICE));
        add_step(&mut s, mkfs_ext4_root());
        s
    }

    open spec fn mount_root_plan(&self, cfg: ConfigModel, layout: LayoutModel) -> Seq<StepModel> {
        seq![
            run_step(
                "mount root filesystem at /mnt"@,
                seq!["mount"@].push("/dev/vg0/root"@).push("/mnt"@),
            ),
        ]
    }

    fn mount_root(&self, cfg: &Config, layout: &Layout) -> (r: Vec<Step>)
    {
        let mut s = no_steps();
        add_step(
            &mut s,
            Step::run_owned(
                "mount root filesystem at /mnt",
                cmd("mount").arg("/dev/vg0/root").arg("/mnt"),
            ),
        );
        s
    }

    open spec fn finish_plan(&self, cfg: ConfigModel, layout: LayoutModel) -> Seq<StepModel> {
        let rules = udev_rules_text(cfg.integrity_algorithm);
        seq![
            sh_step(
                "write the md crypt entry to crypttab"@,
                "uuid=$(blkid -s UUID -o value "@ + ROOT_MD_DEVICE@ + "); echo \""@
                    + ROOT_CRYPT_NAME@ + " UUID=$uuid none luks,discard\" >> /mnt/etc/crypttab"@,
            ),
            fstab_root_ext4_plan(),
            write_step(
                "install the dm-integrity udev rules"@,
                "/mnt/etc/udev/rules.d/99-integrity.rules"@,
                rules,
            ),
            write_mode_step(
                "install the dm-integrity initramfs hook"@,
                "/mnt/etc/initramfs-tools/hooks/integrity"@,
                INITRAMFS_HOOK_INTEGRITY@,
                0o755,
            ),
            update_initramfs_plan(),
        ]
    }

    fn finish(&self, cfg: &Config, layout: &Layout) -> (r: Vec<Step>)
    {
        let mut s = no_steps();
        add_step(
            &mut s,
            Step::sh(
                "write the md crypt entry to crypttab",
                "uuid=$(blkid -s UUID -o value ".to_owned().concat(ROOT_MD_DEVICE)
                    .concat("); echo \"").concat(ROOT_CRYPT_NAME)
                    .concat(" UUID=$uuid none luks,discard\" >> /mnt/etc/crypttab").as_str(),
            ),
        );
        add_step(&mut s, fstab_root_ext4());
        let rules_text = udev_rules(cfg.integrity.algorithm.as_str());
        let rules = rules_text.as_str();
        add_step(
            &mut s,
            Step::write(
                "install the dm-integrity udev rules",
                "/mnt/etc/udev/rules.d/99-integrity.rules",
                rules,
            ),
        );
        add_step(
            &mut s,
            Step::write_mode(
                "install the dm-integrity initramfs hook",
                "/mnt/etc/initramfs-tools/hooks/integrity",
                INITRAMFS_HOOK_INTEGRITY,
                0o755,
            ),
        );
        add_step(&mut s, update_initramfs());
        s
    }

    open spec fn map_plan(&self, cfg: ConfigModel, layout: LayoutModel) -> Seq<StepModel> {
        let s = integrity_open_disks_plan(cfg, layout);
        let s = s.push(md_assemble_plan(ROOT_MD_NAME@));
        let s = s.push(
            crypt_open_device_plan(
                ROOT_MD_DEVICE@,
                ROOT_CRYPT_NAME@,
                "unlock "@ + ROOT_MD_DEVICE@ + " as "@ + ROOT_CRYPT_NAME@,
            ),
        );
        s.push(lvm_activate_plan())
    }

    fn map(&self, cfg: &Config, layout: &Layout) -> (r: Vec<Step>)
    {
        let mut s = no_steps();
        add_steps(&mut s, integrity_open_disks(cfg, layout));
        add_step(&mut s, md_assemble(ROOT_MD_NAME));
        add_step(
            &mut s,
            crypt_open_device(
                ROOT_MD_DEVICE,
                ROOT_CRYPT_NAME,
                "unlock ".to_owned().concat(ROOT_MD_DEVICE).concat(" as ").concat(ROOT_CRYPT_NAME)
                    .as_str(),
            ),
        );
        add_step(&mut s, lvm_activate());
        s
    }

    open spec fn status_plan(&self, cfg: ConfigModel, layout: LayoutModel) -> Seq<StepModel> {
        md_status_plan()
    }

    fn status(&self, cfg: &Config, layout: &Layout) -> (r: Vec<Step>)
    {
        md_status()
    }

    open spec fn scrub_plan(&self, cfg: ConfigModel, layout: LayoutModel) -> Seq<StepModel> {
        md_scrub_plan()
    }

    fn scrub(&self, cfg: &Config, layout: &Layout) -> (r: Vec<Step>)
    {
        md_scrub()
    }

    open spec fn replace_plan(
        &self,
        cfg: ConfigModel,
        layout: LayoutModel,
        disks: Seq<Seq<char>>,
    ) -> Seq<StepModel> {
        md_replace_plan(layout, disks, Layer::Integrity)
    }

    fn replace(&self, cfg: &Config, layout: &Layout, disks: &Vec<String>) -> (r: Vec<Step>)
    {
        md_replace(layout, disks, Layer::Integrity)
    }

    open spec fn remove_plan(
        &self,
        cfg: ConfigModel,
        layout: LayoutModel,
        disks: Seq<Seq<char>>,
    ) -> Seq<StepModel> {
        md_remove_plan(layout, disks, Layer::Integrity)
    }

    fn remove(&self, cfg: &Config, layout: &Layout, disks: &Vec<String>) -> (r: Vec<Step>)
    {
        md_remove(layout, disks, Layer::Integrity)
    }

    open spec fn close_plan(&self, cfg: ConfigModel, layout: LayoutModel) -> Seq<StepModel> {
        let s = seq![
            run_step("unmount /mnt"@, seq!["umount"@].push("/mnt"@)).best_effort(),
            lvm_deactivate_plan(),
            crypt_close_plan(ROOT_CRYPT_NAME@),
            md_stop_plan(ROOT_MD_DEVICE@),
            md_stop_holders_plan(layout.int_devices()),
        ];
        s + integrity_close_disks_plan(layout)
    }

    fn close(&self, cfg: &Config, layout: &Layout) -> (r: Vec<Step>)
    {
        let mut s = no_steps();
        add_step(&mut s, Step::run_owned("unmount /mnt", cmd("umount").arg("/mnt")).best_effort());
        add_step(&mut s, lvm_deactivate());
        add_step(&mut s, crypt_close(ROOT_CRYPT_NAME));
        add_step(&mut s, md_stop(ROOT_MD_DEVICE));
        add_step(&mut s, md_stop_holders(&layout.int_devices()));
        add_steps(&mut s, integrity_close_disks(layout));
        s
    }

    open spec fn recover_actions_plan(
        &self,
        cfg: ConfigModel,
        layout: LayoutModel,
        at: Seq<char>,
    ) -> Seq<RecoverModel> {
        md_recover_plan(at)
    }

    fn recover_actions(&self, cfg: &Config, layout: &Layout, at: &str) -> (r: Vec<RecoverAction>) {
        md_recover_actions(at)
    }

    open spec fn crypttab_regen_plan(&self, layout: LayoutModel) -> Option<StepModel> {
        None
    }

    /// The crypttab names the md array by its uuid, which a member swap leaves alone.
    fn crypttab_regen(&self, layout: &Layout) -> (r: Option<Step>) {
        None
    }

    open spec fn initramfs_list(&self) -> Seq<Seq<char>> {
        crypt_initramfs_list().push("integritysetup"@).push("mdadm"@).push("lvm"@)
    }

    fn initramfs_binaries(&self) -> (r: Vec<String>) {
        crypt_initramfs_binaries().arg("integritysetup").arg("mdadm").arg("lvm")
    }

    open spec fn backports_pins_text(&self, release: Seq<char>) -> Option<Seq<char>> {
        Some(
            "Package: linux-image linux-image-amd64 linux-headers firmware-linux firmware-linux-nonfree\nPin: release n="@
            + release + "-backports\nPin-Priority: 990\n"@,
        )
    }

    fn backports_pins(&self, release: &str) -> (r: Option<String>) {
        Some(
            "Package: linux-image linux-image-amd64 linux-headers firmware-linux firmware-linux-nonfree\nPin: release n="
                .to_owned().concat(release).concat("-backports\nPin-Priority: 990\n"),
        )
    }

    open spec fn host_prereqs_plan(&self) -> Seq<StepModel> {
        Seq::<StepModel>::empty()
    }

    fn host_prereqs(&self) -> (r: Vec<Step>)
    {
        no_steps()
    }

    open spec fn host_packages_list(&self) -> Seq<Seq<char>> {
        self.packages_list()
    }

    fn host_packages(&self) -> (r: Vec<String>) {
        self.packages()
    }

    open spec fn apt_repos_plan(&self, cfg: ConfigModel, root: Seq<char>) -> Seq<StepModel> {
        Seq::<StepModel>::empty()
    }

    fn apt_repos(&self, cfg: &Config, root: &str) -> (r: Vec<Step>)
    {
        no_steps()
    }
}

/// The steps of `integrity_format_disks` for one disk.
pub open spec fn integrity_format_disk(cfg: ConfigModel, dev: Seq<char>) -> Seq<StepModel> {
    let algo = cfg.integrity_algorithm;
    seq![
        run_step(
            "integrity-format "@ + dev,
            seq!["integritysetup"@].push("format"@).push("--batch-mode"@)
                .push("--sector-size=4096"@).push("--integrity="@ + algo).push(dev),
        ),
    ]
}

/// The plan of `integrity_format_disks`.
pub open spec fn integrity_format_disks_plan(
    cfg: ConfigModel,
    layout: LayoutModel,
) -> Seq<StepModel> {
    each(layout.root_devices(), |dev: Seq<char>| integrity_format_disk(cfg, dev))
}

/// integrity-formats every member's root partition.
pub fn integrity_format_disks(cfg: &Config, layout: &Layout) -> (r: Vec<Step>)
    ensures
        models(r@) == integrity_format_disks_plan(cfg@, layout@),
{
    let each_dev = |dev: &str| -> (s: Vec<Step>)
        ensures
            models(s@) == integrity_format_disk(cfg@, dev@),
    {
        let mut s = no_steps();
        let algo_text = cfg.integrity.algorithm.clone();
        let algo = algo_text.as_str();
        add_step(
            &mut s,
            Step::run_owned(
                "integrity-format ".to_owned().concat(dev).as_str(),
                cmd("integritysetup").arg("format").arg("--batch-mode").arg("--sector-size=4096")
                    .arg("--integrity=".to_owned().concat(algo).as_str()).arg(dev),
            ),
        );
        s
    };
    each_disk(
        &layout.root_devices(),
        each_dev,
        Ghost(|dev: Seq<char>| integrity_format_disk(cfg@, dev)),
    )
}

/// The steps of `integrity_open_disks` for one disk.
pub open spec fn integrity_open_disk(
    cfg: ConfigModel,
    layout: LayoutModel,
    d: Seq<char>,
) -> Seq<StepModel> {
    let dev = layout.part(d, 3);
    let name = layout.int_name(d);
    let algo = cfg.integrity_algorithm;
    seq![
        run_step(
            "integrity-open "@ + dev + " as "@ + name,
            seq!["integritysetup"@].push("open"@).push("--integrity="@ + algo).push(dev).push(name),
        ),
    ]
}

/// The plan of `integrity_open_disks`.
pub open spec fn integrity_open_disks_plan(
    cfg: ConfigModel,
    layout: LayoutModel,
) -> Seq<StepModel> {
    each(layout.members, |d: Seq<char>| integrity_open_disk(cfg, layout, d))
}

/// Opens every member's integrity device.
pub fn integrity_open_disks(cfg: &Config, layout: &Layout) -> (r: Vec<Step>)
    ensures
        models(r@) == integrity_open_disks_plan(cfg@, layout@),
{
    let each_d = |d: &str| -> (s: Vec<Step>)
        ensures
            models(s@) == integrity_open_disk(cfg@, layout@, d@),
    {
        let mut s = no_steps();
        let dev_text = layout.part(d, 3);
        let dev = dev_text.as_str();
        let name_text = layout.int_name(d);
        let name = name_text.as_str();
        let algo_text = cfg.integrity.algorithm.clone();
        let algo = algo_text.as_str();
        add_step(
            &mut s,
            Step::run_owned(
                "integrity-open ".to_owned().concat(dev).concat(" as ").concat(name).as_str(),
                cmd("integritysetup").arg("open")
                    .arg("--integrity=".to_owned().concat(algo).as_str()).arg(dev).arg(name),
            ),
        );
        s
    };
    each_disk(&layout.members, each_d, Ghost(|d: Seq<char>| integrity_open_disk(cfg@, layout@, d)))
}

/// The steps of `integrity_close_disks` for one disk.
pub open spec fn integrity_close_disk(name: Seq<char>) -> Seq<StepModel> {
    seq![integrity_close_plan(name)]
}

/// The plan of `integrity_close_disks`.
pub open spec fn integrity_close_disks_plan(layout: LayoutModel) -> Seq<StepModel> {
    each(layout.int_names(), |name: Seq<char>| integrity_close_disk(name))
}

/// Best-effort close of every member's integrity device.
pub fn integrity_close_disks(layout: &Layout) -> (r: Vec<Step>)
    ensures
        models(r@) == integrity_close_disks_plan(layout@),
{
    let each_name = |name: &str| -> (s: Vec<Step>)
        ensures
            models(s@) == integrity_close_disk(name@),
    {
        let mut s = no_steps();
        add_step(&mut s, integrity_close(name));
        s
    };
    each_disk(&layout.int_names(), each_name, Ghost(|name: Seq<char>| integrity_close_disk(name)))
}

/// The udev rules: open a member's integrity device on add, close it on remove.
pub open spec fn udev_rules_text(algo: Seq<char>) -> Seq<char> {
    "ACTION==\"add\", SUBSYSTEM==\"block\", ENV{DEVTYPE}==\"partition\", ENV{ID_FS_TYPE}==\"DM_integrity\", RUN+=\"/sbin/integritysetup open --integrity="@
    + algo
    + " $env{DEVNAME} %k_int\"\nACTION==\"remove\", SUBSYSTEM==\"block\", ENV{DEVTYPE}==\"partition\", ENV{ID_FS_TYPE}==\"DM_integrity\", RUN+=\"/sbin/integritysetup close %k_int\"\n"@
}

/// udev rules that open and close each member's dm-integrity device on hotplug, so
/// the array can assemble at boot from the initrd.
fn udev_rules(algo: &str) -> (r: String)
    ensures
        r@ == udev_rules_text(algo@),
{
    "ACTION==\"add\", SUBSYSTEM==\"block\", ENV{DEVTYPE}==\"partition\", ENV{ID_FS_TYPE}==\"DM_integrity\", RUN+=\"/sbin/integritysetup open --integrity=".to_owned().concat(algo).concat(
        " $env{DEVNAME} %k_int\"\nACTION==\"remove\", SUBSYSTEM==\"block\", ENV{DEVTYPE}==\"partition\", ENV{ID_FS_TYPE}==\"DM_integrity\", RUN+=\"/sbin/integritysetup close %k_int\"\n",
    )
}

} // verus!
