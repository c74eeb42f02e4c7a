//! The stack interface, its selection, and the steps that several stacks share.
use vstd::prelude::*;
use vstd::string::*;

use crate::config::{
    family_of, Config, ConfigModel, STACK_BCACHEFS, STACK_BTRFS, STACK_MD_INTEGRITY,
    STACK_MD_LVM_EXT4, STACK_MD_LVM_XFS, STACK_ZFS,
};
use crate::layout::{first_of, first_or_empty, Layout, LayoutModel, ROOT_MD_DEVICE, ROOT_MD_NAME};
use crate::step::{
    add_step, add_steps, append_step, each, each_disk, models, no_steps, one_step, run_step,
    sh_step, write_mode_step, Step, StepModel,
};
use crate::text::{cmd, dec, decimal, join, joined, same, texts, ArgList};

pub mod bcachefs;
pub mod btrfs;
pub mod md_integrity;
pub mod md_lvm;
pub mod zfs;

use self::bcachefs::BcachefsStack;
use self::btrfs::BtrfsStack;
use self::md_integrity::MdIntegrity;
use self::md_lvm::{MdLvm, RootFs};
use self::zfs::ZfsStack;

verus! {

/// Gpt addresses disks in blocks of this many bytes, whatever the crypt sector size.
const LBA_BYTES: u32 = 512;

// ---------------------------------------------------------- static hook files

/// The grub.d hook that resyncs every mirror esp from the live one on update-grub.
/// The exit code is swallowed: a mirror failure must never block grub.cfg.
pub const EFI_MIRROR_WRAPPER: &'static str =
    "#!/bin/sh\nexec 1>&2\n/usr/local/sbin/raiden sync efi --yes || true\n";

/// Where the esp mirror grub.d hook lives in the target.
pub const EFI_MIRROR_HOOK_PATH: &'static str = "/mnt/etc/grub.d/90_copy_to_efi_mirrors";

/// The basename of the esp mirror grub.d hook.
pub const EFI_MIRROR_HOOK_NAME: &'static str = "90_copy_to_efi_mirrors";

/// The script in the kernel postinst.d/postrm.d hooks. It propagates the exit code,
/// and does not forward the arguments that run-parts hands it.
pub const BOOT_MIRROR_HOOK_CONTENT: &'static str =
    "#!/bin/sh\nexec /usr/local/sbin/raiden sync boot --yes\n";

/// Sorts after zz-update-grub in every locale, so grub.cfg is final when it runs.
pub const BOOT_MIRROR_HOOK_NAME: &'static str = "zzz-raiden-boot-mirror";

/// The initramfs hook that bakes the raiden binary and the manifest into the initrd.
pub const INITRAMFS_HOOK_RAIDEN: &'static str =
    "#!/bin/sh\nPREREQ=\"\"\nprereqs() { echo \"$PREREQ\"; }\ncase $1 in prereqs) prereqs; exit 0;; esac\n. /usr/share/initramfs-tools/hook-functions\ncopy_exec /usr/local/sbin/raiden /sbin\nmkdir -p \"${DESTDIR}/etc/raiden\"\ncp /etc/raiden/manifest.toml \"${DESTDIR}/etc/raiden/manifest.toml\"\n";

/// Where the raiden recovery initramfs hook lives, relative to the system root.
pub const RAIDEN_RECOVERY_HOOK: &'static str = "/etc/initramfs-tools/hooks/raiden";

/// The initramfs hook that force-loads dm_integrity, which dm-crypt aead needs.
pub const INITRAMFS_HOOK_AEAD: &'static str =
    "#!/bin/sh\nPREREQ=\"\"\nprereqs()\n{\n    echo \"$PREREQ\"\n}\n\ncase $1 in\n    prereqs)\n        prereqs\n        exit 0\n        ;;\nesac\n\n. /usr/share/initramfs-tools/hook-functions\n\n# Begin real processing below this line\n\nforce_load dm_integrity\n";

/// The initramfs hook of the dm-integrity stack: the tooling and udev rules that
/// open the array at boot.
pub const INITRAMFS_HOOK_INTEGRITY: &'static str =
    "#!/bin/sh\nPREREQ=\"\"\nprereqs()\n{\n    echo \"$PREREQ\"\n}\n\ncase $1 in\n    prereqs)\n        prereqs\n        exit 0\n        ;;\nesac\n\n. /usr/share/initramfs-tools/hook-functions\n\n# Begin real processing below this line\n\nforce_load dm_integrity\ncopy_exec /sbin/integritysetup /sbin\ncopy_file text /etc/udev/rules.d/99-integrity.rules\n";

// ----------------------------------------------------------- recovery actions

/// A labelled group of steps that brings one layer of a degraded root online from
/// the initramfs.
pub struct RecoverAction {
    pub label: String,
    pub steps: Vec<Step>,
}

#[verifier::ext_equal]
pub struct RecoverModel {
    pub label: Seq<char>,
    pub steps: Seq<StepModel>,
}

impl View for RecoverAction {
    type V = RecoverModel;

    open spec fn view(&self) -> RecoverModel {
        RecoverModel { label: self.label@, steps: models(self.steps@) }
    }
}

/// The models of a list of recovery actions.
pub open spec fn actions(v: Seq<RecoverAction>) -> Seq<RecoverModel> {
    v.map_values(|a: RecoverAction| a@)
}

impl RecoverAction {
    pub fn new(label: &str, steps: Vec<Step>) -> (r: Self)
        ensures
            r@ == (RecoverModel { label: label@, steps: models(steps@) }),
    {
        Self { label: label.to_owned(), steps }
    }
}

/// Two actions in order.
pub fn two_actions(first: RecoverAction, second: RecoverAction) -> (r: Vec<RecoverAction>)
    ensures
        actions(r@) == seq![first@].push(second@),
{
    let mut v: Vec<RecoverAction> = Vec::new();
    v.push(first);
    v.push(second);
    assert(actions(v@) =~= seq![first@].push(second@));
    v
}

// ------------------------------------------------------------------ interface

/// One supported combination of layers. Each method has a specification that says
/// exactly which steps it gives.
pub trait Stack {
    spec fn id_text(&self) -> Seq<char>;

    fn id(&self) -> (r: &str)
        ensures
            r@ == self.id_text(),
            ;

    spec fn packages_list(&self) -> Seq<Seq<char>>;

    /// Debian packages the stack needs in the target system.
    fn packages(&self) -> (r: Vec<String>)
        ensures
            texts(r@) == self.packages_list(),
            ;

    spec fn partition_root_plan(&self, cfg: ConfigModel, layout: LayoutModel) -> Seq<StepModel>;

    /// Creates the root partition and brings up its encryption/integrity layer.
    fn partition_root(&self, cfg: &Config, layout: &Layout) -> (r: Vec<Step>)
        ensures
            models(r@) == self.partition_root_plan(cfg@, layout@),
            ;

    spec fn format_root_plan(&self, cfg: ConfigModel, layout: LayoutModel) -> Seq<StepModel>;

    /// Assembles the array and creates the root filesystem.
    fn format_root(&self, cfg: &Config, layout: &Layout) -> (r: Vec<Step>)
        ensures
            models(r@) == self.format_root_plan(cfg@, layout@),
            ;

    spec fn mount_root_plan(&self, cfg: ConfigModel, layout: LayoutModel) -> Seq<StepModel>;

    /// Mounts the root filesystem at /mnt (and any post-mount setup).
    fn mount_root(&self, cfg: &Config, layout: &Layout) -> (r: Vec<Step>)
        ensures
            models(r@) == self.mount_root_plan(cfg@, layout@),
            ;

    spec fn finish_plan(&self, cfg: ConfigModel, layout: LayoutModel) -> Seq<StepModel>;

    /// Crypttab, fstab, initramfs, and luks header backup inside the target.
    fn finish(&self, cfg: &Config, layout: &Layout) -> (r: Vec<Step>)
        ensures
            models(r@) == self.finish_plan(cfg@, layout@),
            ;

    spec fn map_plan(&self, cfg: ConfigModel, layout: LayoutModel) -> Seq<StepModel>;

    /// Unlocks and assembles the array, for rescue from a livecd.
    fn map(&self, cfg: &Config, layout: &Layout) -> (r: Vec<Step>)
        ensures
            models(r@) == self.map_plan(cfg@, layout@),
            ;

    spec fn status_plan(&self, cfg: ConfigModel, layout: LayoutModel) -> Seq<StepModel>;

    /// Native health report commands (md detail, zpool status, btrfs show).
    fn status(&self, cfg: &Config, layout: &Layout) -> (r: Vec<Step>)
        ensures
            models(r@) == self.status_plan(cfg@, layout@),
            ;

    spec fn scrub_plan(&self, cfg: ConfigModel, layout: LayoutModel) -> Seq<StepModel>;

    /// Scrubs the array.
    fn scrub(&self, cfg: &Config, layout: &Layout) -> (r: Vec<Step>)
        ensures
            models(r@) == self.scrub_plan(cfg@, layout@),
            ;

    spec fn replace_plan(
        &self,
        cfg: ConfigModel,
        layout: LayoutModel,
        disks: Seq<Seq<char>>,
    ) -> Seq<StepModel>;

    /// Re-adds the named replacement disks to the array.
    fn replace(&self, cfg: &Config, layout: &Layout, disks: &Vec<String>) -> (r: Vec<Step>)
        ensures
            models(r@) == self.replace_plan(cfg@, layout@, texts(disks@)),
            ;

    spec fn remove_plan(
        &self,
        cfg: ConfigModel,
        layout: LayoutModel,
        disks: Seq<Seq<char>>,
    ) -> Seq<StepModel>;

    /// Detaches the named disks from the array and tears down their mappings.
    fn remove(&self, cfg: &Config, layout: &Layout, disks: &Vec<String>) -> (r: Vec<Step>)
        ensures
            models(r@) == self.remove_plan(cfg@, layout@, texts(disks@)),
            ;

    spec fn close_plan(&self, cfg: ConfigModel, layout: LayoutModel) -> Seq<StepModel>;

    /// Unmounts and tears down all of this stack's mappings.
    fn close(&self, cfg: &Config, layout: &Layout) -> (r: Vec<Step>)
        ensures
            models(r@) == self.close_plan(cfg@, layout@),
            ;

    spec fn recover_actions_plan(
        &self,
        cfg: ConfigModel,
        layout: LayoutModel,
        at: Seq<char>,
    ) -> Seq<RecoverModel>;

    /// The actions that bring this stack's already-unlocked root online from the
    /// initramfs and mount it (degraded/forced) at `at`.
    fn recover_actions(&self, cfg: &Config, layout: &Layout, at: &str) -> (r: Vec<RecoverAction>)
        ensures
            actions(r@) == self.recover_actions_plan(cfg@, layout@, at@),
            ;

    spec fn crypttab_regen_plan(&self, layout: LayoutModel) -> Option<StepModel>;

    /// Rewrites /etc/crypttab on the running system for the given layout. None when
    /// the stack's crypttab does not depend on member names.
    fn crypttab_regen(&self, layout: &Layout) -> (r: Option<Step>)
        ensures
            r is Some <==> self.crypttab_regen_plan(layout@) is Some,
            r is Some ==> Some(r->0@) == self.crypttab_regen_plan(layout@),
            ;

    spec fn initramfs_list(&self) -> Seq<Seq<char>>;

    /// Binaries the initrd must carry to unlock and mount (or recover) the root.
    fn initramfs_binaries(&self) -> (r: Vec<String>)
        ensures
            texts(r@) == self.initramfs_list(),
            ;

    spec fn backports_pins_text(&self, release: Seq<char>) -> Option<Seq<char>>;

    /// Apt pin file content for backports, when the stack needs specific pins.
    fn backports_pins(&self, release: &str) -> (r: Option<String>)
        ensures
            r is Some <==> self.backports_pins_text(release@) is Some,
            r is Some ==> Some(r->0@) == self.backports_pins_text(release@),
            ;

    spec fn host_prereqs_plan(&self) -> Seq<StepModel>;

    /// Apt steps to run on the live host before its stack packages.
    fn host_prereqs(&self) -> (r: Vec<Step>)
        ensures
            models(r@) == self.host_prereqs_plan(),
            ;

    spec fn host_packages_list(&self) -> Seq<Seq<char>>;

    /// Packages to install on the live host.
    fn host_packages(&self) -> (r: Vec<String>)
        ensures
            texts(r@) == self.host_packages_list(),
            ;

    spec fn apt_repos_plan(&self, cfg: ConfigModel, root: Seq<char>) -> Seq<StepModel>;

    /// Extra apt repositories beyond Debian's. `root` is "" for the live host or
    /// "/mnt" for the target chroot.
    fn apt_repos(&self, cfg: &Config, root: &str) -> (r: Vec<Step>)
        ensures
            models(r@) == self.apt_repos_plan(cfg@, root@),
            ;
}

// --------------------------------------------------------------- shared steps

/// How many logical blocks a crypt sector spans, at least one.
pub open spec fn blocks_per_sector(sector_size: u32) -> nat {
    if sector_size / 512 < 1 {
        1
    } else {
        (sector_size / 512) as nat
    }
}

fn sector_blocks(sector_size: u32) -> (r: u64)
    ensures
        r == blocks_per_sector(sector_size),
{
    let n: u32 = sector_size / LBA_BYTES;
    if n < 1 {
        1
    } else {
        n as u64
    }
}

/// The steps of `create_root_partitions` for one disk.
pub open spec fn create_root_partition(cfg: ConfigModel, d: Seq<char>) -> Seq<StepModel> {
    let dev = "/dev/"@ + d;
    let spb = dec(blocks_per_sector(cfg.crypt.sector_size));
    let size = dec(cfg.crypt.sector_size as nat);
    seq![
        sh_step(
            "create root partition on "@ + d + " (end aligned to "@ + size + " bytes)"@,
            "end=$(sgdisk -E "@ + dev + "); end=$(( (end + 1) / "@ + spb + " * "@ + spb
                + " - 1 )); sgdisk -n3:0:$end -t3:8301 "@ + dev,
        ),
    ]
}

/// The plan of `create_root_partitions`.
pub open spec fn create_root_partitions_plan(
    cfg: ConfigModel,
    layout: LayoutModel,
) -> Seq<StepModel> {
    each(layout.members, |d: Seq<char>| create_root_partition(cfg, d))
}

/// Creates the root (third) partition on each member disk, its end aligned down to
/// the crypt sector size. Without aead, cryptsetup refuses a device whose size is
/// not a multiple of its sector size.
pub fn create_root_partitions(cfg: &Config, layout: &Layout) -> (r: Vec<Step>)
    ensures
        models(r@) == create_root_partitions_plan(cfg@, layout@),
{
    let each_d = |d: &str| -> (s: Vec<Step>)
        ensures
            models(s@) == create_root_partition(cfg@, d@),
    {
        let mut s = no_steps();
        let dev_text = "/dev/".to_owned().concat(d);
        let dev = dev_text.as_str();
        let spb_text = decimal(sector_blocks(cfg.crypt.sector_size));
        let spb = spb_text.as_str();
        let size_text = decimal(cfg.crypt.sector_size as u64);
        let size = size_text.as_str();
        add_step(
            &mut s,
            Step::sh(
                "create root partition on ".to_owned().concat(d).concat(" (end aligned to ")
                    .concat(size).concat(" bytes)").as_str(),
                "end=$(sgdisk -E ".to_owned().concat(dev).concat("); end=$(( (end + 1) / ")
                    .concat(spb).concat(" * ").concat(spb)
                    .concat(" - 1 )); sgdisk -n3:0:$end -t3:8301 ").concat(dev).as_str(),
            ),
        );
        s
    };
    each_disk(&layout.members, each_d, Ghost(|d: Seq<char>| create_root_partition(cfg@, d)))
}

/// The words of `cryptsetup luksFormat` for a device.
pub open spec fn luks_format_words(cfg: ConfigModel, dev: Seq<char>) -> Seq<Seq<char>> {
    let c = cfg.crypt;
    let base = seq!["cryptsetup"@].push("-q"@).push("luksFormat"@).push("--cipher="@ + c.cipher).push(
        "--key-size="@ + dec(c.key_size as nat),
    ).push("--sector-size="@ + dec(c.sector_size as nat));
    let sealed = if c.integrity == "aead"@ {
        if c.integrity_no_wipe {
            base.push("--integrity=aead"@).push("--integrity-no-wipe"@)
        } else {
            base.push("--integrity=aead"@)
        }
    } else {
        base
    };
    (sealed + c.extra_args).push(dev)
}

fn cryptsetup_format_argv(cfg: &Config, dev: &str) -> (r: Vec<String>)
    ensures
        texts(r@) == luks_format_words(cfg@, dev@),
{
    let c = &cfg.crypt;
    let base = cmd("cryptsetup").arg("-q").arg("luksFormat").arg(
        "--cipher=".to_owned().concat(c.cipher.as_str()).as_str(),
    ).arg("--key-size=".to_owned().concat(decimal(c.key_size as u64).as_str()).as_str()).arg(
        "--sector-size=".to_owned().concat(decimal(c.sector_size as u64).as_str()).as_str(),
    );
    let sealed = if same(c.integrity.as_str(), "aead") {
        // skipping the full-device wipe leaves the tags uninitialized until written;
        // it is only valid alongside --integrity.
        if c.integrity_no_wipe {
            base.arg("--integrity=aead").arg("--integrity-no-wipe")
        } else {
            base.arg("--integrity=aead")
        }
    } else {
        base
    };
    sealed.args(&c.extra_args).arg(dev)
}

/// luks-formats a single device.
pub open spec fn crypt_format_device_plan(
    cfg: ConfigModel,
    dev: Seq<char>,
    note: Seq<char>,
) -> StepModel {
    run_step(note, luks_format_words(cfg, dev)).secret()
}

/// luks-formats a single device (eg. the md array in the integrity stack).
pub fn crypt_format_device(cfg: &Config, dev: &str, note: &str) -> (r: Step)
    ensures
        r@ == crypt_format_device_plan(cfg@, dev@, note@),
{
    Step::run_owned(note, cryptsetup_format_argv(cfg, dev)).secret()
}

/// The plan of `crypt_open_device`.
pub open spec fn crypt_open_device_plan(
    dev: Seq<char>,
    name: Seq<char>,
    note: Seq<char>,
) -> StepModel {
    run_step(note, seq!["cryptsetup"@].push("luksOpen"@).push(dev).push(name)).secret()
}

/// Unlocks a single device under the given mapper name.
pub fn crypt_open_device(dev: &str, name: &str, note: &str) -> (r: Step)
    ensures
        r@ == crypt_open_device_plan(dev@, name@, note@),
{
    Step::run_owned(note, cmd("cryptsetup").arg("luksOpen").arg(dev).arg(name)).secret()
}

/// The steps of `crypt_format_disks` for one disk.
pub open spec fn crypt_format_disk(
    cfg: ConfigModel,
    layout: LayoutModel,
    d: Seq<char>,
) -> Seq<StepModel> {
    let dev = layout.part(d, 3);
    seq![
        crypt_format_device_plan(cfg, dev, "luks-format "@ + dev),
        crypt_preserve_uuid_plan(dev, layout.crypt_name(d)),
    ]
}

/// The plan of `crypt_format_disks`.
pub open spec fn crypt_format_disks_plan(cfg: ConfigModel, layout: LayoutModel) -> Seq<StepModel> {
    each(layout.members, |d: Seq<char>| crypt_format_disk(cfg, layout, d))
}

/// luks-formats the root partition on every member disk, then restores each disk's
/// original luks uuid (a no-op at install, load-bearing on replace).
pub fn crypt_format_disks(cfg: &Config, layout: &Layout) -> (r: Vec<Step>)
    ensures
        models(r@) == crypt_format_disks_plan(cfg@, layout@),
{
    let each_d = |d: &str| -> (s: Vec<Step>)
        ensures
            models(s@) =~= crypt_format_disk(cfg@, layout@, d@),
    {
        let mut s = no_steps();
        let dev_text = layout.part(d, 3);
        let dev = dev_text.as_str();
        add_step(
            &mut s,
            crypt_format_device(cfg, dev, "luks-format ".to_owned().concat(dev).as_str()),
        );
        add_step(&mut s, crypt_preserve_uuid(dev, layout.crypt_name(d).as_str()));
        s
    };
    each_disk(&layout.members, each_d, Ghost(|d: Seq<char>| crypt_format_disk(cfg@, layout@, d)))
}

/// The plan of `md_status`.
pub open spec fn md_status_plan() -> Seq<StepModel> {
    seq![
        run_step(
            "md array detail"@,
            seq!["mdadm"@].push("--detail"@).push(ROOT_MD_DEVICE@),
        ).best_effort(),
    ]
}

/// Root md array health detail, shared by the md-backed stacks.
pub fn md_status() -> (r: Vec<Step>)
    ensures
        models(r@) == md_status_plan(),
{
    let mut s = no_steps();
    add_step(
        &mut s,
        Step::run_owned(
            "md array detail",
            cmd("mdadm").arg("--detail").arg(ROOT_MD_DEVICE),
        ).best_effort(),
    );
    s
}

/// The plan of `md_scrub`.
pub open spec fn md_scrub_plan() -> Seq<StepModel> {
    seq![
        run_step(
            "start a check scrub"@,
            seq!["mdadm"@].push("--action=check"@).push(ROOT_MD_DEVICE@),
        ),
    ].push(run_step("wait for the scrub"@, seq!["mdadm"@].push("--wait"@).push(ROOT_MD_DEVICE@)))
}

/// Starts and waits for a check scrub of the root md array.
pub fn md_scrub() -> (r: Vec<Step>)
    ensures
        models(r@) == md_scrub_plan(),
{
    let mut s = no_steps();
    add_step(
        &mut s,
        Step::run_owned(
            "start a check scrub",
            cmd("mdadm").arg("--action=check").arg(ROOT_MD_DEVICE),
        ),
    );
    add_step(
        &mut s,
        Step::run_owned("wait for the scrub", cmd("mdadm").arg("--wait").arg(ROOT_MD_DEVICE)),
    );
    s
}

/// What the md array is built over: each member's crypt or integrity device.
#[derive(Clone, Copy)]
pub enum Layer {
    Crypt,
    Integrity,
}

impl Layer {
    /// The array-member device of a disk.
    pub open spec fn member_of(self, layout: LayoutModel, disk: Seq<char>) -> Seq<char> {
        match self {
            Layer::Crypt => layout.crypt_device(disk),
            Layer::Integrity => layout.int_device_of(disk),
        }
    }

    /// The array-member device of a disk.
    pub fn member(self, layout: &Layout, disk: &str) -> (r: String)
        ensures
            r@ == self.member_of(layout@, disk@),
    {
        match self {
            Layer::Crypt => layout.crypt_device(disk),
            Layer::Integrity => layout.int_device_of(disk),
        }
    }
}

/// The steps of `md_replace` for one disk.
pub open spec fn md_replace_disk(
    layout: LayoutModel,
    layer: Layer,
    d: Seq<char>,
) -> Seq<StepModel> {
    let dev = layer.member_of(layout, d);
    seq![
        run_step(
            "clear stale superblock on "@ + dev,
            seq!["mdadm"@].push("--zero-superblock"@).push(dev),
        ).best_effort(),
        run_step(
            "re-add "@ + dev + " to the root array"@,
            seq!["mdadm"@].push("--add"@).push(ROOT_MD_DEVICE@).push(dev),
        ),
    ]
}

/// The plan of `md_replace`.
pub open spec fn md_replace_plan(
    layout: LayoutModel,
    disks: Seq<Seq<char>>,
    layer: Layer,
) -> Seq<StepModel> {
    let s = each(disks, |d: Seq<char>| md_replace_disk(layout, layer, d));
    s.push(
        run_step("wait for the rebuild"@, seq!["mdadm"@].push("--wait"@).push(ROOT_MD_DEVICE@)),
    )
}

/// Zeroes each replacement member's stale superblock, re-adds it to the root array,
/// then waits for the rebuild.
pub fn md_replace(layout: &Layout, disks: &Vec<String>, layer: Layer) -> (r: Vec<Step>)
    ensures
        models(r@) == md_replace_plan(layout@, texts(disks@), layer),
{
    let mut s = no_steps();
    let each_d = |d: &str| -> (s: Vec<Step>)
        ensures
            models(s@) =~= md_replace_disk(layout@, layer, d@),
    {
        let mut s = no_steps();
        let dev_text = layer.member(layout, d);
        let dev = dev_text.as_str();
        add_step(
            &mut s,
            Step::run_owned(
                "clear stale superblock on ".to_owned().concat(dev).as_str(),
                cmd("mdadm").arg("--zero-superblock").arg(dev),
            ).best_effort(),
        );
        add_step(
            &mut s,
            Step::run_owned(
                "re-add ".to_owned().concat(dev).concat(" to the root array").as_str(),
                cmd("mdadm").arg("--add").arg(ROOT_MD_DEVICE).arg(dev),
            ),
        );
        s
    };
    add_steps(
        &mut s,
        each_disk(disks, each_d, Ghost(|d: Seq<char>| md_replace_disk(layout@, layer, d))),
    );
    add_step(
        &mut s,
        Step::run_owned("wait for the rebuild", cmd("mdadm").arg("--wait").arg(ROOT_MD_DEVICE)),
    );
    s
}

/// The plan of `layer_close`.
pub open spec fn layer_close_plan(layout: LayoutModel, disk: Seq<char>, layer: Layer) -> StepModel {
    if layer is Crypt {
        crypt_close_plan(layout.crypt_name(disk))
    } else {
        integrity_close_plan(layout.int_name(disk))
    }
}

/// Closes a disk's layer below the array.
pub fn layer_close(layout: &Layout, disk: &str, layer: Layer) -> (r: Step)
    ensures
        r@ == layer_close_plan(layout@, disk@, layer),
{
    if matches!(layer, Layer::Crypt) {
        crypt_close(layout.crypt_name(disk).as_str())
    } else {
        integrity_close(layout.int_name(disk).as_str())
    }
}

/// The plan of `crypt_close`.
pub open spec fn crypt_close_plan(name: Seq<char>) -> StepModel {
    run_step("lock "@ + name, seq!["cryptsetup"@].push("luksClose"@).push(name)).best_effort()
}

/// Best-effort lock of a crypt mapping.
pub fn crypt_close(name: &str) -> (r: Step)
    ensures
        r@ == crypt_close_plan(name@),
{
    Step::run_owned(
        "lock ".to_owned().concat(name).as_str(),
        cmd("cryptsetup").arg("luksClose").arg(name),
    ).best_effort()
}

/// The plan of `integrity_close`.
pub open spec fn integrity_close_plan(name: Seq<char>) -> StepModel {
    run_step(
        "close integrity device "@ + name,
        seq!["integritysetup"@].push("close"@).push(name),
    ).best_effort()
}

/// Best-effort close of an integrity mapping.
pub fn integrity_close(name: &str) -> (r: Step)
    ensures
        r@ == integrity_close_plan(name@),
{
    Step::run_owned(
        "close integrity device ".to_owned().concat(name).as_str(),
        cmd("integritysetup").arg("close").arg(name),
    ).best_effort()
}

/// The steps of `md_remove` for one disk.
pub open spec fn md_remove_disk(layout: LayoutModel, layer: Layer, d: Seq<char>) -> Seq<StepModel> {
    let dev = layer.member_of(layout, d);
    seq![
        run_step(
            "fail "@ + dev + " in the root array"@,
            seq!["mdadm"@].push("--fail"@).push(ROOT_MD_DEVICE@).push(dev),
        ).best_effort(),
        run_step(
            "remove "@ + dev + " from the root array"@,
            seq!["mdadm"@].push("--remove"@).push(ROOT_MD_DEVICE@).push(dev),
        ).best_effort(),
    ]
}

/// The steps of `md_remove` for one disk.
pub open spec fn md_remove_teardown(
    layout: LayoutModel,
    layer: Layer,
    e: Seq<char>,
) -> Seq<StepModel> {
    seq![layer_close_plan(layout, e, layer)]
}

/// The plan of `md_remove`.
pub open spec fn md_remove_plan(
    layout: LayoutModel,
    disks: Seq<Seq<char>>,
    layer: Layer,
) -> Seq<StepModel> {
    let s = each(disks, |d: Seq<char>| md_remove_disk(layout, layer, d));
    s + md_drop_missing_plan(ROOT_MD_DEVICE@) + each(disks, |e: Seq<char>| md_remove_teardown(layout, layer, e))
}

/// Fails and removes each disk's member from the root array, clears any vacant slot
/// left by a wholly-lost disk, then tears down each member's lower layer.
pub fn md_remove(layout: &Layout, disks: &Vec<String>, layer: Layer) -> (r: Vec<Step>)
    ensures
        models(r@) == md_remove_plan(layout@, texts(disks@), layer),
{
    let mut s = no_steps();
    let each_d = |d: &str| -> (s: Vec<Step>)
        ensures
            models(s@) =~= md_remove_disk(layout@, layer, d@),
    {
        let mut s = no_steps();
        let dev_text = layer.member(layout, d);
        let dev = dev_text.as_str();
        add_step(
            &mut s,
            Step::run_owned(
                "fail ".to_owned().concat(dev).concat(" in the root array").as_str(),
                cmd("mdadm").arg("--fail").arg(ROOT_MD_DEVICE).arg(dev),
            ).best_effort(),
        );
        add_step(
            &mut s,
            Step::run_owned(
                "remove ".to_owned().concat(dev).concat(" from the root array").as_str(),
                cmd("mdadm").arg("--remove").arg(ROOT_MD_DEVICE).arg(dev),
            ).best_effort(),
        );
        s
    };
    add_steps(
        &mut s,
        each_disk(disks, each_d, Ghost(|d: Seq<char>| md_remove_disk(layout@, layer, d))),
    );
    add_steps(&mut s, md_drop_missing(ROOT_MD_DEVICE));
    let each_e = |e: &str| -> (s: Vec<Step>)
        ensures
            models(s@) == md_remove_teardown(layout@, layer, e@),
    {
        let mut s = no_steps();
        add_step(&mut s, layer_close(layout, e, layer));
        s
    };
    add_steps(
        &mut s,
        each_disk(disks, each_e, Ghost(|e: Seq<char>| md_remove_teardown(layout@, layer, e))),
    );
    s
}

/// The recovery actions of the md-backed stacks: assemble and run the array (--run
/// kicks a dirty-degraded array that stalled), activate lvm, then mount the root.
pub open spec fn md_recover_plan(at: Seq<char>) -> Seq<RecoverModel> {
    seq![
        RecoverModel {
            label: "assemble and run the root array, activate lvm"@,
            steps: seq![md_assemble_plan(ROOT_MD_NAME@).best_effort()].push(
                run_step(
                    "run "@ + ROOT_MD_DEVICE@ + " (kick a stalled degraded array)"@,
                    seq!["mdadm"@].push("--run"@).push(ROOT_MD_DEVICE@),
                ).best_effort(),
            ).push(lvm_activate_plan()),
        },
        RecoverModel {
            label: "mount the root filesystem at "@ + at,
            steps: seq![
                run_step(
                    "mount /dev/vg0/root at "@ + at,
                    seq!["mount"@].push("/dev/vg0/root"@).push(at),
                ),
            ],
        },
    ]
}

/// The recovery actions of the md-backed stacks, with the crypt layer already open.
pub fn md_recover_actions(at: &str) -> (r: Vec<RecoverAction>)
    ensures
        actions(r@) == md_recover_plan(at@),
{
    let mut assemble = one_step(md_assemble(ROOT_MD_NAME).best_effort());
    add_step(
        &mut assemble,
        Step::run_owned(
            "run ".to_owned().concat(ROOT_MD_DEVICE).concat(" (kick a stalled degraded array)")
                .as_str(),
            cmd("mdadm").arg("--run").arg(ROOT_MD_DEVICE),
        ).best_effort(),
    );
    add_step(&mut assemble, lvm_activate());
    let mount = one_step(
        Step::run_owned(
            "mount /dev/vg0/root at ".to_owned().concat(at).as_str(),
            cmd("mount").arg("/dev/vg0/root").arg(at),
        ),
    );
    two_actions(
        RecoverAction::new("assemble and run the root array, activate lvm", assemble),
        RecoverAction::new("mount the root filesystem at ".to_owned().concat(at).as_str(), mount),
    )
}

/// The plan of `crypt_partition_root`.
pub open spec fn crypt_partition_root_plan(
    cfg: ConfigModel,
    layout: LayoutModel,
) -> Seq<StepModel> {
    let s = create_root_partitions_plan(cfg, layout);
    s + crypt_format_disks_plan(cfg, layout) + crypt_open_disks_plan(layout)
}

/// Creates each disk's root partition, luks-formats it (restoring its uuid on
/// replace), and opens it.
pub fn crypt_partition_root(cfg: &Config, layout: &Layout) -> (r: Vec<Step>)
    ensures
        models(r@) == crypt_partition_root_plan(cfg@, layout@),
{
    let mut s = no_steps();
    add_steps(&mut s, create_root_partitions(cfg, layout));
    add_steps(&mut s, crypt_format_disks(cfg, layout));
    add_steps(&mut s, crypt_open_disks(layout));
    s
}

/// The plan of `crypt_preserve_uuid`.
pub open spec fn crypt_preserve_uuid_plan(dev: Seq<char>, name: Seq<char>) -> StepModel {
    sh_step(
        "preserve "@ + name + " luks uuid from /etc/crypttab (replace)"@,
        "uuid=$(awk -v n="@ + name
            + " '$1==n {print $2}' /etc/crypttab 2>/dev/null | sed 's/^UUID=//'); if [ -n \"$uuid\" ]; then cryptsetup -q luksUUID "@
            + dev + " --uuid \"$uuid\"; fi"@,
    )
}

/// Stamps the disk's original luks uuid -- read from the running /etc/crypttab --
/// onto the freshly formatted header. A no-op at install, where no entry exists yet;
/// on replace it keeps the installed crypttab's reference valid.
pub fn crypt_preserve_uuid(dev: &str, name: &str) -> (r: Step)
    ensures
        r@ == crypt_preserve_uuid_plan(dev@, name@),
{
    Step::sh(
        "preserve ".to_owned().concat(name).concat(" luks uuid from /etc/crypttab (replace)")
            .as_str(),
        "uuid=$(awk -v n=".to_owned().concat(name)
            .concat(
                " '$1==n {print $2}' /etc/crypttab 2>/dev/null | sed 's/^UUID=//'); if [ -n \"$uuid\" ]; then cryptsetup -q luksUUID ",
            )
            .concat(dev).concat(" --uuid \"$uuid\"; fi").as_str(),
    )
}

/// The steps of `crypt_open_disks` for one disk.
pub open spec fn crypt_open_disk(layout: LayoutModel, d: Seq<char>) -> Seq<StepModel> {
    let dev = layout.part(d, 3);
    let name = layout.crypt_name(d);
    seq![crypt_open_device_plan(dev, name, "unlock "@ + dev + " as "@ + name)]
}

/// The plan of `crypt_open_disks`.
pub open spec fn crypt_open_disks_plan(layout: LayoutModel) -> Seq<StepModel> {
    each(layout.members, |d: Seq<char>| crypt_open_disk(layout, d))
}

/// Unlocks each member's root partition.
pub fn crypt_open_disks(layout: &Layout) -> (r: Vec<Step>)
    ensures
        models(r@) == crypt_open_disks_plan(layout@),
{
    let each_d = |d: &str| -> (s: Vec<Step>)
        ensures
            models(s@) == crypt_open_disk(layout@, d@),
    {
        let mut s = no_steps();
        let dev_text = layout.part(d, 3);
        let dev = dev_text.as_str();
        let name_text = layout.crypt_name(d);
        let name = name_text.as_str();
        add_step(
            &mut s,
            crypt_open_device(
                dev,
                name,
                "unlock ".to_owned().concat(dev).concat(" as ").concat(name).as_str(),
            ),
        );
        s
    };
    each_disk(&layout.members, each_d, Ghost(|d: Seq<char>| crypt_open_disk(layout@, d)))
}

/// The steps of `crypt_close_disks` for one disk.
pub open spec fn crypt_close_disk(name: Seq<char>) -> Seq<StepModel> {
    seq![crypt_close_plan(name)]
}

/// The plan of `crypt_close_disks`.
pub open spec fn crypt_close_disks_plan(layout: LayoutModel) -> Seq<StepModel> {
    each(layout.crypt_names(), |name: Seq<char>| crypt_close_disk(name))
}

/// Best-effort lock of every member's root mapping.
pub fn crypt_close_disks(layout: &Layout) -> (r: Vec<Step>)
    ensures
        models(r@) == crypt_close_disks_plan(layout@),
{
    let each_name = |name: &str| -> (s: Vec<Step>)
        ensures
            models(s@) == crypt_close_disk(name@),
    {
        let mut s = no_steps();
        add_step(&mut s, crypt_close(name));
        s
    };
    each_disk(&layout.crypt_names(), each_name, Ghost(|name: Seq<char>| crypt_close_disk(name)))
}

/// The plan of `md_create`.
pub open spec fn md_create_plan(
    name: Seq<char>,
    level: Seq<char>,
    bitmap: Seq<char>,
    devices: Seq<Seq<char>>,
) -> StepModel {
    let count = dec(devices.len());
    let list = joined(devices, " "@);
    sh_step(
        "create md array "@ + name + " (level "@ + level + ")"@,
        "yes | mdadm --create --name="@ + name + " --level="@ + level + " --raid-devices="@ + count
            + " --bitmap="@ + bitmap + " /dev/md/"@ + name + " "@ + list,
    )
}

/// Creates an md array across the given member devices. `yes |` answers mdadm's
/// boot-device prompt, so creation is non-interactive.
pub fn md_create(name: &str, level: &str, bitmap: &str, devices: &Vec<String>) -> (r: Step)
    ensures
        r@ == md_create_plan(name@, level@, bitmap@, texts(devices@)),
{
    let count_text = decimal(devices.len() as u64);
    let count = count_text.as_str();
    let list_text = join(devices, " ");
    let list = list_text.as_str();
    Step::sh(
        "create md array ".to_owned().concat(name).concat(" (level ").concat(level).concat(")")
            .as_str(),
        "yes | mdadm --create --name=".to_owned().concat(name).concat(" --level=").concat(level)
            .concat(" --raid-devices=").concat(count).concat(" --bitmap=").concat(bitmap)
            .concat(" /dev/md/").concat(name).concat(" ").concat(list).as_str(),
    )
}

/// The plan of `md_assemble`.
pub open spec fn md_assemble_plan(name: Seq<char>) -> StepModel {
    run_step(
        "assemble md array "@ + name,
        seq!["mdadm"@].push("--assemble"@).push("--name="@ + name).push("/dev/md/"@ + name),
    )
}

/// Assembles a previously created md array by name.
pub fn md_assemble(name: &str) -> (r: Step)
    ensures
        r@ == md_assemble_plan(name@),
{
    Step::run_owned(
        "assemble md array ".to_owned().concat(name).as_str(),
        cmd("mdadm").arg("--assemble").arg("--name=".to_owned().concat(name).as_str())
            .arg("/dev/md/".to_owned().concat(name).as_str()),
    )
}

/// The plan of `md_drop_missing`.
pub open spec fn md_drop_missing_plan(device: Seq<char>) -> Seq<StepModel> {
    seq![run_step("drop failed members from "@ + device, seq!["mdadm"@].push("--remove"@).push(device).push("failed"@)).best_effort()].push(
        run_step(
            "drop detached members from "@ + device,
            seq!["mdadm"@].push("--remove"@).push(device).push("detached"@),
        ).best_effort(),
    )
}

/// Clears vanished members from an md array. A wholly-lost disk has no device node,
/// so removing it by device is a no-op and the array keeps the vacant slot.
pub fn md_drop_missing(device: &str) -> (r: Vec<Step>)
    ensures
        models(r@) == md_drop_missing_plan(device@),
{
    let mut s = no_steps();
    add_step(
        &mut s,
        Step::run_owned(
            "drop failed members from ".to_owned().concat(device).as_str(),
            cmd("mdadm").arg("--remove").arg(device).arg("failed"),
        ).best_effort(),
    );
    add_step(
        &mut s,
        Step::run_owned(
            "drop detached members from ".to_owned().concat(device).as_str(),
            cmd("mdadm").arg("--remove").arg(device).arg("detached"),
        ).best_effort(),
    );
    s
}

/// The plan of `md_stop`.
pub open spec fn md_stop_plan(device: Seq<char>) -> StepModel {
    run_step("stop md array "@ + device, seq!["mdadm"@].push("--stop"@).push(device)).best_effort()
}

/// Best-effort stop of an md array.
pub fn md_stop(device: &str) -> (r: Step)
    ensures
        r@ == md_stop_plan(device@),
{
    Step::run_owned(
        "stop md array ".to_owned().concat(device).as_str(),
        cmd("mdadm").arg("--stop").arg(device),
    ).best_effort()
}

/// The plan of `md_stop_holders`.
pub open spec fn md_stop_holders_plan(devices: Seq<Seq<char>>) -> StepModel {
    let list = joined(devices, " "@);
    sh_step(
        "stop any md array holding the member devices"@,
        "for d in "@ + list
            + "; do b=$(readlink -f \"$d\" 2>/dev/null); [ -n \"$b\" ] || continue; n=$(basename \"$b\"); for h in /sys/block/\"$n\"/holders/md*; do [ -e \"$h\" ] && mdadm --stop \"/dev/$(basename \"$h\")\"; done; done; true"@,
    ).best_effort()
}

/// Best-effort: stops whatever md array holds any of `devices`, also one assembled
/// under a non-canonical node. Devices that are absent or hold no array are skipped.
pub fn md_stop_holders(devices: &Vec<String>) -> (r: Step)
    ensures
        r@ == md_stop_holders_plan(texts(devices@)),
{
    let list_text = join(devices, " ");
    let list = list_text.as_str();
    Step::sh(
        "stop any md array holding the member devices",
        "for d in ".to_owned().concat(list)
            .concat(
                "; do b=$(readlink -f \"$d\" 2>/dev/null); [ -n \"$b\" ] || continue; n=$(basename \"$b\"); for h in /sys/block/\"$n\"/holders/md*; do [ -e \"$h\" ] && mdadm --stop \"/dev/$(basename \"$h\")\"; done; done; true",
            )
            .as_str(),
    ).best_effort()
}

/// The plan of `lvm_create_root`.
pub open spec fn lvm_create_root_plan(pv: Seq<char>) -> Seq<StepModel> {
    seq![
        run_step("create physical volume on "@ + pv, seq!["pvcreate"@].push(pv)),
        run_step("create volume group vg0"@, seq!["vgcreate"@].push("vg0"@).push(pv)),
        run_step(
            "create logical volume vg0/root"@,
            seq!["lvcreate"@].push("--extents=90%FREE"@).push("--name=root"@).push("vg0"@),
        ),
    ]
}

/// Creates the vg0/root logical volume on the given physical volume.
pub fn lvm_create_root(pv: &str) -> (r: Vec<Step>)
    ensures
        models(r@) == lvm_create_root_plan(pv@),
{
    let mut s = no_steps();
    add_step(
        &mut s,
        Step::run_owned(
            "create physical volume on ".to_owned().concat(pv).as_str(),
            cmd("pvcreate").arg(pv),
        ),
    );
    add_step(
        &mut s,
        Step::run_owned("create volume group vg0", cmd("vgcreate").arg("vg0").arg(pv)),
    );
    add_step(
        &mut s,
        Step::run_owned(
            "create logical volume vg0/root",
            cmd("lvcreate").arg("--extents=90%FREE").arg("--name=root").arg("vg0"),
        ),
    );
    s
}

/// The plan of `lvm_activate`.
pub open spec fn lvm_activate_plan() -> StepModel {
    run_step("activate vg0"@, seq!["vgchange"@].push("-a"@).push("y"@).push("vg0"@))
}

/// Activates the volume group.
pub fn lvm_activate() -> (r: Step)
    ensures
        r@ == lvm_activate_plan(),
{
    Step::run_owned("activate vg0", cmd("vgchange").arg("-a").arg("y").arg("vg0"))
}

/// The plan of `lvm_deactivate`.
pub open spec fn lvm_deactivate_plan() -> StepModel {
    run_step("deactivate vg0"@, seq!["vgchange"@].push("-a"@).push("n"@).push("vg0"@)).best_effort()
}

/// Deactivates the volume group; a failure is ignored.
pub fn lvm_deactivate() -> (r: Step)
    ensures
        r@ == lvm_deactivate_plan(),
{
    Step::run_owned("deactivate vg0", cmd("vgchange").arg("-a").arg("n").arg("vg0")).best_effort()
}

/// The plan of `mkfs_ext4_root`.
pub open spec fn mkfs_ext4_root_plan() -> StepModel {
    run_step(
        "format vg0/root as ext4 (aligned to md geometry at run time)"@,
        seq!["mkfs.ext4"@].push("-m"@).push("0"@).push("/dev/vg0/root"@),
    )
}

/// Formats vg0/root as ext4. Stride and stripe-width are aligned to the real md
/// geometry at run time, which is why no -E options appear here.
pub fn mkfs_ext4_root() -> (r: Step)
    ensures
        r@ == mkfs_ext4_root_plan(),
{
    Step::run_owned(
        "format vg0/root as ext4 (aligned to md geometry at run time)",
        cmd("mkfs.ext4").arg("-m").arg("0").arg("/dev/vg0/root"),
    )
}

/// The plan of `fstab_root_ext4`.
pub open spec fn fstab_root_ext4_plan() -> StepModel {
    append_step(
        "add the root filesystem to fstab"@,
        "/mnt/etc/fstab"@,
        "/dev/vg0/root / ext4 rw,relatime,errors=remount-ro 0 0\n"@,
    )
}

/// Appends the ext4 root line to the target fstab.
pub fn fstab_root_ext4() -> (r: Step)
    ensures
        r@ == fstab_root_ext4_plan(),
{
    Step::append(
        "add the root filesystem to fstab",
        "/mnt/etc/fstab",
        "/dev/vg0/root / ext4 rw,relatime,errors=remount-ro 0 0\n",
    )
}

/// The plan of `mkfs_xfs_root`.
pub open spec fn mkfs_xfs_root_plan() -> StepModel {
    run_step("format vg0/root as xfs"@, seq!["mkfs.xfs"@].push("-f"@).push("/dev/vg0/root"@))
}

/// Formats vg0/root as xfs, which detects the md stripe geometry itself.
pub fn mkfs_xfs_root() -> (r: Step)
    ensures
        r@ == mkfs_xfs_root_plan(),
{
    Step::run_owned("format vg0/root as xfs", cmd("mkfs.xfs").arg("-f").arg("/dev/vg0/root"))
}

/// The plan of `fstab_root_xfs`.
pub open spec fn fstab_root_xfs_plan() -> StepModel {
    append_step(
        "add the root filesystem to fstab"@,
        "/mnt/etc/fstab"@,
        "/dev/vg0/root / xfs defaults 0 0\n"@,
    )
}

/// Appends the xfs root line to the target fstab.
pub fn fstab_root_xfs() -> (r: Step)
    ensures
        r@ == fstab_root_xfs_plan(),
{
    Step::append(
        "add the root filesystem to fstab",
        "/mnt/etc/fstab",
        "/dev/vg0/root / xfs defaults 0 0\n",
    )
}

/// The plan of `fstab_root_btrfs`.
pub open spec fn fstab_root_btrfs_plan(layout: LayoutModel) -> StepModel {
    let dev = first_or_empty(layout.crypt_devices());
    sh_step(
        "add the btrfs root to fstab"@,
        "uuid=$(blkid -s UUID -o value "@ + dev
            + "); opts=$(awk '$2==\"/mnt\" && $3==\"btrfs\" {print $4}' /proc/self/mounts); echo \"UUID=$uuid / btrfs ${opts:-defaults} 0 0\" >> /mnt/etc/fstab"@,
    )
}

/// Appends the btrfs root line to the target fstab: the filesystem uuid, mounted at
/// /, with the options of the live mount.
pub fn fstab_root_btrfs(layout: &Layout) -> (r: Step)
    ensures
        r@ == fstab_root_btrfs_plan(layout@),
{
    let dev_text = first_of(&layout.crypt_devices());
    let dev = dev_text.as_str();
    Step::sh(
        "add the btrfs root to fstab",
        "uuid=$(blkid -s UUID -o value ".to_owned().concat(dev)
            .concat(
                "); opts=$(awk '$2==\"/mnt\" && $3==\"btrfs\" {print $4}' /proc/self/mounts); echo \"UUID=$uuid / btrfs ${opts:-defaults} 0 0\" >> /mnt/etc/fstab",
            )
            .as_str(),
    )
}

/// The plan of `fstab_root_bcachefs`.
pub open spec fn fstab_root_bcachefs_plan(layout: LayoutModel) -> StepModel {
    let dev = first_or_empty(layout.crypt_devices());
    sh_step(
        "add the bcachefs root to fstab"@,
        "uuid=$(blkid -s UUID -o value "@ + dev
            + "); echo \"UUID=$uuid / bcachefs defaults 0 0\" >> /mnt/etc/fstab"@,
    )
}

/// Appends the bcachefs root line to the target fstab, keyed by the filesystem uuid.
pub fn fstab_root_bcachefs(layout: &Layout) -> (r: Step)
    ensures
        r@ == fstab_root_bcachefs_plan(layout@),
{
    let dev_text = first_of(&layout.crypt_devices());
    let dev = dev_text.as_str();
    Step::sh(
        "add the bcachefs root to fstab",
        "uuid=$(blkid -s UUID -o value ".to_owned().concat(dev)
            .concat("); echo \"UUID=$uuid / bcachefs defaults 0 0\" >> /mnt/etc/fstab").as_str(),
    )
}

/// The plan of `modprobe`.
pub open spec fn modprobe_plan(module: Seq<char>) -> StepModel {
    run_step("load the "@ + module + " kernel module"@, seq!["modprobe"@].push(module))
}

/// Loads a kernel module on the live host.
pub fn modprobe(module: &str) -> (r: Step)
    ensures
        r@ == modprobe_plan(module@),
{
    Step::run_owned(
        "load the ".to_owned().concat(module).concat(" kernel module").as_str(),
        cmd("modprobe").arg(module),
    )
}

/// One line of the crypttab script: resolve the member's luks uuid and print its entry.
pub open spec fn crypttab_line(layout: LayoutModel, opts: Seq<char>, disk: Seq<char>) -> Seq<char> {
    "uuid=$(blkid -s UUID -o value "@ + layout.part(disk, 3) + "); echo \""@
        + layout.crypt_name(disk) + " UUID=$uuid none "@ + opts + "\"\n"@
}

/// The lines of the crypttab script for a list of disks.
pub open spec fn crypttab_lines(
    layout: LayoutModel,
    opts: Seq<char>,
    disks: Seq<Seq<char>>,
) -> Seq<char>
    decreases disks.len(),
{
    if disks.len() == 0 {
        Seq::empty()
    } else {
        crypttab_lines(layout, opts, disks.drop_last()) + crypttab_line(layout, opts, disks.last())
    }
}

/// A script that writes the whole crypttab to `target`.
pub open spec fn crypttab_step_plan(
    layout: LayoutModel,
    opts: Seq<char>,
    target: Seq<char>,
) -> StepModel {
    sh_step(
        "write "@ + target + " ("@ + opts + ")"@,
        "{\n"@ + crypttab_lines(layout, opts, layout.members) + ("} > "@ + target + "\n"@),
    )
}

/// Writes the crypttab, resolving each member's luks uuid via blkid, to `target`
/// ("/mnt/etc/crypttab" at install, "/etc/crypttab" on the running system).
pub fn crypttab_step(layout: &Layout, opts: &str, target: &str) -> (r: Step)
    ensures
        r@ == crypttab_step_plan(layout@, opts@, target@),
{
    let ghost all = layout@.members;
    let mut body = String::new();
    let mut i: usize = 0;
    while i < layout.members.len()
        invariant
            i <= layout.members.len(),
            all == layout@.members,
            body@ == crypttab_lines(layout@, opts@, all.take(i as int)),
        decreases layout.members.len() - i,
    {
        assert(all.take(i + 1).drop_last() =~= all.take(i as int));
        let disk = layout.members[i].as_str();
        let line = "uuid=$(blkid -s UUID -o value ".to_owned().concat(
            layout.part(disk, 3).as_str(),
        ).concat("); echo \"").concat(layout.crypt_name(disk).as_str()).concat(
            " UUID=$uuid none ",
        ).concat(opts).concat("\"\n");
        body.append(line.as_str());
        i += 1;
    }
    assert(all.take(all.len() as int) =~= all);
    let last = "} > ".to_owned().concat(target).concat("\n");
    let script = "{\n".to_owned().concat(body.as_str()).concat(last.as_str());
    Step::sh(
        "write ".to_owned().concat(target).concat(" (").concat(opts).concat(")").as_str(),
        script.as_str(),
    )
}

/// The initrd binaries common to every dm-crypt stack.
pub open spec fn crypt_initramfs_list() -> Seq<Seq<char>> {
    seq!["cryptsetup"@].push("keyctl"@).push("decrypt_keyctl"@)
}

/// The initrd binaries common to every dm-crypt stack: cryptsetup, and the
/// decrypt_keyctl keyscript with its keyctl.
pub fn crypt_initramfs_binaries() -> (r: Vec<String>)
    ensures
        texts(r@) == crypt_initramfs_list(),
{
    cmd("cryptsetup").arg("keyctl").arg("decrypt_keyctl")
}

/// The steps of `backup_luks_headers` for one disk.
pub open spec fn backup_luks_header(
    layout: LayoutModel,
    boot: Seq<char>,
    d: Seq<char>,
) -> Seq<StepModel> {
    let dev = layout.part(d, 3);
    seq![
        run_step(
            "back up luks header for "@ + dev,
            seq!["cryptsetup"@].push("luksHeaderBackup"@).push(dev).push("--header-backup-file"@)
                .push(boot + "/luks/"@ + d + "3-headers.bin"@),
        ),
    ]
}

/// The plan of `backup_luks_headers`.
pub open spec fn backup_luks_headers_plan(layout: LayoutModel, boot: Seq<char>) -> Seq<StepModel> {
    let s = seq![
        run_step(
            "create luks header backup directory on /boot"@,
            seq!["mkdir"@].push("-p"@).push(boot + "/luks"@),
        ),
    ];
    s + each(layout.members, |d: Seq<char>| backup_luks_header(layout, boot, d))
}

/// Backs up each member's luks header under `<boot>/luks` ("/mnt/boot" at install,
/// "/boot" on the running system). Cryptsetup refuses to overwrite a backup.
pub fn backup_luks_headers(layout: &Layout, boot: &str) -> (r: Vec<Step>)
    ensures
        models(r@) == backup_luks_headers_plan(layout@, boot@),
{
    let mut s = no_steps();
    add_step(
        &mut s,
        Step::run_owned(
            "create luks header backup directory on /boot",
            cmd("mkdir").arg("-p").arg(boot.to_owned().concat("/luks").as_str()),
        ),
    );
    let each_d = |d: &str| -> (s: Vec<Step>)
        ensures
            models(s@) == backup_luks_header(layout@, boot@, d@),
    {
        let mut s = no_steps();
        let dev_text = layout.part(d, 3);
        let dev = dev_text.as_str();
        add_step(
            &mut s,
            Step::run_owned(
                "back up luks header for ".to_owned().concat(dev).as_str(),
                cmd("cryptsetup").arg("luksHeaderBackup").arg(dev).arg("--header-backup-file")
                    .arg(
                        boot.to_owned().concat("/luks/").concat(d).concat("3-headers.bin").as_str(),
                    ),
            ),
        );
        s
    };
    add_steps(
        &mut s,
        each_disk(
            &layout.members,
            each_d,
            Ghost(|d: Seq<char>| backup_luks_header(layout@, boot@, d)),
        ),
    );
    s
}

/// The plan of `install_keyutils`.
pub open spec fn install_keyutils_plan() -> StepModel {
    run_step(
        "install keyutils in target"@,
        seq!["apt-get"@].push("install"@).push("-y"@).push("keyutils"@),
    ).chroot()
}

/// Installs keyutils in the target so decrypt_keyctl can cache the passphrase.
pub fn install_keyutils() -> (r: Step)
    ensures
        r@ == install_keyutils_plan(),
{
    Step::run_owned(
        "install keyutils in target",
        cmd("apt-get").arg("install").arg("-y").arg("keyutils"),
    ).chroot()
}

/// The plan of `update_initramfs`.
pub open spec fn update_initramfs_plan() -> StepModel {
    run_step(
        "rebuild the initramfs"@,
        seq!["update-initramfs"@].push("-c"@).push("-k"@).push("all"@),
    ).chroot()
}

/// Rebuilds the target initrd for all kernels.
pub fn update_initramfs() -> (r: Step)
    ensures
        r@ == update_initramfs_plan(),
{
    Step::run_owned(
        "rebuild the initramfs",
        cmd("update-initramfs").arg("-c").arg("-k").arg("all"),
    ).chroot()
}

/// The plan of `update_initramfs_u`.
pub open spec fn update_initramfs_u_plan(chroot: bool) -> StepModel {
    if chroot {
        run_step(
            "rebuild the initramfs"@,
            seq!["update-initramfs"@].push("-u"@).push("-k"@).push("all"@),
        ).chroot()
    } else {
        run_step(
            "rebuild the initramfs"@,
            seq!["update-initramfs"@].push("-u"@).push("-k"@).push("all"@),
        )
    }
}

/// Rebuilds the initrd for all kernels in update mode, in the target's chroot or on
/// the running system.
pub fn update_initramfs_u(chroot: bool) -> (r: Step)
    ensures
        r@ == update_initramfs_u_plan(chroot),
{
    if chroot {
        Step::run_owned(
            "rebuild the initramfs",
            cmd("update-initramfs").arg("-u").arg("-k").arg("all"),
        ).chroot()
    } else {
        Step::run_owned(
            "rebuild the initramfs",
            cmd("update-initramfs").arg("-u").arg("-k").arg("all"),
        )
    }
}

/// The plan of `raiden_recovery_hook_step`.
pub open spec fn raiden_recovery_hook_step_plan(root: Seq<char>) -> StepModel {
    write_mode_step(
        "install the raiden recovery initramfs hook"@,
        root + RAIDEN_RECOVERY_HOOK@,
        INITRAMFS_HOOK_RAIDEN@,
        0o755,
    )
}

/// Installs the raiden recovery initramfs hook under `root` ("/mnt" at install, ""
/// on the running system).
pub fn raiden_recovery_hook_step(root: &str) -> (r: Step)
    ensures
        r@ == raiden_recovery_hook_step_plan(root@),
{
    Step::write_mode(
        "install the raiden recovery initramfs hook",
        root.to_owned().concat(RAIDEN_RECOVERY_HOOK).as_str(),
        INITRAMFS_HOOK_RAIDEN,
        0o755,
    )
}

// ------------------------------------------------------------------ selection

/// One of the stacks.
pub enum AnyStack {
    MdLvm(MdLvm),
    Btrfs(BtrfsStack),
    Bcachefs(BcachefsStack),
    Zfs(ZfsStack),
    MdIntegrity(MdIntegrity),
}

impl Stack for AnyStack {
    open spec fn id_text(&self) -> Seq<char> {
        match self {
            AnyStack::MdLvm(s) => s.id_text(),
            AnyStack::Btrfs(s) => s.id_text(),
            AnyStack::Bcachefs(s) => s.id_text(),
            AnyStack::Zfs(s) => s.id_text(),
            AnyStack::MdIntegrity(s) => s.id_text(),
        }
    }

    fn id(&self) -> (r: &str)
    {
        match self {
            AnyStack::MdLvm(s) => s.id(),
            AnyStack::Btrfs(s) => s.id(),
            AnyStack::Bcachefs(s) => s.id(),
            AnyStack::Zfs(s) => s.id(),
            AnyStack::MdIntegrity(s) => s.id(),
        }
    }

    open spec fn packages_list(&self) -> Seq<Seq<char>> {
        match self {
            AnyStack::MdLvm(s) => s.packages_list(),
            AnyStack::Btrfs(s) => s.packages_list(),
            AnyStack::Bcachefs(s) => s.packages_list(),
            AnyStack::Zfs(s) => s.packages_list(),
            AnyStack::MdIntegrity(s) => s.packages_list(),
        }
    }

    fn packages(&self) -> (r: Vec<String>)
    {
        match self {
            AnyStack::MdLvm(s) => s.packages(),
            AnyStack::Btrfs(s) => s.packages(),
            AnyStack::Bcachefs(s) => s.packages(),
            AnyStack::Zfs(s) => s.packages(),
            AnyStack::MdIntegrity(s) => s.packages(),
        }
    }

    open spec fn partition_root_plan(
        &self,
        cfg: ConfigModel,
        layout: LayoutModel,
    ) -> Seq<StepModel> {
        match self {
            AnyStack::MdLvm(s) => s.partition_root_plan(cfg, layout),
            AnyStack::Btrfs(s) => s.partition_root_plan(cfg, layout),
            AnyStack::Bcachefs(s) => s.partition_root_plan(cfg, layout),
            AnyStack::Zfs(s) => s.partition_root_plan(cfg, layout),
            AnyStack::MdIntegrity(s) => s.partition_root_plan(cfg, layout),
        }
    }

    fn partition_root(&self, cfg: &Config, layout: &Layout) -> (r: Vec<Step>)
    {
        match self {
            AnyStack::MdLvm(s) => s.partition_root(cfg, layout),
            AnyStack::Btrfs(s) => s.partition_root(cfg, layout),
            AnyStack::Bcachefs(s) => s.partition_root(cfg, layout),
            AnyStack::Zfs(s) => s.partition_root(cfg, layout),
            AnyStack::MdIntegrity(s) => s.partition_root(cfg, layout),
        }
    }

    open spec fn format_root_plan(&self, cfg: ConfigModel, layout: LayoutModel) -> Seq<StepModel> {
        match self {
            AnyStack::MdLvm(s) => s.format_root_plan(cfg, layout),
            AnyStack::Btrfs(s) => s.format_root_plan(cfg, layout),
            AnyStack::Bcachefs(s) => s.format_root_plan(cfg, layout),
            AnyStack::Zfs(s) => s.format_root_plan(cfg, layout),
            AnyStack::MdIntegrity(s) => s.format_root_plan(cfg, layout),
        }
    }

    fn format_root(&self, cfg: &Config, layout: &Layout) -> (r: Vec<Step>)
    {
        match self {
            AnyStack::MdLvm(s) => s.format_root(cfg, layout),
            AnyStack::Btrfs(s) => s.format_root(cfg, layout),
            AnyStack::Bcachefs(s) => s.format_root(cfg, layout),
            AnyStack::Zfs(s) => s.format_root(cfg, layout),
            AnyStack::MdIntegrity(s) => s.format_root(cfg, layout),
        }
    }

    open spec fn mount_root_plan(&self, cfg: ConfigModel, layout: LayoutModel) -> Seq<StepModel> {
        match self {
            AnyStack::MdLvm(s) => s.mount_root_plan(cfg, layout),
            AnyStack::Btrfs(s) => s.mount_root_plan(cfg, layout),
            AnyStack::Bcachefs(s) => s.mount_root_plan(cfg, layout),
            AnyStack::Zfs(s) => s.mount_root_plan(cfg, layout),
            AnyStack::MdIntegrity(s) => s.mount_root_plan(cfg, layout),
        }
    }

    fn mount_root(&self, cfg: &Config, layout: &Layout) -> (r: Vec<Step>)
    {
        match self {
            AnyStack::MdLvm(s) => s.mount_root(cfg, layout),
            AnyStack::Btrfs(s) => s.mount_root(cfg, layout),
            AnyStack::Bcachefs(s) => s.mount_root(cfg, layout),
            AnyStack::Zfs(s) => s.mount_root(cfg, layout),
            AnyStack::MdIntegrity(s) => s.mount_root(cfg, layout),
        }
    }

    open spec fn finish_plan(&self, cfg: ConfigModel, layout: LayoutModel) -> Seq<StepModel> {
        match self {
            AnyStack::MdLvm(s) => s.finish_plan(cfg, layout),
            AnyStack::Btrfs(s) => s.finish_plan(cfg, layout),
            AnyStack::Bcachefs(s) => s.finish_plan(cfg, layout),
            AnyStack::Zfs(s) => s.finish_plan(cfg, layout),
            AnyStack::MdIntegrity(s) => s.finish_plan(cfg, layout),
        }
    }

    fn finish(&self, cfg: &Config, layout: &Layout) -> (r: Vec<Step>)
    {
        match self {
            AnyStack::MdLvm(s) => s.finish(cfg, layout),
            AnyStack::Btrfs(s) => s.finish(cfg, layout),
            AnyStack::Bcachefs(s) => s.finish(cfg, layout),
            AnyStack::Zfs(s) => s.finish(cfg, layout),
            AnyStack::MdIntegrity(s) => s.finish(cfg, layout),
        }
    }

    open spec fn map_plan(&self, cfg: ConfigModel, layout: LayoutModel) -> Seq<StepModel> {
        match self {
            AnyStack::MdLvm(s) => s.map_plan(cfg, layout),
            AnyStack::Btrfs(s) => s.map_plan(cfg, layout),
            AnyStack::Bcachefs(s) => s.map_plan(cfg, layout),
            AnyStack::Zfs(s) => s.map_plan(cfg, layout),
            AnyStack::MdIntegrity(s) => s.map_plan(cfg, layout),
        }
    }

    fn map(&self, cfg: &Config, layout: &Layout) -> (r: Vec<Step>)
    {
        match self {
            AnyStack::MdLvm(s) => s.map(cfg, layout),
            AnyStack::Btrfs(s) => s.map(cfg, layout),
            AnyStack::Bcachefs(s) => s.map(cfg, layout),
            AnyStack::Zfs(s) => s.map(cfg, layout),
            AnyStack::MdIntegrity(s) => s.map(cfg, layout),
        }
    }

    open spec fn status_plan(&self, cfg: ConfigModel, layout: LayoutModel) -> Seq<StepModel> {
        match self {
            AnyStack::MdLvm(s) => s.status_plan(cfg, layout),
            AnyStack::Btrfs(s) => s.status_plan(cfg, layout),
            AnyStack::Bcachefs(s) => s.status_plan(cfg, layout),
            AnyStack::Zfs(s) => s.status_plan(cfg, layout),
            AnyStack::MdIntegrity(s) => s.status_plan(cfg, layout),
        }
    }

    fn status(&self, cfg: &Config, layout: &Layout) -> (r: Vec<Step>)
    {
        match self {
            AnyStack::MdLvm(s) => s.status(cfg, layout),
            AnyStack::Btrfs(s) => s.status(cfg, layout),
            AnyStack::Bcachefs(s) => s.status(cfg, layout),
            AnyStack::Zfs(s) => s.status(cfg, layout),
            AnyStack::MdIntegrity(s) => s.status(cfg, layout),
        }
    }

    open spec fn scrub_plan(&self, cfg: ConfigModel, layout: LayoutModel) -> Seq<StepModel> {
        match self {
            AnyStack::MdLvm(s) => s.scrub_plan(cfg, layout),
            AnyStack::Btrfs(s) => s.scrub_plan(cfg, layout),
            AnyStack::Bcachefs(s) => s.scrub_plan(cfg, layout),
            AnyStack::Zfs(s) => s.scrub_plan(cfg, layout),
            AnyStack::MdIntegrity(s) => s.scrub_plan(cfg, layout),
        }
    }

    fn scrub(&self, cfg: &Config, layout: &Layout) -> (r: Vec<Step>)
    {
        match self {
            AnyStack::MdLvm(s) => s.scrub(cfg, layout),
            AnyStack::Btrfs(s) => s.scrub(cfg, layout),
            AnyStack::Bcachefs(s) => s.scrub(cfg, layout),
            AnyStack::Zfs(s) => s.scrub(cfg, layout),
            AnyStack::MdIntegrity(s) => s.scrub(cfg, layout),
        }
    }

    open spec fn replace_plan(
        &self,
        cfg: ConfigModel,
        layout: LayoutModel,
        disks: Seq<Seq<char>>,
    ) -> Seq<StepModel> {
        match self {
            AnyStack::MdLvm(s) => s.replace_plan(cfg, layout, disks),
            AnyStack::Btrfs(s) => s.replace_plan(cfg, layout, disks),
            AnyStack::Bcachefs(s) => s.replace_plan(cfg, layout, disks),
            AnyStack::Zfs(s) => s.replace_plan(cfg, layout, disks),
            AnyStack::MdIntegrity(s) => s.replace_plan(cfg, layout, disks),
        }
    }

    fn replace(&self, cfg: &Config, layout: &Layout, disks: &Vec<String>) -> (r: Vec<Step>)
    {
        match self {
            AnyStack::MdLvm(s) => s.replace(cfg, layout, disks),
            AnyStack::Btrfs(s) => s.replace(cfg, layout, disks),
            AnyStack::Bcachefs(s) => s.replace(cfg, layout, disks),
            AnyStack::Zfs(s) => s.replace(cfg, layout, disks),
            AnyStack::MdIntegrity(s) => s.replace(cfg, layout, disks),
        }
    }

    open spec fn remove_plan(
        &self,
        cfg: ConfigModel,
        layout: LayoutModel,
        disks: Seq<Seq<char>>,
    ) -> Seq<StepModel> {
        match self {
            AnyStack::MdLvm(s) => s.remove_plan(cfg, layout, disks),
            AnyStack::Btrfs(s) => s.remove_plan(cfg, layout, disks),
            AnyStack::Bcachefs(s) => s.remove_plan(cfg, layout, disks),
            AnyStack::Zfs(s) => s.remove_plan(cfg, layout, disks),
            AnyStack::MdIntegrity(s) => s.remove_plan(cfg, layout, disks),
        }
    }

    fn remove(&self, cfg: &Config, layout: &Layout, disks: &Vec<String>) -> (r: Vec<Step>)
    {
        match self {
            AnyStack::MdLvm(s) => s.remove(cfg, layout, disks),
            AnyStack::Btrfs(s) => s.remove(cfg, layout, disks),
            AnyStack::Bcachefs(s) => s.remove(cfg, layout, disks),
            AnyStack::Zfs(s) => s.remove(cfg, layout, disks),
            AnyStack::MdIntegrity(s) => s.remove(cfg, layout, disks),
        }
    }

    open spec fn close_plan(&self, cfg: ConfigModel, layout: LayoutModel) -> Seq<StepModel> {
        match self {
            AnyStack::MdLvm(s) => s.close_plan(cfg, layout),
            AnyStack::Btrfs(s) => s.close_plan(cfg, layout),
            AnyStack::Bcachefs(s) => s.close_plan(cfg, layout),
            AnyStack::Zfs(s) => s.close_plan(cfg, layout),
            AnyStack::MdIntegrity(s) => s.close_plan(cfg, layout),
        }
    }

    fn close(&self, cfg: &Config, layout: &Layout) -> (r: Vec<Step>)
    {
        match self {
            AnyStack::MdLvm(s) => s.close(cfg, layout),
            AnyStack::Btrfs(s) => s.close(cfg, layout),
            AnyStack::Bcachefs(s) => s.close(cfg, layout),
            AnyStack::Zfs(s) => s.close(cfg, layout),
            AnyStack::MdIntegrity(s) => s.close(cfg, layout),
        }
    }

    open spec fn recover_actions_plan(
        &self,
        cfg: ConfigModel,
        layout: LayoutModel,
        at: Seq<char>,
    ) -> Seq<RecoverModel> {
        match self {
            AnyStack::MdLvm(s) => s.recover_actions_plan(cfg, layout, at),
            AnyStack::Btrfs(s) => s.recover_actions_plan(cfg, layout, at),
            AnyStack::Bcachefs(s) => s.recover_actions_plan(cfg, layout, at),
            AnyStack::Zfs(s) => s.recover_actions_plan(cfg, layout, at),
            AnyStack::MdIntegrity(s) => s.recover_actions_plan(cfg, layout, at),
        }
    }

    fn recover_actions(&self, cfg: &Config, layout: &Layout, at: &str) -> (r: Vec<RecoverAction>)
    {
        match self {
            AnyStack::MdLvm(s) => s.recover_actions(cfg, layout, at),
            AnyStack::Btrfs(s) => s.recover_actions(cfg, layout, at),
            AnyStack::Bcachefs(s) => s.recover_actions(cfg, layout, at),
            AnyStack::Zfs(s) => s.recover_actions(cfg, layout, at),
            AnyStack::MdIntegrity(s) => s.recover_actions(cfg, layout, at),
        }
    }

    open spec fn crypttab_regen_plan(&self, layout: LayoutModel) -> Option<StepModel> {
        match self {
            AnyStack::MdLvm(s) => s.crypttab_regen_plan(layout),
            AnyStack::Btrfs(s) => s.crypttab_regen_plan(layout),
            AnyStack::Bcachefs(s) => s.crypttab_regen_plan(layout),
            AnyStack::Zfs(s) => s.crypttab_regen_plan(layout),
            AnyStack::MdIntegrity(s) => s.crypttab_regen_plan(layout),
        }
    }

    fn crypttab_regen(&self, layout: &Layout) -> (r: Option<Step>)
    {
        match self {
            AnyStack::MdLvm(s) => s.crypttab_regen(layout),
            AnyStack::Btrfs(s) => s.crypttab_regen(layout),
            AnyStack::Bcachefs(s) => s.crypttab_regen(layout),
            AnyStack::Zfs(s) => s.crypttab_regen(layout),
            AnyStack::MdIntegrity(s) => s.crypttab_regen(layout),
        }
    }

    open spec fn initramfs_list(&self) -> Seq<Seq<char>> {
        match self {
            AnyStack::MdLvm(s) => s.initramfs_list(),
            AnyStack::Btrfs(s) => s.initramfs_list(),
            AnyStack::Bcachefs(s) => s.initramfs_list(),
            AnyStack::Zfs(s) => s.initramfs_list(),
            AnyStack::MdIntegrity(s) => s.initramfs_list(),
        }
    }

    fn initramfs_binaries(&self) -> (r: Vec<String>)
    {
        match self {
            AnyStack::MdLvm(s) => s.initramfs_binaries(),
            AnyStack::Btrfs(s) => s.initramfs_binaries(),
            AnyStack::Bcachefs(s) => s.initramfs_binaries(),
            AnyStack::Zfs(s) => s.initramfs_binaries(),
            AnyStack::MdIntegrity(s) => s.initramfs_binaries(),
        }
    }

    open spec fn backports_pins_text(&self, release: Seq<char>) -> Option<Seq<char>> {
        match self {
            AnyStack::MdLvm(s) => s.backports_pins_text(release),
            AnyStack::Btrfs(s) => s.backports_pins_text(release),
            AnyStack::Bcachefs(s) => s.backports_pins_text(release),
            AnyStack::Zfs(s) => s.backports_pins_text(release),
            AnyStack::MdIntegrity(s) => s.backports_pins_text(release),
        }
    }

    fn backports_pins(&self, release: &str) -> (r: Option<String>)
    {
        match self {
            AnyStack::MdLvm(s) => s.backports_pins(release),
            AnyStack::Btrfs(s) => s.backports_pins(release),
            AnyStack::Bcachefs(s) => s.backports_pins(release),
            AnyStack::Zfs(s) => s.backports_pins(release),
            AnyStack::MdIntegrity(s) => s.backports_pins(release),
        }
    }

    open spec fn host_prereqs_plan(&self) -> Seq<StepModel> {
        match self {
            AnyStack::MdLvm(s) => s.host_prereqs_plan(),
            AnyStack::Btrfs(s) => s.host_prereqs_plan(),
            AnyStack::Bcachefs(s) => s.host_prereqs_plan(),
            AnyStack::Zfs(s) => s.host_prereqs_plan(),
            AnyStack::MdIntegrity(s) => s.host_prereqs_plan(),
        }
    }

    fn host_prereqs(&self) -> (r: Vec<Step>)
    {
        match self {
            AnyStack::MdLvm(s) => s.host_prereqs(),
            AnyStack::Btrfs(s) => s.host_prereqs(),
            AnyStack::Bcachefs(s) => s.host_prereqs(),
            AnyStack::Zfs(s) => s.host_prereqs(),
            AnyStack::MdIntegrity(s) => s.host_prereqs(),
        }
    }

    open spec fn host_packages_list(&self) -> Seq<Seq<char>> {
        match self {
            AnyStack::MdLvm(s) => s.host_packages_list(),
            AnyStack::Btrfs(s) => s.host_packages_list(),
            AnyStack::Bcachefs(s) => s.host_packages_list(),
            AnyStack::Zfs(s) => s.host_packages_list(),
            AnyStack::MdIntegrity(s) => s.host_packages_list(),
        }
    }

    fn host_packages(&self) -> (r: Vec<String>)
    {
        match self {
            AnyStack::MdLvm(s) => s.host_packages(),
            AnyStack::Btrfs(s) => s.host_packages(),
            AnyStack::Bcachefs(s) => s.host_packages(),
            AnyStack::Zfs(s) => s.host_packages(),
            AnyStack::MdIntegrity(s) => s.host_packages(),
        }
    }

    open spec fn apt_repos_plan(&self, cfg: ConfigModel, root: Seq<char>) -> Seq<StepModel> {
        match self {
            AnyStack::MdLvm(s) => s.apt_repos_plan(cfg, root),
            AnyStack::Btrfs(s) => s.apt_repos_plan(cfg, root),
            AnyStack::Bcachefs(s) => s.apt_repos_plan(cfg, root),
            AnyStack::Zfs(s) => s.apt_repos_plan(cfg, root),
            AnyStack::MdIntegrity(s) => s.apt_repos_plan(cfg, root),
        }
    }

    fn apt_repos(&self, cfg: &Config, root: &str) -> (r: Vec<Step>)
    {
        match self {
            AnyStack::MdLvm(s) => s.apt_repos(cfg, root),
            AnyStack::Btrfs(s) => s.apt_repos(cfg, root),
            AnyStack::Bcachefs(s) => s.apt_repos(cfg, root),
            AnyStack::Zfs(s) => s.apt_repos(cfg, root),
            AnyStack::MdIntegrity(s) => s.apt_repos(cfg, root),
        }
    }
}

/// There is no stack of this identifier.
#[derive(Debug)]
pub struct UnknownStack(pub String);

/// The stack of an identifier.
pub open spec fn stack_of(id: Seq<char>) -> Option<AnyStack> {
    if id == STACK_MD_LVM_EXT4@ {
        Some(AnyStack::MdLvm(MdLvm { fs: RootFs::Ext4 }))
    } else if id == STACK_MD_LVM_XFS@ {
        Some(AnyStack::MdLvm(MdLvm { fs: RootFs::Xfs }))
    } else if id == STACK_BTRFS@ {
        Some(AnyStack::Btrfs(BtrfsStack))
    } else if id == STACK_BCACHEFS@ {
        Some(AnyStack::Bcachefs(BcachefsStack))
    } else if id == STACK_ZFS@ {
        Some(AnyStack::Zfs(ZfsStack))
    } else if id == STACK_MD_INTEGRITY@ {
        Some(AnyStack::MdIntegrity(MdIntegrity))
    } else {
        None
    }
}

/// Selects the stack of an identifier.
pub fn select(id: &str) -> (res: Result<AnyStack, UnknownStack>)
    ensures
        res is Ok <==> stack_of(id@) is Some,
        res is Ok ==> Some(res->Ok_0) == stack_of(id@),
        res is Err ==> res->Err_0.0@ == id@,
{
    if same(id, STACK_MD_LVM_EXT4) {
        Ok(AnyStack::MdLvm(MdLvm::ext4()))
    } else if same(id, STACK_MD_LVM_XFS) {
        Ok(AnyStack::MdLvm(MdLvm::xfs()))
    } else if same(id, STACK_BTRFS) {
        Ok(AnyStack::Btrfs(BtrfsStack))
    } else if same(id, STACK_BCACHEFS) {
        Ok(AnyStack::Bcachefs(BcachefsStack))
    } else if same(id, STACK_ZFS) {
        Ok(AnyStack::Zfs(ZfsStack))
    } else if same(id, STACK_MD_INTEGRITY) {
        Ok(AnyStack::MdIntegrity(MdIntegrity))
    } else {
        Err(UnknownStack(id.to_owned()))
    }
}

/// A stack is selected by exactly the identifiers that belong to a family, and a
/// selected stack answers to the identifier it was selected by.
pub proof fn selection_agrees_with_families(id: Seq<char>)
    ensures
        stack_of(id) is Some <==> family_of(id) is Some,
        stack_of(id) is Some ==> stack_of(id)->0.id_text() == id,
{
}

/// A swap of members rewrites the crypttab of every stack but the integrity stack,
/// whose crypttab does not name them.
pub proof fn only_integrity_keeps_its_crypttab(id: Seq<char>, layout: LayoutModel)
    requires
        stack_of(id) is Some,
    ensures
        stack_of(id)->0.crypttab_regen_plan(layout) is None <==> id == STACK_MD_INTEGRITY@,
{
    reveal_strlit("dm-crypt~md~lvm~ext4");
    reveal_strlit("dm-crypt~md~lvm~xfs");
    reveal_strlit("dm-crypt~btrfs");
    reveal_strlit("dm-crypt~bcachefs");
    reveal_strlit("dm-crypt~zfs");
    reveal_strlit("dm-integrity~md~dm-crypt~lvm~ext4");
    assert(STACK_MD_INTEGRITY@[3] == 'i');
    assert(STACK_MD_LVM_EXT4@[3] == 'c' && STACK_MD_LVM_XFS@[3] == 'c' && STACK_BTRFS@[3] == 'c');
    assert(STACK_BCACHEFS@[3] == 'c' && STACK_ZFS@[3] == 'c');
}


} // verus!
