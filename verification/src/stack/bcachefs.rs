//! dm-crypt~bcachefs: per-disk dm-crypt with a multi-device bcachefs filesystem on
//! top. Its module is out-of-tree (dkms) and its tools come from apt.bcachefs.org,
//! so this stack adds that repository and builds the module against the running
//! kernel. Redundancy is by replicas, not parity: the raid level counts them.
use vstd::prelude::*;
use vstd::string::*;

use super::{
    backup_luks_headers, backup_luks_headers_plan, crypt_close, crypt_close_disks,
    crypt_close_disks_plan, crypt_close_plan, crypt_initramfs_binaries, crypt_initramfs_list,
    crypt_open_disks, crypt_open_disks_plan, crypt_partition_root, crypt_partition_root_plan,
    crypttab_step, crypttab_step_plan, fstab_root_bcachefs, fstab_root_bcachefs_plan,
    install_keyutils, install_keyutils_plan, modprobe, modprobe_plan, two_actions,
    update_initramfs, update_initramfs_plan, RecoverAction, RecoverModel, Stack,
};
use crate::config::{Config, ConfigModel, STACK_BCACHEFS};
use crate::layout::{Layout, LayoutModel};
use crate::step::{
    add_step, add_steps, each, each_disk, models, no_steps, one_step, run_step, sh_step, write_step,
    Step, StepModel,
};
use crate::text::{cmd, join, joined, ArgList};

verus! {

/// The crypttab options of this stack's members, at install and on a rewrite.
pub const CRYPTTAB_OPTS: &'static str = "luks,discard,initramfs,keyscript=decrypt_keyctl";

/// The apt.bcachefs.org signing key (armored). It is embedded so that neither the
/// live host nor the target needs a downloader to add the repository.
pub const BCACHEFS_APT_KEY: &'static str =
    "-----BEGIN PGP PUBLIC KEY BLOCK-----\n\nmDMEaMmnZRYJKwYBBAHaRw8BAQdAcK+CJMNI+3Sndv0eiS1US4Z8fBniaqxXCZ/p\n52ME2MO0VERlYmlhbiBBdXRvbWF0ZWQgUGFja2FnZXIgKGFwdC5iY2FjaGVmcy5v\ncmcgQ0kgYm90KSA8bGludXgtYmNhY2hlZnNAdmdlci5rZXJuZWwub3JnPoiQBBMW\nCgA4FiEEZNpXvRnN40DTstpI91eP+7KEqmEFAmjJp2UCGwEFCwkIBwIGFQoJCAsC\nBBYCAwECHgECF4AACgkQ91eP+7KEqmG7dwEAkhxfP2Wx34qMEDJsQBWyYPlJLfYS\nXnA2WRWU8AJGyCYBANEnjIubG5IgdQn/iSiFwRpVpZvDWiosQfus+TGzjlgDuDME\naMmn8hYJKwYBBAHaRw8BAQdAIuefCkHxOLACQB/DFzX4ziweykmAXhiiGHb4qGyp\n/ACI7wQYFgoAIBYhBGTaV70ZzeNA07LaSPdXj/uyhKphBQJoyafyAhsCAIEJEPdX\nj/uyhKphdiAEGRYKAB0WIQTqSDuZECDHKopQNa2gYgteDgHB3QUCaMmn8gAKCRCg\nYgteDgHB3ZCOAP9pBHXdV7ufM0j8jMwrGh1UfiKjHYKNkdMG7W0N6p1PBgEA9k4F\nOPgr+eQ12WPbPhmOrrJLg51fED0dOU/CrmVdSwR07gEAzGWg5sulro5jKxnVr3Ut\nFqAq/x1a4QERZ1bUrTbF+IcBAKxSjotqdVEb0K0gEvAiqotK4xkuZF5QwQ2skF4K\ns0MPuDMEaMmoMRYJKwYBBAHaRw8BAQdANqYoypkyAHLXjJojueqrAsXFrplPIAGp\nwdZJ415y7LWIeAQYFgoAIBYhBGTaV70ZzeNA07LaSPdXj/uyhKphBQJoyagxAhsg\nAAoJEPdXj/uyhKphWzMBAOhv1SHXg9cQ5m1q/k34bM62sAplGyjm1qb906Gj7o4y\nAQDWxFEbHSn0nKBngo0oewa017QLvOLzhad9SlbVtbY4Ag==\n=C90X\n-----END PGP PUBLIC KEY BLOCK-----\n";

pub const KEYRING: &'static str = "/etc/apt/keyrings/apt.bcachefs.org.asc";

pub struct BcachefsStack;

/// The steps of `replace` for one disk.
pub open spec fn replace_disk(layout: LayoutModel, d: Seq<char>) -> Seq<StepModel> {
    let dev = layout.crypt_device(d);
    seq![
        run_step(
            "add "@ + dev + " to the bcachefs"@,
            seq!["bcachefs"@].push("device"@).push("add"@).push("--force"@).push("/"@).push(dev),
        ),
    ]
}

/// The steps of `remove` for one disk.
pub open spec fn remove_disk(layout: LayoutModel, d: Seq<char>) -> Seq<StepModel> {
    seq![crypt_close_plan(layout.crypt_name(d))]
}


impl Stack for BcachefsStack {
    open spec fn id_text(&self) -> Seq<char> {
        STACK_BCACHEFS@
    }

    fn id(&self) -> (r: &str) {
        STACK_BCACHEFS
    }

    open spec fn packages_list(&self) -> Seq<Seq<char>> {
        seq!["cryptsetup"@].push("cryptsetup-initramfs"@).push("bcachefs-tools"@)
            .push("bcachefs-kernel-dkms"@)
    }

    fn packages(&self) -> (r: Vec<String>) {
        cmd("cryptsetup").arg("cryptsetup-initramfs").arg("bcachefs-tools")
            .arg("bcachefs-kernel-dkms")
    }

    open spec fn apt_repos_plan(&self, cfg: ConfigModel, root: Seq<char>) -> Seq<StepModel> {
        let s = seq![
            run_step(
                "create "@ + root + "/etc/apt/keyrings"@,
                seq!["mkdir"@].push("-p"@).push(root + "/etc/apt/keyrings"@),
            ),
            write_step("install the bcachefs apt signing key"@, root + KEYRING@, BCACHEFS_APT_KEY@),
            write_step(
                "add the bcachefs apt source"@,
                root + "/etc/apt/sources.list.d/apt.bcachefs.org.sources"@,
                "Types: deb\nURIs: https://apt.bcachefs.org/"@ + cfg.install.release
                    + "/\nSuites: bcachefs-tools-release\nComponents: main\nSigned-By: "@ + KEYRING@
                    + "\n"@,
            ),
            write_step(
                "pin the bcachefs repo below debian"@,
                root + "/etc/apt/preferences.d/apt.bcachefs.org.pref"@,
                "Package: *\nPin: release o=apt.bcachefs.org\nPin-Priority: 100\n"@,
            ),
        ];
        if root.len() == 0 {
            s.push(
                run_step(
                    "refresh package lists (bcachefs repo)"@,
                    seq!["apt-get"@].push("update"@),
                ),
            )
        } else {
            s.push(
                run_step(
                    "refresh package lists (bcachefs repo)"@,
                    seq!["apt-get"@].push("update"@),
                ).chroot(),
            )
        }
    }

    /// Adds the repository (key and source), pinned below Debian's default so that only
    /// the out-of-tree module is taken from it. The suite is per release.
    fn apt_repos(&self, cfg: &Config, root: &str) -> (r: Vec<Step>)
    {
        let mut s = no_steps();
        add_step(
            &mut s,
            Step::run_owned(
                "create ".to_owned().concat(root).concat("/etc/apt/keyrings").as_str(),
                cmd("mkdir").arg("-p").arg(root.to_owned().concat("/etc/apt/keyrings").as_str()),
            ),
        );
        add_step(
            &mut s,
            Step::write(
                "install the bcachefs apt signing key",
                root.to_owned().concat(KEYRING).as_str(),
                BCACHEFS_APT_KEY,
            ),
        );
        add_step(
            &mut s,
            Step::write(
                "add the bcachefs apt source",
                root.to_owned().concat("/etc/apt/sources.list.d/apt.bcachefs.org.sources").as_str(),
                "Types: deb\nURIs: https://apt.bcachefs.org/".to_owned()
                    .concat(cfg.install.release.as_str())
                    .concat("/\nSuites: bcachefs-tools-release\nComponents: main\nSigned-By: ")
                    .concat(KEYRING).concat("\n").as_str(),
            ),
        );
        add_step(
            &mut s,
            Step::write(
                "pin the bcachefs repo below debian",
                root.to_owned().concat("/etc/apt/preferences.d/apt.bcachefs.org.pref").as_str(),
                "Package: *\nPin: release o=apt.bcachefs.org\nPin-Priority: 100\n",
            ),
        );
        if root.is_empty() {
            add_step(
                &mut s,
                Step::run_owned(
                    "refresh package lists (bcachefs repo)",
                    cmd("apt-get").arg("update"),
                ),
            );
        } else {
            add_step(
                &mut s,
                Step::run_owned(
                    "refresh package lists (bcachefs repo)",
                    cmd("apt-get").arg("update"),
                ).chroot(),
            );
        }
        s
    }

    open spec fn host_prereqs_plan(&self) -> Seq<StepModel> {
        seq![
            sh_step(
                "install running-kernel headers on host (bcachefs-dkms)"@,
                "env DEBIAN_FRONTEND=noninteractive apt-get install -y \"linux-headers-$(uname -r)\""@,
            ),
        ]
    }

    /// The module builds against installed headers, which the livecd may lack for the
    /// kernel it runs.
    fn host_prereqs(&self) -> (r: Vec<Step>)
    {
        let mut s = no_steps();
        add_step(
            &mut s,
            Step::sh(
                "install running-kernel headers on host (bcachefs-dkms)",
                "env DEBIAN_FRONTEND=noninteractive apt-get install -y \"linux-headers-$(uname -r)\"",
            ),
        );
        s
    }

    open spec fn host_packages_list(&self) -> Seq<Seq<char>> {
        self.packages_list()
    }

    fn host_packages(&self) -> (r: Vec<String>) {
        self.packages()
    }

    open spec fn partition_root_plan(
        &self,
        cfg: ConfigModel,
        layout: LayoutModel,
    ) -> Seq<StepModel> {
        crypt_partition_root_plan(cfg, layout)
    }

    fn partition_root(&self, cfg: &Config, layout: &Layout) -> (r: Vec<Step>)
    {
        crypt_partition_root(cfg, layout)
    }

    open spec fn format_root_plan(&self, cfg: ConfigModel, layout: LayoutModel) -> Seq<StepModel> {
        seq![modprobe_plan("bcachefs"@)].push(
            run_step(
                "create bcachefs (replicas "@ + cfg.raid.level + ")"@,
                (
                    seq!["mkfs.bcachefs"@].push("-f"@).push("--replicas="@ + cfg.raid.level)
                        + layout.crypt_devices()
                ),
            ),
        )
    }

    fn format_root(&self, cfg: &Config, layout: &Layout) -> (r: Vec<Step>)
    {
        let mut s = no_steps();
        add_step(&mut s, modprobe("bcachefs"));
        add_step(
            &mut s,
            Step::run_owned(
                "create bcachefs (replicas ".to_owned().concat(cfg.raid.level.as_str()).concat(")")
                    .as_str(),
                cmd("mkfs.bcachefs").arg("-f")
                    .arg("--replicas=".to_owned().concat(cfg.raid.level.as_str()).as_str())
                    .args(&layout.crypt_devices()),
            ),
        );
        s
    }

    open spec fn mount_root_plan(&self, cfg: ConfigModel, layout: LayoutModel) -> Seq<StepModel> {
        let devs = joined(layout.crypt_devices(), ":"@);
        seq![
            run_step(
                "mount bcachefs root at /mnt"@,
                seq!["mount"@].push("-t"@).push("bcachefs"@).push(devs).push("/mnt"@),
            ),
        ]
    }

    fn mount_root(&self, cfg: &Config, layout: &Layout) -> (r: Vec<Step>)
    {
        let mut s = no_steps();
        let devs_text = join(&layout.crypt_devices(), ":");
        let devs = devs_text.as_str();
        add_step(
            &mut s,
            Step::run_owned(
                "mount bcachefs root at /mnt",
                cmd("mount").arg("-t").arg("bcachefs").arg(devs).arg("/mnt"),
            ),
        );
        s
    }

    open spec fn finish_plan(&self, cfg: ConfigModel, layout: LayoutModel) -> Seq<StepModel> {
        let s = seq![
            install_keyutils_plan(),
            crypttab_step_plan(layout, CRYPTTAB_OPTS@, "/mnt/etc/crypttab"@),
        ];
        let s = s + backup_luks_headers_plan(layout, "/mnt/boot"@);
        let s = s.push(fstab_root_bcachefs_plan(layout));
        s.push(update_initramfs_plan())
    }

    fn finish(&self, cfg: &Config, layout: &Layout) -> (r: Vec<Step>)
    {
        let mut s = no_steps();
        add_step(&mut s, install_keyutils());
        add_step(&mut s, crypttab_step(layout, CRYPTTAB_OPTS, "/mnt/etc/crypttab"));
        add_steps(&mut s, backup_luks_headers(layout, "/mnt/boot"));
        add_step(&mut s, fstab_root_bcachefs(layout));
        add_step(&mut s, update_initramfs());
        s
    }

    open spec fn map_plan(&self, cfg: ConfigModel, layout: LayoutModel) -> Seq<StepModel> {
        let s = seq![modprobe_plan("bcachefs"@)];
        s + crypt_open_disks_plan(layout)
    }

    fn map(&self, cfg: &Config, layout: &Layout) -> (r: Vec<Step>)
    {
        let mut s = no_steps();
        add_step(&mut s, modprobe("bcachefs"));
        add_steps(&mut s, crypt_open_disks(layout));
        s
    }

    open spec fn status_plan(&self, cfg: ConfigModel, layout: LayoutModel) -> Seq<StepModel> {
        seq![run_step("bcachefs fs usage"@, seq!["bcachefs"@].push("fs"@).push("usage"@).push("/"@)).best_effort()].push(
            sh_step(
                "bcachefs device state"@,
                "bcachefs show-super /dev/mapper/*_crypt 2>/dev/null | grep -iE 'state|durability|label' || true"@,
            ),
        )
    }

    fn status(&self, cfg: &Config, layout: &Layout) -> (r: Vec<Step>)
    {
        let mut s = no_steps();
        add_step(
            &mut s,
            Step::run_owned(
                "bcachefs fs usage",
                cmd("bcachefs").arg("fs").arg("usage").arg("/"),
            ).best_effort(),
        );
        add_step(
            &mut s,
            Step::sh(
                "bcachefs device state",
                "bcachefs show-super /dev/mapper/*_crypt 2>/dev/null | grep -iE 'state|durability|label' || true",
            ),
        );
        s
    }

    open spec fn scrub_plan(&self, cfg: ConfigModel, layout: LayoutModel) -> Seq<StepModel> {
        seq![
            run_step(
                "scrub the bcachefs data"@,
                seq!["bcachefs"@].push("data"@).push("scrub"@).push("/"@),
            ).best_effort(),
        ]
    }

    fn scrub(&self, cfg: &Config, layout: &Layout) -> (r: Vec<Step>)
    {
        let mut s = no_steps();
        add_step(
            &mut s,
            Step::run_owned(
                "scrub the bcachefs data",
                cmd("bcachefs").arg("data").arg("scrub").arg("/"),
            ).best_effort(),
        );
        s
    }

    open spec fn replace_plan(
        &self,
        cfg: ConfigModel,
        layout: LayoutModel,
        disks: Seq<Seq<char>>,
    ) -> Seq<StepModel> {
        let s = each(disks, |d: Seq<char>| replace_disk(layout, d));
        let s = s.push(
            run_step(
                "remove the missing bcachefs device(s)"@,
                seq!["bcachefs"@].push("device"@).push("remove"@).push("--force"@).push("missing"@)
                    .push("/"@),
            ),
        );
        s.push(
            run_step(
                "re-replicate onto the new devices"@,
                seq!["bcachefs"@].push("data"@).push("rereplicate"@).push("/"@),
            ),
        )
    }

    fn replace(&self, cfg: &Config, layout: &Layout, disks: &Vec<String>) -> (r: Vec<Step>)
    {
        let mut s = no_steps();
        let each_d = |d: &str| -> (s: Vec<Step>)
            ensures
                models(s@) == replace_disk(layout@, d@),
        {
            let mut s = no_steps();
            let dev_text = layout.crypt_device(d);
            let dev = dev_text.as_str();
            add_step(
                &mut s,
                Step::run_owned(
                    "add ".to_owned().concat(dev).concat(" to the bcachefs").as_str(),
                    cmd("bcachefs").arg("device").arg("add").arg("--force").arg("/").arg(dev),
                ),
            );
            s
        };
        add_steps(&mut s, each_disk(disks, each_d, Ghost(|d: Seq<char>| replace_disk(layout@, d))));
        // drop the faulty members the new devices replaced.
        add_step(
            &mut s,
            Step::run_owned(
                "remove the missing bcachefs device(s)",
                cmd("bcachefs").arg("device").arg("remove").arg("--force").arg("missing").arg("/"),
            ),
        );
        add_step(
            &mut s,
            Step::run_owned(
                "re-replicate onto the new devices",
                cmd("bcachefs").arg("data").arg("rereplicate").arg("/"),
            ),
        );
        s
    }

    open spec fn remove_plan(
        &self,
        cfg: ConfigModel,
        layout: LayoutModel,
        disks: Seq<Seq<char>>,
    ) -> Seq<StepModel> {
        each(disks, |d: Seq<char>| remove_disk(layout, d))
    }

    fn remove(&self, cfg: &Config, layout: &Layout, disks: &Vec<String>) -> (r: Vec<Step>)
    {
        let each_d = |d: &str| -> (s: Vec<Step>)
            ensures
                models(s@) == remove_disk(layout@, d@),
        {
            let mut s = no_steps();
            add_step(&mut s, crypt_close(layout.crypt_name(d).as_str()));
            s
        };
        each_disk(disks, each_d, Ghost(|d: Seq<char>| remove_disk(layout@, d)))
    }

    open spec fn crypttab_regen_plan(&self, layout: LayoutModel) -> Option<StepModel> {
        Some(crypttab_step_plan(layout, CRYPTTAB_OPTS@, "/etc/crypttab"@))
    }

    fn crypttab_regen(&self, layout: &Layout) -> (r: Option<Step>) {
        Some(crypttab_step(layout, CRYPTTAB_OPTS, "/etc/crypttab"))
    }

    open spec fn initramfs_list(&self) -> Seq<Seq<char>> {
        crypt_initramfs_list().push("bcachefs"@)
    }

    fn initramfs_binaries(&self) -> (r: Vec<String>) {
        crypt_initramfs_binaries().arg("bcachefs")
    }

    open spec fn recover_actions_plan(
        &self,
        cfg: ConfigModel,
        layout: LayoutModel,
        at: Seq<char>,
    ) -> Seq<RecoverModel> {
        let label = "mount the bcachefs root (degraded) at "@ + at;
        let script = "for d in "@ + joined(layout.crypt_devices(), " "@)
            + "; do mount -t bcachefs -o degraded \"$d\" "@ + at + " 2>/dev/null && break; done"@;
        seq![
            RecoverModel {
                label: "scan bcachefs devices"@,
                steps: seq![
                    sh_step(
                        "scan bcachefs devices"@,
                        "bcachefs device scan 2>/dev/null || true"@,
                    ).best_effort(),
                ],
            },
            RecoverModel { label, steps: seq![sh_step(label, script)] },
        ]
    }

    /// A multi-device root with a faulty member refuses to mount, and needs a degraded
    /// mount from a surviving crypt device.
    fn recover_actions(&self, cfg: &Config, layout: &Layout, at: &str) -> (r: Vec<RecoverAction>) {
        let label = "mount the bcachefs root (degraded) at ".to_owned().concat(at);
        let script = "for d in ".to_owned().concat(join(&layout.crypt_devices(), " ").as_str()).concat(
            "; do mount -t bcachefs -o degraded \"$d\" ",
        ).concat(at).concat(" 2>/dev/null && break; done");
        let scan = one_step(
            Step::sh(
                "scan bcachefs devices",
                "bcachefs device scan 2>/dev/null || true",
            ).best_effort(),
        );
        let mount = one_step(Step::sh(label.as_str(), script.as_str()));
        two_actions(
            RecoverAction::new("scan bcachefs devices", scan),
            RecoverAction::new(label.as_str(), mount),
        )
    }

    open spec fn close_plan(&self, cfg: ConfigModel, layout: LayoutModel) -> Seq<StepModel> {
        let s = seq![run_step("unmount /mnt"@, seq!["umount"@].push("/mnt"@)).best_effort()];
        s + crypt_close_disks_plan(layout)
    }

    fn close(&self, cfg: &Config, layout: &Layout) -> (r: Vec<Step>)
    {
        let mut s = no_steps();
        add_step(&mut s, Step::run_owned("unmount /mnt", cmd("umount").arg("/mnt")).best_effort());
        add_steps(&mut s, crypt_close_disks(layout));
        s
    }

    open spec fn backports_pins_text(&self, release: Seq<char>) -> Option<Seq<char>> {
        None
    }

    fn backports_pins(&self, release: &str) -> (r: Option<String>) {
        None
    }
}

} // verus!
