//! The shared efi bootloader surface: the shim path, the efibootmgr entry, the esp
//! format and grub's debconf. Install and replace establish it, doctor verifies and
//! repairs it; each has one form, kept here.
use vstd::prelude::*;
use vstd::string::*;

use crate::step::{add_step, models, one_step, run_step, Step, StepModel};
use crate::text::{cmd, texts, ArgList};

verus! {

/// The shim loader path as the firmware records a boot entry.
pub const SHIM_LOADER: &'static str = "\\EFI\\debian\\shimx64.efi";

/// Shim on the esp, relative to its mount point.
pub const SHIM_FILE: &'static str = "EFI/debian/shimx64.efi";

/// Grub on the esp, relative to its mount point.
pub const GRUB_FILE: &'static str = "EFI/debian/grubx64.efi";

/// The grub-efi package whose debconf keys are owned here.
pub const GRUB_PKG: &'static str = "grub-efi-amd64";

/// The debconf keys and their values: keep the removable fallback in sync on
/// upgrades, and leave grub's own nvram management off.
pub const GRUB_DEBCONF: [(&'static str, &'static str); 2] = [
    ("grub2/force_efi_extra_removable", "true"),
    ("grub2/update_nvram", "false"),
];

/// The debconf keys and their values.
pub open spec fn debconf_keys() -> Seq<(Seq<char>, Seq<char>)> {
    seq![
        ("grub2/force_efi_extra_removable"@, "true"@),
        ("grub2/update_nvram"@, "false"@),
    ]
}

/// `efibootmgr -c -g -d /dev/<disk> -p 1 -L debian-<disk> -l <shim>`.
pub open spec fn register_words(disk: Seq<char>) -> Seq<Seq<char>> {
    seq![
        "efibootmgr"@,
        "-c"@,
        "-g"@,
        "-d"@,
        "/dev/"@ + disk,
        "-p"@,
        "1"@,
        "-L"@,
        "debian-"@ + disk,
        "-l"@,
        SHIM_LOADER@,
    ]
}

/// The argv that registers one member disk's shim boot entry.
pub fn register_argv(disk: &str) -> (r: Vec<String>)
    ensures
        texts(r@) == register_words(disk@),
{
    cmd("efibootmgr").arg("-c").arg("-g").arg("-d").arg("/dev/".to_owned().concat(disk).as_str()).arg(
        "-p",
    ).arg("1").arg("-L").arg("debian-".to_owned().concat(disk).as_str()).arg("-l").arg(SHIM_LOADER)
}

/// `mkfs.msdos -F 32 -s 1 -n EFI [-i <volid>] <dev>`.
pub open spec fn mkfs_esp_words(dev: Seq<char>, volid: Option<Seq<char>>) -> Seq<Seq<char>> {
    let base = seq!["mkfs.msdos"@, "-F"@, "32"@, "-s"@, "1"@, "-n"@, "EFI"@];
    match volid {
        Some(v) => base.push("-i"@).push(v).push(dev),
        None => base.push(dev),
    }
}

/// The argv that formats an esp as fat32 (label EFI), stamping the volume id where
/// one is given.
pub fn mkfs_esp_argv(dev: &str, volid: Option<&str>) -> (r: Vec<String>)
    ensures
        texts(r@) == mkfs_esp_words(dev@, match volid { Some(v) => Some(v@), None => None }),
{
    let base = cmd("mkfs.msdos").arg("-F").arg("32").arg("-s").arg("1").arg("-n").arg("EFI");
    match volid {
        Some(v) => base.arg("-i").arg(v).arg(dev),
        None => base.arg(dev),
    }
}

/// One `<pkg> <key> boolean <value>` line per key.
pub open spec fn debconf_text(keys: Seq<(Seq<char>, Seq<char>)>) -> Seq<char>
    decreases keys.len(),
{
    if keys.len() == 0 {
        Seq::empty()
    } else {
        debconf_text(keys.drop_last()) + (GRUB_PKG@ + " "@ + keys.last().0 + " boolean "@
            + keys.last().1 + "\n"@)
    }
}

/// The debconf-set-selections input that preseeds grub-efi.
pub fn grub_debconf_selections() -> (r: String)
    ensures
        r@ == debconf_text(debconf_keys()),
{
    let ghost keys = debconf_keys();
    let mut out = String::new();
    let mut i: usize = 0;
    while i < 2
        invariant
            i <= 2,
            keys == debconf_keys(),
            out@ == debconf_text(keys.take(i as int)),
        decreases 2 - i,
    {
        let pair = GRUB_DEBCONF[i];
        assert(pair.0@ == keys[i as int].0 && pair.1@ == keys[i as int].1);
        assert(keys.take(i + 1).drop_last() =~= keys.take(i as int));
        let line = GRUB_PKG.to_owned().concat(" ").concat(pair.0).concat(" boolean ").concat(
            pair.1,
        ).concat("\n");
        out.append(line.as_str());
        i += 1;
    }
    assert(keys.take(2) =~= keys);
    out
}

/// The named EFI/debian install.
pub open spec fn grub_named() -> StepModel {
    run_step(
        "install grub to the esp (named)"@,
        seq!["grub-install"@].push("--target=x86_64-efi"@).push("--bootloader-id=debian"@).push(
            "--efi-directory=/boot/efi"@,
        ).push("--no-nvram"@).push("--recheck"@).push("--no-floppy"@),
    )
}

/// The removable EFI/BOOT fallback.
pub open spec fn grub_removable() -> StepModel {
    run_step(
        "install grub to the esp (removable fallback)"@,
        seq!["grub-install"@].push("--target=x86_64-efi"@).push("--efi-directory=/boot/efi"@).push(
            "--no-nvram"@,
        ).push("--recheck"@).push("--no-floppy"@).push("--removable"@),
    )
}

/// The two grub-install invocations, in the chroot or on the running system.
pub open spec fn grub_installs(chroot: bool) -> Seq<StepModel> {
    if chroot {
        seq![grub_named().chroot()].push(grub_removable().chroot())
    } else {
        seq![grub_named()].push(grub_removable())
    }
}

/// The two grub-install invocations: the named EFI/debian layout and the removable
/// EFI/BOOT fallback. Both leave the nvram alone: its entries are registered apart.
pub fn grub_install_steps(chroot: bool) -> (r: Vec<Step>)
    ensures
        models(r@) == grub_installs(chroot),
{
    let named = Step::run_owned(
        "install grub to the esp (named)",
        cmd("grub-install").arg("--target=x86_64-efi").arg("--bootloader-id=debian").arg(
            "--efi-directory=/boot/efi",
        ).arg("--no-nvram").arg("--recheck").arg("--no-floppy"),
    );
    let removable = Step::run_owned(
        "install grub to the esp (removable fallback)",
        cmd("grub-install").arg("--target=x86_64-efi").arg("--efi-directory=/boot/efi").arg(
            "--no-nvram",
        ).arg("--recheck").arg("--no-floppy").arg("--removable"),
    );
    if chroot {
        let mut s = one_step(named.chroot());
        add_step(&mut s, removable.chroot());
        s
    } else {
        let mut s = one_step(named);
        add_step(&mut s, removable);
        s
    }
}

} // verus!
