//! Resyncs the independent /boot and esp mirrors from the live primary. The source is
//! verified before any mirror is touched, so a broken source is never propagated. A
//! failed mirror is reported and counted; the others are still synced.
//!
//! Where /boot is on md raid1, mdadm replicates it and there is nothing to sync. The
//! mirrors have no mount point of their own and are mounted transiently by device.
use vstd::prelude::*;
use vstd::string::*;

use crate::cli::SyncTarget;
use crate::efi::{GRUB_FILE, SHIM_FILE};
use crate::layout::{Layout, LayoutModel, ESP_MOUNT};
use crate::text::{
    cmd, contains, dec, decimal, has_prefix, head_all, headed, holds, join, joined, keep_nonempty,
    lines, nonempty, nth_text, opt_text, push_text, push_texts, same, split_lines, starts_with,
    text_at, texts, trim, trimmed, ArgList,
};

verus! {

/// The mount point of /boot.
pub const BOOT_MOUNT: &'static str = "/boot";

/// Where transient mount points are created.
pub const RUN_DIR: &'static str = "/run/raiden";

// ------------------------------------------------------------------- mirrors

/// A device path, and what it leads to where that can be told (symbolic links
/// followed).
pub struct Device {
    pub path: String,
    pub resolved: Option<String>,
}

#[verifier::ext_equal]
pub struct DeviceModel {
    pub path: Seq<char>,
    pub resolved: Option<Seq<char>>,
}

impl View for Device {
    type V = DeviceModel;

    open spec fn view(&self) -> DeviceModel {
        DeviceModel { path: self.path@, resolved: opt_text(self.resolved) }
    }
}

/// The models of a list of devices.
pub open spec fn devices(v: Seq<Device>) -> Seq<DeviceModel> {
    v.map_values(|d: Device| d@)
}

/// Whether two paths name one block device: they lead to the same node, or, where one
/// of them cannot be followed, are spelled alike.
pub open spec fn one_device(a: DeviceModel, b: DeviceModel) -> bool {
    match (a.resolved, b.resolved) {
        (Some(x), Some(y)) => x == y,
        _ => a.path == b.path,
    }
}

/// Whether two paths name one block device.
pub fn is_same_device(a: &Device, b: &Device) -> (r: bool)
    ensures
        r == one_device(a@, b@),
{
    match (&a.resolved, &b.resolved) {
        (Some(x), Some(y)) => same(x.as_str(), y.as_str()),
        _ => same(a.path.as_str(), b.path.as_str()),
    }
}

/// The paths of the devices other than the source.
pub open spec fn others(v: Seq<DeviceModel>, src: DeviceModel) -> Seq<Seq<char>>
    decreases v.len(),
{
    if v.len() == 0 {
        Seq::empty()
    } else if one_device(v.last(), src) {
        others(v.drop_last(), src)
    } else {
        others(v.drop_last(), src).push(v.last().path)
    }
}

/// The mirror devices: all but the live source. Where nothing is mounted no device is
/// skipped, so all of them are.
pub open spec fn mirrors_of(v: Seq<DeviceModel>, src: Option<DeviceModel>) -> Seq<Seq<char>> {
    match src {
        Some(s) => others(v, s),
        None => v.map_values(|d: DeviceModel| d.path),
    }
}

fn paths_of(v: &Vec<Device>) -> (r: Vec<String>)
    ensures
        texts(r@) == devices(v@).map_values(|d: DeviceModel| d.path),
{
    let ghost want = devices(v@).map_values(|d: DeviceModel| d.path);
    let mut out: Vec<String> = Vec::new();
    let mut i: usize = 0;
    while i < v.len()
        invariant
            i <= v.len(),
            want == devices(v@).map_values(|d: DeviceModel| d.path),
            texts(out@) =~= want.take(i as int),
        decreases v.len() - i,
    {
        push_text(&mut out, v[i].path.as_str());
        i += 1;
    }
    assert(want.take(want.len() as int) =~= want);
    out
}

/// The mirror devices: all but the live source, or all of them where nothing is mounted.
pub fn mirrors(v: &Vec<Device>, src: Option<&Device>) -> (r: Vec<String>)
    ensures
        texts(r@) == mirrors_of(
            devices(v@),
            match src {
                Some(s) => Some(s@),
                None => None,
            },
        ),
{
    let ghost m = devices(v@);
    let mut out: Vec<String> = Vec::new();
    assert(texts(out@) =~= Seq::<Seq<char>>::empty());
    let s = match src {
        Some(s) => s,
        None => {
            return paths_of(v);
        },
    };
    let ghost wanted = s@;
    let mut i: usize = 0;
    while i < v.len()
        invariant
            i <= v.len(),
            m == devices(v@),
            wanted == s@,
            texts(out@) == others(m.take(i as int), wanted),
        decreases v.len() - i,
    {
        assert(m.take(i + 1).drop_last() =~= m.take(i as int));
        assert(m.take(i + 1).last() == v@[i as int]@);
        if !is_same_device(&v[i], s) {
            push_text(&mut out, v[i].path.as_str());
        }
        i += 1;
    }
    assert(m.take(m.len() as int) =~= m);
    out
}

/// The source is never one of its mirrors, and every other device is.
pub proof fn mirrors_are_the_other_devices(v: Seq<DeviceModel>, src: DeviceModel, x: Seq<char>)
    ensures
        others(v, src).contains(x) <==> exists|i: int|
            0 <= i < v.len() && #[trigger] v[i].path == x && !one_device(v[i], src),
    decreases v.len(),
{
    if v.len() > 0 {
        let rest = v.drop_last();
        mirrors_are_the_other_devices(rest, src, x);
        let all = others(v, src);
        if others(rest, src).contains(x) {
            let k = choose|k: int| 0 <= k < others(rest, src).len() && others(rest, src)[k] == x;
            assert(all[k] == x);
            let i = choose|i: int|
                0 <= i < rest.len() && #[trigger] rest[i].path == x && !one_device(rest[i], src);
            assert(v[i].path == x);
        }
        if v.last().path == x && !one_device(v.last(), src) {
            assert(all[all.len() - 1] == x);
            assert(v[v.len() - 1].path == x);
        }
        if exists|i: int| 0 <= i < v.len() && #[trigger] v[i].path == x && !one_device(v[i], src) {
            let i = choose|i: int|
                0 <= i < v.len() && #[trigger] v[i].path == x && !one_device(v[i], src);
            if i < v.len() - 1 {
                assert(rest[i].path == x);
            }
        }
        if all.contains(x) && !others(rest, src).contains(x) {
            let k = choose|k: int| 0 <= k < all.len() && all[k] == x;
            if k < others(rest, src).len() {
                assert(others(rest, src)[k] == x);
            }
        }
    }
}

/// The devices at these paths, with what each leads to.
pub open spec fn paired(
    paths: Seq<Seq<char>>,
    resolved: Seq<Option<String>>,
) -> Seq<DeviceModel> {
    Seq::new(
        paths.len(),
        |i: int|
            DeviceModel {
                path: paths[i],
                resolved: text_at(resolved, i),
            },
    )
}

/// The devices at these paths, with what each leads to.
pub fn pair(paths: &Vec<String>, resolved: &Vec<Option<String>>) -> (r: Vec<Device>)
    ensures
        devices(r@) == paired(texts(paths@), resolved@),
{
    let ghost want = paired(texts(paths@), resolved@);
    let mut out: Vec<Device> = Vec::new();
    let mut i: usize = 0;
    while i < paths.len()
        invariant
            i <= paths.len(),
            want == paired(texts(paths@), resolved@),
            devices(out@) =~= want.take(i as int),
        decreases paths.len() - i,
    {
        let d = Device { path: paths[i].clone(), resolved: nth_text(resolved, i) };
        assert(want[i as int] == d@);
        let ghost before = devices(out@);
        out.push(d);
        assert(devices(out@) =~= before.push(d@));
        i += 1;
    }
    assert(want.take(want.len() as int) =~= want);
    out
}

/// The model of an optional device.
pub open spec fn opt_device(d: Option<Device>) -> Option<DeviceModel> {
    match d {
        Some(d) => Some(d@),
        None => None,
    }
}

/// The mirrors of the independent /boot set. The source is whatever /boot is mounted
/// from (by the shared uuid); `resolved` says what each boot device leads to.
pub fn boot_mirror_set(
    layout: &Layout,
    src: &Option<Device>,
    resolved: &Vec<Option<String>>,
) -> (r: Vec<String>)
    ensures
        texts(r@) == mirrors_of(paired(layout@.boot_devices(), resolved@), opt_device(*src)),
{
    mirrors(&pair(&layout.boot_devices(), resolved), src.as_ref())
}

/// The mirrors of the esp set. The source is the esp mounted at /boot/efi; `resolved`
/// says what each esp leads to.
pub fn efi_mirror_set(
    layout: &Layout,
    src: &Option<Device>,
    resolved: &Vec<Option<String>>,
) -> (r: Vec<String>)
    ensures
        texts(r@) == mirrors_of(paired(layout@.esp_devices(), resolved@), opt_device(*src)),
{
    mirrors(&pair(&layout.esp_devices(), resolved), src.as_ref())
}

/// The device that findmnt names, where the path is mounted.
pub fn findmnt_source(ok: bool, stdout: &str) -> (r: Option<String>)
    ensures
        opt_text(r) == (if !ok || trimmed(stdout@).len() == 0 {
            None
        } else {
            Some(trimmed(stdout@))
        }),
{
    if !ok {
        return None;
    }
    let s = trim(stdout);
    if s.as_str().is_empty() {
        None
    } else {
        Some(s)
    }
}

// -------------------------------------------------------------- verification

/// The list with `s` behind it, where the condition holds.
pub open spec fn added(v: Seq<Seq<char>>, cond: bool, s: Seq<char>) -> Seq<Seq<char>> {
    if cond {
        v.push(s)
    } else {
        v
    }
}

fn add_if(v: &mut Vec<String>, cond: bool, s: &str)
    ensures
        texts(final(v)@) == added(texts(old(v)@), cond, s@),
{
    if cond {
        push_text(v, s);
    }
}

/// What a read-only filesystem check found.
pub enum Fsck {
    Clean,
    /// The check exited with errors and printed this.
    Errors(String),
    /// The check could not be started, for this reason.
    NotRun(String),
}

/// The failures that a filesystem check stands for.
pub open spec fn fsck_fails(dev: Seq<char>, f: Fsck) -> Seq<Seq<char>> {
    match f {
        Fsck::Clean => Seq::empty(),
        Fsck::Errors(out) => seq!["e2fsck reported errors on "@ + dev + ": "@ + trimmed(out@)],
        Fsck::NotRun(e) => seq!["could not run e2fsck on "@ + dev + ": "@ + e@],
    }
}

/// The failures that a filesystem check stands for.
pub fn check_fsck(boot_dev: &str, found: &Fsck) -> (r: Vec<String>)
    ensures
        texts(r@) == fsck_fails(boot_dev@, *found),
{
    match found {
        Fsck::Clean => {
            let v: Vec<String> = Vec::new();
            assert(texts(v@) =~= Seq::<Seq<char>>::empty());
            v
        },
        Fsck::Errors(out) => cmd(
            "e2fsck reported errors on ".to_owned().concat(boot_dev).concat(": ").concat(
                trim(out.as_str()).as_str(),
            ).as_str(),
        ),
        Fsck::NotRun(e) => cmd(
            "could not run e2fsck on ".to_owned().concat(boot_dev).concat(": ").concat(
                e.as_str(),
            ).as_str(),
        ),
    }
}

/// What listing an initrd gave.
pub enum Listing {
    Files(String),
    /// The listing tool failed on it.
    Failed,
    /// There is no listing tool.
    Unavailable,
}

/// What is seen of a mounted /boot tree.
pub struct BootTree {
    /// The text of grub/grub.cfg, where it can be read.
    pub grub_cfg: Option<String>,
    /// The names in the top directory, in the order in which they are read.
    pub entries: Vec<String>,
    /// The listing of its first initrd.
    pub listing: Listing,
}

/// The position of the first name with a prefix, or the number of names.
pub open spec fn first_with(v: Seq<Seq<char>>, prefix: Seq<char>) -> int
    decreases v.len(),
{
    if v.len() == 0 {
        0
    } else if has_prefix(v[0], prefix) {
        0
    } else {
        1 + first_with(v.skip(1), prefix)
    }
}

/// The first name with a prefix.
pub open spec fn first_named(v: Seq<Seq<char>>, prefix: Seq<char>) -> Option<Seq<char>> {
    if first_with(v, prefix) < v.len() {
        Some(v[first_with(v, prefix)])
    } else {
        None
    }
}

/// What is found first: a name with the prefix that no such name precedes.
pub proof fn first_with_is(v: Seq<Seq<char>>, prefix: Seq<char>, i: int)
    requires
        0 <= i <= v.len(),
        forall|k: int| 0 <= k < i ==> !has_prefix(#[trigger] v[k], prefix),
        i < v.len() ==> has_prefix(v[i], prefix),
    ensures
        first_with(v, prefix) == i,
    decreases v.len(),
{
    if i > 0 {
        assert(!has_prefix(v[0], prefix));
        assert forall|k: int| 0 <= k < i - 1 implies !has_prefix(#[trigger] v.skip(1)[k], prefix) by {
            assert(v.skip(1)[k] == v[k + 1]);
        }
        first_with_is(v.skip(1), prefix, i - 1);
    }
}

/// The path of the first name with the prefix in a directory.
pub fn first_glob(dir: &str, entries: &Vec<String>, prefix: &str) -> (r: Option<String>)
    ensures
        opt_text(r) == (match first_named(texts(entries@), prefix@) {
            Some(n) => Some(dir@ + "/"@ + n),
            None => None,
        }),
{
    let ghost names = texts(entries@);
    let mut i: usize = 0;
    while i < entries.len()
        invariant
            i <= entries.len(),
            names == texts(entries@),
            forall|k: int| 0 <= k < i ==> !has_prefix(#[trigger] names[k], prefix@),
        decreases entries.len() - i,
    {
        assert(names[i as int] == entries@[i as int]@);
        if starts_with(entries[i].as_str(), prefix) {
            proof {
                first_with_is(names, prefix@, i as int);
            }
            return Some(dir.to_owned().concat("/").concat(entries[i].as_str()));
        }
        i += 1;
    }
    proof {
        first_with_is(names, prefix@, names.len() as int);
    }
    None
}

/// Whether one of the names has the prefix.
pub fn has_glob(entries: &Vec<String>, prefix: &str) -> (r: bool)
    ensures
        r == (first_named(texts(entries@), prefix@) is Some),
{
    first_glob("", entries, prefix).is_some()
}

/// What is missing or wrong in a /boot tree: grub.cfg, a kernel, an initrd.
pub open spec fn boot_file_fails(path: Seq<char>, t: BootTree) -> Seq<Seq<char>> {
    let none = Seq::<Seq<char>>::empty();
    let cfg = match opt_text(t.grub_cfg) {
        Some(text) => added(
            added(
                added(none, trimmed(text).len() == 0, "grub.cfg is empty"@),
                !holds(text, "menuentry"@),
                "grub.cfg has no menuentry"@,
            ),
            !holds(text, "fs-uuid"@),
            "grub.cfg has no 'search --fs-uuid' (cannot find the root by uuid)"@,
        ),
        None => none.push("grub.cfg missing at "@ + path + "/grub/grub.cfg"@),
    };
    added(
        added(
            cfg,
            first_named(texts(t.entries@), "vmlinuz-"@) is None,
            "no kernel (vmlinuz-*) found on /boot"@,
        ),
        first_named(texts(t.entries@), "initrd.img-"@) is None,
        "no initrd (initrd.img-*) found on /boot"@,
    )
}

/// Presence and sanity of grub.cfg, a kernel, and an initrd on /boot.
pub fn check_boot_files(boot_path: &str, t: &BootTree) -> (r: Vec<String>)
    ensures
        texts(r@) == boot_file_fails(boot_path@, *t),
{
    let mut fails: Vec<String> = Vec::new();
    assert(texts(fails@) =~= Seq::<Seq<char>>::empty());
    match &t.grub_cfg {
        Some(text) => {
            add_if(&mut fails, trim(text.as_str()).as_str().is_empty(), "grub.cfg is empty");
            add_if(
                &mut fails,
                !contains(text.as_str(), "menuentry"),
                "grub.cfg has no menuentry",
            );
            add_if(
                &mut fails,
                !contains(text.as_str(), "fs-uuid"),
                "grub.cfg has no 'search --fs-uuid' (cannot find the root by uuid)",
            );
        },
        None => {
            push_text(
                &mut fails,
                "grub.cfg missing at ".to_owned().concat(boot_path).concat(
                    "/grub/grub.cfg",
                ).as_str(),
            );
        },
    }
    add_if(
        &mut fails,
        !has_glob(&t.entries, "vmlinuz-"),
        "no kernel (vmlinuz-*) found on /boot",
    );
    add_if(
        &mut fails,
        !has_glob(&t.entries, "initrd.img-"),
        "no initrd (initrd.img-*) found on /boot",
    );
    fails
}

/// The listing of an initrd, or why there is none.
pub open spec fn listing_of(initrd: Seq<char>, l: Listing) -> Result<Seq<char>, Seq<char>> {
    match l {
        Listing::Files(s) => Ok(s@),
        Listing::Failed => Err("lsinitramfs failed on "@ + initrd),
        Listing::Unavailable => Err("lsinitramfs unavailable; cannot verify "@ + initrd),
    }
}

/// The listing of an initrd, or why there is none.
pub fn initrd_listing(initrd: &str, l: &Listing) -> (r: Result<String, String>)
    ensures
        match r {
            Ok(s) => listing_of(initrd@, *l) == Ok::<Seq<char>, Seq<char>>(s@),
            Err(e) => listing_of(initrd@, *l) == Err::<Seq<char>, Seq<char>>(e@),
        },
{
    match l {
        Listing::Files(s) => Ok(s.clone()),
        Listing::Failed => Err("lsinitramfs failed on ".to_owned().concat(initrd)),
        Listing::Unavailable => Err(
            "lsinitramfs unavailable; cannot verify ".to_owned().concat(initrd),
        ),
    }
}

/// Why an initrd cannot unlock an encrypted root, where it cannot.
pub open spec fn no_cryptsetup(initrd: Seq<char>, l: Listing) -> Option<Seq<char>> {
    match listing_of(initrd, l) {
        Ok(files) => if holds(files, "cryptsetup"@) {
            None
        } else {
            Some(
                "initrd "@ + initrd
                    + " does not contain cryptsetup (encrypted root would not unlock)"@,
            )
        },
        Err(e) => Some(e),
    }
}

/// Whether an initrd contains cryptsetup, so an encrypted root can be unlocked from
/// the initramfs.
pub fn initrd_has_cryptsetup(initrd: &str, l: &Listing) -> (r: Result<(), String>)
    ensures
        match r {
            Ok(()) => no_cryptsetup(initrd@, *l) is None,
            Err(e) => no_cryptsetup(initrd@, *l) == Some(e@),
        },
{
    match initrd_listing(initrd, l) {
        Ok(files) => if contains(files.as_str(), "cryptsetup") {
            Ok(())
        } else {
            Err(
                "initrd ".to_owned().concat(initrd).concat(
                    " does not contain cryptsetup (encrypted root would not unlock)",
                ),
            )
        },
        Err(e) => Err(e),
    }
}

/// What is wrong with the first initrd of a /boot tree. A missing one is a failure of
/// the tree's files.
pub open spec fn initrd_fails(path: Seq<char>, t: BootTree) -> Seq<Seq<char>> {
    match first_named(texts(t.entries@), "initrd.img-"@) {
        Some(n) => match no_cryptsetup(path + "/"@ + n, t.listing) {
            Some(e) => seq![e],
            None => Seq::empty(),
        },
        None => Seq::empty(),
    }
}

/// What is wrong with the first initrd of a /boot tree.
pub fn check_initrd(boot_path: &str, t: &BootTree) -> (r: Vec<String>)
    ensures
        texts(r@) == initrd_fails(boot_path@, *t),
{
    let none: Vec<String> = Vec::new();
    assert(texts(none@) =~= Seq::<Seq<char>>::empty());
    match first_glob(boot_path, &t.entries, "initrd.img-") {
        Some(initrd) => match initrd_has_cryptsetup(initrd.as_str(), &t.listing) {
            Ok(()) => none,
            Err(e) => cmd(e.as_str()),
        },
        None => none,
    }
}

/// All that is wrong with a /boot tree, short of its filesystem.
pub open spec fn tree_fails(mount: Seq<char>, t: BootTree) -> Seq<Seq<char>> {
    boot_file_fails(mount, t) + initrd_fails(mount, t)
}

fn verdict(fails: Vec<String>) -> (r: Result<(), Vec<String>>)
    ensures
        r is Ok <==> texts(fails@).len() == 0,
        r is Err ==> r->Err_0@ == fails@,
{
    assert(texts(fails@).len() == fails@.len());
    if fails.len() == 0 {
        Ok(())
    } else {
        Err(fails)
    }
}

/// Whether a /boot tree can boot, without a check of the device: a grub.cfg, a kernel,
/// and an initrd that contains cryptsetup. Lists every failure.
pub fn verify_boot_files(src_mount: &str, t: &BootTree) -> (r: Result<(), Vec<String>>)
    ensures
        r is Ok <==> tree_fails(src_mount@, *t).len() == 0,
        r is Err ==> texts(r->Err_0@) == tree_fails(src_mount@, *t),
{
    let mut fails = check_boot_files(src_mount, t);
    push_texts(&mut fails, &check_initrd(src_mount, t));
    verdict(fails)
}

/// All that is wrong with a /boot source: its filesystem, then its tree.
pub open spec fn source_fails(
    dev: Seq<char>,
    mount: Seq<char>,
    f: Fsck,
    t: BootTree,
) -> Seq<Seq<char>> {
    fsck_fails(dev, f) + tree_fails(mount, t)
}

/// Verifies the /boot source before syncing. Lists every failure, so the whole picture
/// can be reported at once.
pub fn verify_boot(src_dev: &str, src_mount: &str, found: &Fsck, t: &BootTree) -> (r: Result<
    (),
    Vec<String>,
>)
    ensures
        r is Ok <==> source_fails(src_dev@, src_mount@, *found, *t).len() == 0,
        r is Err ==> texts(r->Err_0@) == source_fails(src_dev@, src_mount@, *found, *t),
{
    let mut fails = check_fsck(src_dev, found);
    let ghost tree = tree_fails(src_mount@, *t);
    match verify_boot_files(src_mount, t) {
        Ok(()) => {
            assert(tree =~= Seq::<Seq<char>>::empty());
            assert(texts(fails@) + tree =~= texts(fails@));
        },
        Err(more) => {
            push_texts(&mut fails, &more);
        },
    }
    verdict(fails)
}

/// The bootloader files that are missing from an esp.
pub open spec fn esp_fails(path: Seq<char>, shim: bool, grub: bool) -> Seq<Seq<char>> {
    added(
        added(
            Seq::<Seq<char>>::empty(),
            !shim,
            "shimx64.efi missing at "@ + (path + "/"@ + SHIM_FILE@)
                + " (grub-install has not run on this esp?)"@,
        ),
        !grub,
        "grubx64.efi missing at "@ + (path + "/"@ + GRUB_FILE@)
            + " (grub-install has not run on this esp?)"@,
    )
}

fn missing_on_esp(label: &str, esp_path: &str, file: &str) -> (r: String)
    ensures
        r@ == label@ + " missing at "@ + (esp_path@ + "/"@ + file@)
            + " (grub-install has not run on this esp?)"@,
{
    let p = esp_path.to_owned().concat("/").concat(file);
    label.to_owned().concat(" missing at ").concat(p.as_str()).concat(
        " (grub-install has not run on this esp?)",
    )
}

/// Presence of the files that grub-install writes to an esp: the shim and grub's own
/// efi binary. Without the shim the firmware cannot boot this esp.
pub fn check_efi_files(esp_path: &str, shim: bool, grub: bool) -> (r: Vec<String>)
    ensures
        texts(r@) == esp_fails(esp_path@, shim, grub),
{
    proof {
        reveal_strlit("shimx64.efi");
        reveal_strlit("grubx64.efi");
        reveal_strlit(" missing at ");
        reveal_strlit("shimx64.efi missing at ");
        reveal_strlit("grubx64.efi missing at ");
        assert("shimx64.efi"@ + " missing at "@ =~= "shimx64.efi missing at "@);
        assert("grubx64.efi"@ + " missing at "@ =~= "grubx64.efi missing at "@);
    }
    let mut fails: Vec<String> = Vec::new();
    assert(texts(fails@) =~= Seq::<Seq<char>>::empty());
    add_if(&mut fails, !shim, missing_on_esp("shimx64.efi", esp_path, SHIM_FILE).as_str());
    add_if(&mut fails, !grub, missing_on_esp("grubx64.efi", esp_path, GRUB_FILE).as_str());
    fails
}

/// Verifies the esp source: shim and grub are there.
pub fn verify_efi(src_mount: &str, shim: bool, grub: bool) -> (r: Result<(), Vec<String>>)
    ensures
        r is Ok <==> shim && grub,
        r is Err ==> texts(r->Err_0@) == esp_fails(src_mount@, shim, grub),
{
    verdict(check_efi_files(src_mount, shim, grub))
}

// ---------------------------------------------------------------------- sync

/// What one sync works on.
pub struct MirrorSet {
    /// The mount point being mirrored.
    pub mount: String,
    /// The device behind the mounted source, where it is mounted.
    pub src: Option<String>,
    /// The mirror devices.
    pub mirrors: Vec<String>,
    /// The prefix of the transient mount points.
    pub tmp_prefix: String,
    /// Whether the copy stays on one filesystem: /boot must not descend into the esp.
    pub one_file_system: bool,
}

#[verifier::ext_equal]
pub struct MirrorModel {
    pub mount: Seq<char>,
    pub src: Option<Seq<char>>,
    pub mirrors: Seq<Seq<char>>,
    pub tmp_prefix: Seq<char>,
    pub one_file_system: bool,
}

impl View for MirrorSet {
    type V = MirrorModel;

    open spec fn view(&self) -> MirrorModel {
        MirrorModel {
            mount: self.mount@,
            src: opt_text(self.src),
            mirrors: texts(self.mirrors@),
            tmp_prefix: self.tmp_prefix@,
            one_file_system: self.one_file_system,
        }
    }
}

/// What a sync of the target works on. Where /boot is on md raid1 that is nothing.
pub open spec fn resolved_set(
    target: SyncTarget,
    layout: LayoutModel,
    src: Option<DeviceModel>,
    resolved: Seq<Option<String>>,
) -> MirrorModel {
    let path = match src {
        Some(d) => Some(d.path),
        None => None,
    };
    match target {
        SyncTarget::Boot { .. } => if layout.boot_raid() {
            MirrorModel {
                mount: BOOT_MOUNT@,
                src: None,
                mirrors: Seq::empty(),
                tmp_prefix: "boot"@,
                one_file_system: true,
            }
        } else {
            MirrorModel {
                mount: BOOT_MOUNT@,
                src: path,
                mirrors: mirrors_of(paired(layout.boot_devices(), resolved), src),
                tmp_prefix: "boot"@,
                one_file_system: true,
            }
        },
        SyncTarget::Efi { .. } => MirrorModel {
            mount: ESP_MOUNT@,
            src: path,
            mirrors: mirrors_of(paired(layout.esp_devices(), resolved), src),
            tmp_prefix: "esp"@,
            one_file_system: false,
        },
    }
}

fn path_of(src: &Option<Device>) -> (r: Option<String>)
    ensures
        opt_text(r) == (match opt_device(*src) {
            Some(d) => Some(d.path),
            None => None,
        }),
{
    match src {
        Some(d) => Some(d.path.clone()),
        None => None,
    }
}

/// What a sync of the target works on, given the device behind the mounted source and
/// what each member device leads to.
pub fn resolve(
    target: &SyncTarget,
    layout: &Layout,
    src: &Option<Device>,
    resolved: &Vec<Option<String>>,
) -> (r: MirrorSet)
    ensures
        r@ == resolved_set(*target, layout@, opt_device(*src), resolved@),
{
    match target {
        SyncTarget::Boot { .. } => {
            let raid = layout.boot_raid();
            let none: Vec<String> = Vec::new();
            assert(texts(none@) =~= Seq::<Seq<char>>::empty());
            MirrorSet {
                mount: BOOT_MOUNT.to_owned(),
                src: if raid {
                    None
                } else {
                    path_of(src)
                },
                mirrors: if raid {
                    none
                } else {
                    boot_mirror_set(layout, src, resolved)
                },
                tmp_prefix: "boot".to_owned(),
                one_file_system: true,
            }
        },
        SyncTarget::Efi { .. } => MirrorSet {
            mount: ESP_MOUNT.to_owned(),
            src: path_of(src),
            mirrors: efi_mirror_set(layout, src, resolved),
            tmp_prefix: "esp".to_owned(),
            one_file_system: false,
        },
    }
}

/// How a sync opens.
pub enum Opening {
    /// There is nothing to sync, for this reason.
    Nothing(String),
    /// A preview: these lines, and no more.
    Preview(Vec<String>),
    /// The source is to be verified and the mirrors synced, after these lines.
    Proceed(Vec<String>),
}

pub enum OpeningModel {
    Nothing(Seq<char>),
    Preview(Seq<Seq<char>>),
    Proceed(Seq<Seq<char>>),
}

impl View for Opening {
    type V = OpeningModel;

    open spec fn view(&self) -> OpeningModel {
        match self {
            Opening::Nothing(s) => OpeningModel::Nothing(s@),
            Opening::Preview(v) => OpeningModel::Preview(texts(v@)),
            Opening::Proceed(v) => OpeningModel::Proceed(texts(v@)),
        }
    }
}

/// The resolved source and mirrors, announced before anything else happens.
pub open spec fn announcement(src: Seq<char>, set: MirrorModel) -> Seq<Seq<char>> {
    seq!["source:  "@ + src].push("mirrors: "@ + joined(set.mirrors, ", "@))
}

/// The line that previews the copy onto one mirror.
pub open spec fn preview_line(set: MirrorModel, dev: Seq<char>) -> Seq<char> {
    "  rsync "@ + (if set.one_file_system {
        "--one-file-system "@
    } else {
        ""@
    }) + "--times --recursive --delete "@ + set.mount + "/ <mount of "@ + dev + ">/"@
}

/// How a sync opens: with nothing to do where the source is not mounted or has no
/// mirrors, with a preview where one is asked for, and else for real.
pub open spec fn opening(set: MirrorModel, dry_run: bool) -> OpeningModel {
    match set.src {
        None => OpeningModel::Nothing(set.mount + " is not mounted; nothing to sync"@),
        Some(src) => if set.mirrors.len() == 0 {
            OpeningModel::Nothing(
                "no "@ + set.mount
                    + " mirrors to sync (single member or all already the source)"@,
            )
        } else if dry_run {
            OpeningModel::Preview(
                announcement(src, set) + set.mirrors.map_values(
                    |d: Seq<char>| preview_line(set, d),
                ),
            )
        } else {
            OpeningModel::Proceed(announcement(src, set))
        },
    }
}

/// Where /boot is on md raid1, a sync of it does nothing.
pub proof fn a_raid_boot_needs_no_sync(
    layout: LayoutModel,
    force: bool,
    src: Option<DeviceModel>,
    resolved: Seq<Option<String>>,
    dry_run: bool,
)
    requires
        layout.boot_raid(),
    ensures
        opening(resolved_set(SyncTarget::Boot { force }, layout, src, resolved), dry_run) is Nothing,
{
}

/// A sync goes ahead only where there is a live source and a mirror of it, and never in
/// a dry run.
pub proof fn a_sync_needs_a_source_and_a_mirror(set: MirrorModel, dry_run: bool)
    ensures
        opening(set, dry_run) is Proceed <==> !dry_run && set.src is Some && set.mirrors.len() > 0,
{
}

/// How a sync opens.
pub fn open_sync(set: &MirrorSet, dry_run: bool) -> (r: Opening)
    ensures
        r@ == opening(set@, dry_run),
{
    let src = match &set.src {
        Some(s) => s,
        None => {
            return Opening::Nothing(
                set.mount.clone().concat(" is not mounted; nothing to sync"),
            );
        },
    };
    assert(texts(set.mirrors@).len() == set.mirrors@.len());
    if set.mirrors.len() == 0 {
        return Opening::Nothing(
            "no ".to_owned().concat(set.mount.as_str()).concat(
                " mirrors to sync (single member or all already the source)",
            ),
        );
    }
    let mut out = cmd("source:  ".to_owned().concat(src.as_str()).as_str()).arg(
        "mirrors: ".to_owned().concat(join(&set.mirrors, ", ").as_str()).as_str(),
    );
    if !dry_run {
        return Opening::Proceed(out);
    }
    let ghost done = texts(out@);
    let ghost want = set@.mirrors.map_values(|d: Seq<char>| preview_line(set@, d));
    let mut i: usize = 0;
    while i < set.mirrors.len()
        invariant
            i <= set.mirrors.len(),
            want == set@.mirrors.map_values(|d: Seq<char>| preview_line(set@, d)),
            texts(out@) =~= done + want.take(i as int),
        decreases set.mirrors.len() - i,
    {
        let ofs = if set.one_file_system {
            "--one-file-system "
        } else {
            ""
        };
        let line = "  rsync ".to_owned().concat(ofs).concat("--times --recursive --delete ").concat(
            set.mount.as_str(),
        ).concat("/ <mount of ").concat(set.mirrors[i].as_str()).concat(">/");
        push_text(&mut out, line.as_str());
        assert(want[i as int] == line@);
        i += 1;
    }
    assert(want.take(want.len() as int) =~= want);
    Opening::Preview(out)
}

/// The report of a source that must not be propagated.
pub open spec fn refusal(mount: Seq<char>, fails: Seq<Seq<char>>) -> Seq<Seq<char>> {
    seq![mount + " pre-sync verification failed:"@] + headed("  - "@, fails)
}

/// Whether the source may be mirrored: it passed its verification, or the verification
/// is skipped. The report where it may not.
pub fn source_refused(set: &MirrorSet, force: bool, verified: &Result<(), Vec<String>>) -> (r:
    Option<Vec<String>>)
    ensures
        r is Some <==> !force && *verified is Err,
        r is Some ==> texts(r->0@) == refusal(set@.mount, texts(verified->Err_0@)),
{
    if force {
        return None;
    }
    match verified {
        Ok(()) => None,
        Err(fails) => Some(
            cmd(set.mount.clone().concat(" pre-sync verification failed:").as_str()).args(
                &head_all("  - ", fails),
            ),
        ),
    }
}

/// Why a sync failed.
pub enum SyncError {
    /// The source at this mount point is broken.
    Broken(String),
    /// The user did not confirm.
    Aborted,
    /// So many mirrors of this mount point failed.
    Failed(u64, String),
}

impl SyncError {
    pub open spec fn text(self) -> Seq<char> {
        match self {
            SyncError::Broken(mount) => "refusing to mirror a broken "@ + mount@,
            SyncError::Aborted => "aborted"@,
            SyncError::Failed(n, mount) => dec(n as nat) + " "@ + mount@ + " mirror(s) failed"@,
        }
    }

    /// What is printed of the error.
    pub fn message(&self) -> (r: String)
        ensures
            r@ == self.text(),
    {
        match self {
            SyncError::Broken(mount) => "refusing to mirror a broken ".to_owned().concat(
                mount.as_str(),
            ),
            SyncError::Aborted => "aborted".to_owned(),
            SyncError::Failed(n, mount) => decimal(*n).concat(" ").concat(mount.as_str()).concat(
                " mirror(s) failed",
            ),
        }
    }
}

/// How many of the mirrors failed.
pub open spec fn failures(outcomes: Seq<bool>) -> nat
    decreases outcomes.len(),
{
    if outcomes.len() == 0 {
        0
    } else {
        failures(outcomes.drop_last()) + (if outcomes.last() {
            0nat
        } else {
            1nat
        })
    }
}

/// A sync succeeds exactly where every mirror did.
pub proof fn no_failure_means_all_synced(outcomes: Seq<bool>)
    ensures
        failures(outcomes) == 0 <==> forall|i: int| 0 <= i < outcomes.len() ==> outcomes[i],
        failures(outcomes) <= outcomes.len(),
    decreases outcomes.len(),
{
    if outcomes.len() > 0 {
        let rest = outcomes.drop_last();
        no_failure_means_all_synced(rest);
        assert(outcomes.last() == outcomes[outcomes.len() - 1]);
        if failures(rest) == 0 && outcomes.last() {
            assert forall|i: int| 0 <= i < outcomes.len() implies outcomes[i] by {
                if i < rest.len() {
                    assert(rest[i]);
                }
            }
        }
        if forall|i: int| 0 <= i < outcomes.len() ==> outcomes[i] {
            assert forall|i: int| 0 <= i < rest.len() implies rest[i] by {
                assert(outcomes[i]);
            }
        }
    }
}

/// What a sync comes to, once every mirror was tried.
pub fn sync_result(set: &MirrorSet, outcomes: &Vec<bool>) -> (r: Result<(), SyncError>)
    ensures
        r is Ok <==> forall|i: int| 0 <= i < outcomes@.len() ==> outcomes@[i],
        r is Err ==> (r->Err_0 matches SyncError::Failed(n, mount) && n == failures(outcomes@)
            && mount@ == set@.mount),
{
    let mut failed: u64 = 0;
    let mut i: usize = 0;
    while i < outcomes.len()
        invariant
            i <= outcomes.len(),
            failed <= i,
            failed == failures(outcomes@.take(i as int)),
        decreases outcomes.len() - i,
    {
        assert(outcomes@.take(i + 1).drop_last() =~= outcomes@.take(i as int));
        if !outcomes[i] {
            failed += 1;
        }
        i += 1;
    }
    proof {
        assert(outcomes@.take(outcomes@.len() as int) =~= outcomes@);
        no_failure_means_all_synced(outcomes@);
    }
    if failed != 0 {
        Err(SyncError::Failed(failed, set.mount.clone()))
    } else {
        Ok(())
    }
}

/// The line that is printed of a mirror that failed.
pub fn mirror_failed(set: &MirrorSet, dev: &str, error: &str) -> (r: String)
    ensures
        r@ == set@.mount + ": mirror "@ + dev@ + " failed: "@ + error@,
{
    set.mount.clone().concat(": mirror ").concat(dev).concat(" failed: ").concat(error)
}

// ------------------------------------------------------------------ commands

/// The template of a transient mount point.
pub fn mount_template(prefix: &str) -> (r: String)
    ensures
        r@ == RUN_DIR@ + "/"@ + prefix@ + ".XXXXXX"@,
{
    RUN_DIR.to_owned().concat("/").concat(prefix).concat(".XXXXXX")
}

/// The command that mounts a device transiently.
pub open spec fn mount_words(dev: Seq<char>, tmp: Seq<char>, read_only: bool) -> Seq<Seq<char>> {
    let head = if read_only {
        seq!["mount"@].push("-o"@).push("ro"@)
    } else {
        seq!["mount"@]
    };
    head.push(dev).push(tmp)
}

/// The command that mounts a device transiently.
pub fn mount_transient(dev: &str, tmp: &str, read_only: bool) -> (r: Vec<String>)
    ensures
        texts(r@) == mount_words(dev@, tmp@, read_only),
{
    let head = if read_only {
        cmd("mount").arg("-o").arg("ro")
    } else {
        cmd("mount")
    };
    head.arg(dev).arg(tmp)
}

/// The command that copies the live source onto a mirror.
pub open spec fn rsync_words(
    src_mount: Seq<char>,
    tmp: Seq<char>,
    one_fs: bool,
    verbose: bool,
) -> Seq<Seq<char>> {
    let base = seq!["rsync"@].push("--times"@).push("--recursive"@).push("--delete"@);
    added(added(base, one_fs, "--one-file-system"@), verbose, "--itemize-changes"@).push(
        src_mount + "/"@,
    ).push(tmp + "/"@)
}

/// The command that copies the live source onto a mirror.
pub fn run_rsync(src_mount: &str, tmp: &str, one_fs: bool, verbose: bool) -> (r: Vec<String>)
    ensures
        texts(r@) == rsync_words(src_mount@, tmp@, one_fs, verbose),
{
    let mut v = cmd("rsync").arg("--times").arg("--recursive").arg("--delete");
    add_if(&mut v, one_fs, "--one-file-system");
    add_if(&mut v, verbose, "--itemize-changes");
    v.arg(src_mount.to_owned().concat("/").as_str()).arg(tmp.to_owned().concat("/").as_str())
}

/// The command that compares the live source with a mirror without writing.
pub open spec fn drift_words(src_mount: Seq<char>, tmp: Seq<char>, one_fs: bool) -> Seq<Seq<char>> {
    let base = seq!["rsync"@].push("--dry-run"@).push("--itemize-changes"@).push(
        "--out-format=%n"@,
    ).push("--recursive"@).push("--delete"@);
    added(base, one_fs, "--one-file-system"@).push(src_mount + "/"@).push(tmp + "/"@)
}

/// The command that compares the live source with a mirror without writing.
pub fn drift_argv(src_mount: &str, tmp: &str, one_fs: bool) -> (r: Vec<String>)
    ensures
        texts(r@) == drift_words(src_mount@, tmp@, one_fs),
{
    let mut v = cmd("rsync").arg("--dry-run").arg("--itemize-changes").arg(
        "--out-format=%n",
    ).arg("--recursive").arg("--delete");
    add_if(&mut v, one_fs, "--one-file-system");
    v.arg(src_mount.to_owned().concat("/").as_str()).arg(tmp.to_owned().concat("/").as_str())
}

/// The paths that differ between the live source and a mirror, none where they are in
/// sync. None where the comparison failed: it exited with an error after it printed.
pub fn drift(ok: bool, stdout: &str) -> (r: Option<Vec<String>>)
    ensures
        r is Some <==> ok || stdout@.len() == 0,
        r is Some ==> texts(r->0@) == nonempty(lines(stdout@)),
{
    if !ok && !stdout.is_empty() {
        return None;
    }
    Some(keep_nonempty(&split_lines(stdout)))
}

// ---------------------------------------------------------------------- laws

/// Whether a name with this prefix is listed.
pub open spec fn lists_named(v: Seq<Seq<char>>, prefix: Seq<char>) -> bool {
    exists|i: int| 0 <= i < v.len() && has_prefix(#[trigger] v[i], prefix)
}

proof fn a_name_is_found(v: Seq<Seq<char>>, prefix: Seq<char>)
    ensures
        0 <= first_with(v, prefix) <= v.len(),
        first_named(v, prefix) is Some <==> lists_named(v, prefix),
    decreases v.len(),
{
    if v.len() > 0 && !has_prefix(v[0], prefix) {
        let t = v.skip(1);
        a_name_is_found(t, prefix);
        if lists_named(v, prefix) {
            let k = choose|k: int| 0 <= k < v.len() && has_prefix(#[trigger] v[k], prefix);
            assert(t[k - 1] == v[k]);
        }
        if lists_named(t, prefix) {
            let k = choose|k: int| 0 <= k < t.len() && has_prefix(#[trigger] t[k], prefix);
            assert(v[k + 1] == t[k]);
        }
    }
}

/// Whether a /boot can be booted from: its grub configuration has an entry and finds the
/// root by its uuid, a kernel is there, and an initrd that can unlock the root.
pub open spec fn bootable(t: BootTree) -> bool {
    &&& t.grub_cfg is Some
    &&& trimmed(t.grub_cfg->0@).len() > 0
    &&& holds(t.grub_cfg->0@, "menuentry"@)
    &&& holds(t.grub_cfg->0@, "fs-uuid"@)
    &&& lists_named(texts(t.entries@), "vmlinuz-"@)
    &&& lists_named(texts(t.entries@), "initrd.img-"@)
    &&& t.listing matches Listing::Files(files) && holds(files@, "cryptsetup"@)
}

/// A source is mirrored without force exactly where its filesystem is clean and it can be
/// booted from; a mirror's tree is sound exactly where it can be booted from.
pub proof fn only_a_bootable_source_is_sound(
    dev: Seq<char>,
    mount: Seq<char>,
    f: Fsck,
    t: BootTree,
)
    ensures
        source_fails(dev, mount, f, t).len() == 0 <==> f is Clean && bootable(t),
        tree_fails(mount, t).len() == 0 <==> bootable(t),
{
    a_name_is_found(texts(t.entries@), "vmlinuz-"@);
    a_name_is_found(texts(t.entries@), "initrd.img-"@);
}

/// An esp is sound exactly where shim and grub are on it.
pub proof fn only_a_full_esp_is_sound(path: Seq<char>, shim: bool, grub: bool)
    ensures
        esp_fails(path, shim, grub).len() == 0 <==> shim && grub,
{
}

/// What is synced: an independent /boot onto the boot partitions of the members, the esp
/// onto theirs, but never onto the device that it is mounted from.
pub proof fn members_mirror_the_source(
    layout: LayoutModel,
    force: bool,
    src: DeviceModel,
    resolved: Seq<Option<String>>,
    x: Seq<char>,
)
    ensures
        ({
            let boot = resolved_set(SyncTarget::Boot { force }, layout, Some(src), resolved);
            let esp = resolved_set(SyncTarget::Efi { force }, layout, Some(src), resolved);
            &&& boot.mount == "/boot"@ && boot.one_file_system && boot.tmp_prefix == "boot"@
            &&& esp.mount == "/boot/efi"@ && !esp.one_file_system && esp.tmp_prefix == "esp"@
            &&& esp.src == Some(src.path)
            &&& layout.boot_raid() ==> boot.mirrors.len() == 0 && boot.src is None
            &&& !layout.boot_raid() ==> boot.src == Some(src.path) && (boot.mirrors.contains(x)
                <==> exists|k: int|
                #![trigger layout.members[k]]
                0 <= k < layout.members.len() && x == layout.part(layout.members[k], 2)
                    && !one_device(
                    DeviceModel { path: x, resolved: text_at(resolved, k) },
                    src,
                ))
            &&& esp.mirrors.contains(x) <==> exists|k: int|
                #![trigger layout.members[k]]
                0 <= k < layout.members.len() && x == layout.part(layout.members[k], 1)
                    && !one_device(
                    DeviceModel { path: x, resolved: text_at(resolved, k) },
                    src,
                )
        }),
{
    if !layout.boot_raid() {
        mirrors_of_a_kind(layout, src, resolved, x, 2);
    }
    mirrors_of_a_kind(layout, src, resolved, x, 1);
}

proof fn mirrors_of_a_kind(
    layout: LayoutModel,
    src: DeviceModel,
    resolved: Seq<Option<String>>,
    x: Seq<char>,
    n: nat,
)
    ensures
        others(paired(layout.parts(n), resolved), src).contains(x) <==> exists|k: int|
            #![trigger layout.members[k]]
            0 <= k < layout.members.len() && x == layout.part(layout.members[k], n)
                && !one_device(DeviceModel { path: x, resolved: text_at(resolved, k) }, src),
{
    let v = paired(layout.parts(n), resolved);
    mirrors_are_the_other_devices(v, src, x);
    if others(v, src).contains(x) {
        let i = choose|i: int|
            0 <= i < v.len() && #[trigger] v[i].path == x && !one_device(v[i], src);
        assert(v[i] == DeviceModel { path: x, resolved: text_at(resolved, i) });
        assert(layout.parts(n)[i] == layout.part(layout.members[i], n));
    }
    if exists|k: int|
        #![trigger layout.members[k]]
        0 <= k < layout.members.len() && x == layout.part(layout.members[k], n) && !one_device(
            DeviceModel { path: x, resolved: text_at(resolved, k) },
            src,
        ) {
        let k = choose|k: int|
            #![trigger layout.members[k]]
            0 <= k < layout.members.len() && x == layout.part(layout.members[k], n)
                && !one_device(DeviceModel { path: x, resolved: text_at(resolved, k) }, src);
        assert(layout.parts(n)[k] == layout.part(layout.members[k], n));
        assert(v[k].path == x);
        assert(v[k] == DeviceModel { path: x, resolved: text_at(resolved, k) });
    }
}

/// A drift is what a sync would change: it looks from the same source to the same mirror,
/// within the same bounds, and copies nothing. A sync does copy, and deletes what the
/// source does not have.
pub proof fn a_drift_is_a_sync_that_copies_nothing(
    src: Seq<char>,
    tmp: Seq<char>,
    one_fs: bool,
    verbose: bool,
)
    ensures
        ({
            let sync = rsync_words(src, tmp, one_fs, verbose);
            let look = drift_words(src, tmp, one_fs);
            let n = sync.len() as int;
            let m = look.len() as int;
            &&& sync[0] == "rsync"@ && look[0] == "rsync"@
            &&& sync[n - 2] == src + "/"@ && look[m - 2] == src + "/"@
            &&& sync[n - 1] == tmp + "/"@ && look[m - 1] == tmp + "/"@
            &&& sync.contains("--recursive"@) && look.contains("--recursive"@)
            &&& sync.contains("--delete"@) && look.contains("--delete"@)
            &&& sync.contains("--times"@)
            &&& look.contains("--dry-run"@) && !sync.subrange(1, n - 2).contains("--dry-run"@)
            &&& sync.subrange(1, n - 2).contains("--one-file-system"@) <==> one_fs
            &&& look.subrange(1, m - 2).contains("--one-file-system"@) <==> one_fs
        }),
{
    let sync = rsync_words(src, tmp, one_fs, verbose);
    let look = drift_words(src, tmp, one_fs);
    let n = sync.len() as int;
    let m = look.len() as int;
    reveal_strlit("--times");
    reveal_strlit("--recursive");
    reveal_strlit("--delete");
    reveal_strlit("--one-file-system");
    reveal_strlit("--itemize-changes");
    reveal_strlit("--dry-run");
    reveal_strlit("--out-format=%n");
    assert(sync[1] == "--times"@ && sync[2] == "--recursive"@ && sync[3] == "--delete"@);
    assert(look[1] == "--dry-run"@ && look[2] == "--itemize-changes"@ && look[3]
        == "--out-format=%n"@ && look[4] == "--recursive"@ && look[5] == "--delete"@);
    assert("--dry-run"@[2] == 'd' && "--dry-run"@.len() == 9);
    assert("--itemize-changes"@[2] == 'i' && "--one-file-system"@[2] == 'o');
    let a = sync.subrange(1, n - 2);
    let b = look.subrange(1, m - 2);
    if one_fs {
        assert(a[3] == "--one-file-system"@);
        assert(b[5] == "--one-file-system"@);
    }
    assert(a.len() <= 5 && b.len() <= 6);
    assert forall|i: int| 0 <= i < a.len() implies #[trigger] a[i] != "--dry-run"@ by {
        assert(i == 0 || i == 1 || i == 2 || i == 3 || i == 4);
        assert(a[i] == sync[i + 1]);
    }
    if !one_fs {
        assert forall|i: int| 0 <= i < a.len() implies #[trigger] a[i] != "--one-file-system"@ by {
            assert(i == 0 || i == 1 || i == 2 || i == 3);
            assert(a[i] == sync[i + 1]);
        }
        assert forall|i: int| 0 <= i < b.len() implies #[trigger] b[i] != "--one-file-system"@ by {
            assert(i == 0 || i == 1 || i == 2 || i == 3 || i == 4);
            assert(b[i] == look[i + 1]);
        }
    }
}

/// A mirror is mounted by its device where it was asked for, and so that nothing is written
/// to it where it is only looked at.
pub proof fn a_look_mounts_read_only(dev: Seq<char>, tmp: Seq<char>)
    ensures
        mount_words(dev, tmp, true) == seq!["mount"@, "-o"@, "ro"@, dev, tmp],
        mount_words(dev, tmp, false) == seq!["mount"@, dev, tmp],
{
    assert(mount_words(dev, tmp, true) =~= seq!["mount"@, "-o"@, "ro"@, dev, tmp]);
    assert(mount_words(dev, tmp, false) =~= seq!["mount"@, dev, tmp]);
}

} // verus!
