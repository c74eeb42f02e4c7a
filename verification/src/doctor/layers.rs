//! The checks of the crypt layer, the array, the bootloader, the initrd, the hooks and
//! the content of the mirrors.
use vstd::prelude::*;
use vstd::string::*;

use crate::config::Family;
use crate::doctor::check::{
    add_check, caution, checks, failure, no_checks, one_check, pass, Check, CheckModel, Fix,
};
use crate::doctor::probes::{among, is_among, Report};
use crate::efi::SHIM_FILE;
use crate::layout::{Layout, LayoutModel, BOOT_MD_DEVICE, ESP_MOUNT};
use crate::stack::{
    BOOT_MIRROR_HOOK_CONTENT, BOOT_MIRROR_HOOK_NAME, EFI_MIRROR_HOOK_NAME, EFI_MIRROR_WRAPPER,
    INITRAMFS_HOOK_RAIDEN, RAIDEN_RECOVERY_HOOK,
};
use crate::sync::{
    first_glob, first_named, initrd_listing, is_same_device, listing_of, one_device, opt_device,
    pair, paired, Device, DeviceModel, Listing,
};
use crate::text::{
    after_prefix, cmd, collected, contains, cut, dec, decimal, fields, flag_at, found, found_at,
    has_prefix, holds, join, joined, lines, nth_flag, nth_text, opt_text, pieces, push_text, same,
    split_fields, split_lines, starts_with, text_at, texts, trim, trimmed, ArgList, Sep,
};

verus! {

// ------------------------------------------------------------------ crypttab

/// How an optional text is shown in a message, quoted where there is one.
pub uninterp spec fn shown_option(s: Option<Seq<char>>) -> Seq<char>;

/// Formats an optional string with `{:?}`, through std's `Debug` for `Option` and
/// `String`. The result is a function of the value alone, by the name `shown_option`;
/// how it quotes and escapes is left unsaid.
#[verifier::external_body]
fn show_option(s: &Option<String>) -> (r: String)
    ensures
        r@ == shown_option(opt_text(*s)),
{
    format!("{s:?}")
}

/// The source of a line of crypttab that names the mapping, without "UUID=".
pub open spec fn line_source(line: Seq<char>, name: Seq<char>) -> Option<Seq<char>> {
    let f = fields(line);
    if f.len() > 0 && f[0] == name {
        Some(
            if f.len() < 2 {
                ""@
            } else if has_prefix(f[1], "UUID="@) {
                f[1].skip("UUID="@.len() as int)
            } else {
                f[1]
            },
        )
    } else {
        None
    }
}

/// The source that crypttab gives for the mapping.
pub fn crypttab_source(crypttab: &str, name: &str) -> (r: Option<String>)
    ensures
        opt_text(r) == found(lines(crypttab@), |l: Seq<char>| line_source(l, name@)),
{
    let all = split_lines(crypttab);
    let ghost ls = texts(all@);
    let ghost f = |l: Seq<char>| line_source(l, name@);
    let mut i: usize = 0;
    while i < all.len()
        invariant
            i <= all.len(),
            ls == texts(all@),
            ls == lines(crypttab@),
            f == (|l: Seq<char>| line_source(l, name@)),
            forall|k: int| 0 <= k < i ==> f(#[trigger] ls[k]) is None,
        decreases all.len() - i,
    {
        assert(ls[i as int] == all@[i as int]@);
        let w = split_fields(all[i].as_str());
        assert(texts(w@).len() == w@.len());
        if w.len() > 0 {
            assert(texts(w@)[0] == w@[0]@);
            if same(w[0].as_str(), name) {
                let source = if w.len() < 2 {
                    "".to_owned()
                } else {
                    assert(texts(w@)[1] == w@[1]@);
                    match after_prefix(w[1].as_str(), "UUID=") {
                        Some(u) => u,
                        None => w[1].clone(),
                    }
                };
                proof {
                    found_at(ls, f, i as int);
                }
                return Some(source);
            }
        }
        i += 1;
    }
    proof {
        found_at(ls, f, ls.len() as int);
    }
    None
}

/// Whether crypttab names the luks uuid of a member's root partition. `shown` is how
/// the uuid is shown where it does not.
pub open spec fn crypttab_verdict(
    name: Seq<char>,
    source: Option<Seq<char>>,
    uuid: Option<Seq<char>>,
    shown: Seq<char>,
) -> CheckModel {
    match source {
        Some(s) => if uuid == Some(s) {
            pass("crypttab"@, name + ": uuid matches"@)
        } else {
            caution("crypttab"@, name + ": crypttab "@ + s + " != disk "@ + shown).with_fix(
                Fix::Crypttab,
            )
        },
        None => failure("crypttab"@, "no entry for "@ + name).with_fix(Fix::Crypttab),
    }
}

/// Judges the source that crypttab gives for a mapping by the luks uuid on disk.
pub fn judge_crypttab(
    name: &str,
    source: &Option<String>,
    uuid: &Option<String>,
    shown: &str,
) -> (r: Check)
    ensures
        r@ == crypttab_verdict(name@, opt_text(*source), opt_text(*uuid), shown@),
{
    match source {
        Some(s) => {
            let matches = match uuid {
                Some(u) => same(u.as_str(), s.as_str()),
                None => false,
            };
            if matches {
                Check::ok("crypttab", name.to_owned().concat(": uuid matches").as_str())
            } else {
                Check::warn(
                    "crypttab",
                    name.to_owned().concat(": crypttab ").concat(s.as_str()).concat(
                        " != disk ",
                    ).concat(shown).as_str(),
                ).with_fix(Fix::Crypttab)
            }
        },
        None => Check::fail(
            "crypttab",
            "no entry for ".to_owned().concat(name).as_str(),
        ).with_fix(Fix::Crypttab),
    }
}

/// Whether crypttab names the luks uuid of a member's root partition.
pub open spec fn crypttab_check(
    name: Seq<char>,
    crypttab: Seq<char>,
    uuid: Option<Seq<char>>,
) -> CheckModel {
    crypttab_verdict(
        name,
        found(lines(crypttab), |l: Seq<char>| line_source(l, name)),
        uuid,
        shown_option(uuid),
    )
}

/// The crypttab entries of all members.
pub open spec fn crypttab_checks(
    layout: LayoutModel,
    crypttab: Seq<char>,
    uuids: Seq<Option<String>>,
) -> Seq<CheckModel> {
    Seq::new(
        layout.members.len(),
        |i: int|
            crypttab_check(layout.crypt_name(layout.members[i]), crypttab, text_at(uuids, i)),
    )
}

/// Each member's root partition has a crypttab entry that matches its luks uuid.
pub fn check_crypttab(layout: &Layout, crypttab: &str, uuids: &Vec<Option<String>>) -> (r: Vec<
    Check,
>)
    ensures
        checks(r@) == crypttab_checks(layout@, crypttab@, uuids@),
{
    let ghost want = crypttab_checks(layout@, crypttab@, uuids@);
    let mut out = no_checks();
    let mut i: usize = 0;
    while i < layout.members.len()
        invariant
            i <= layout.members.len(),
            want == crypttab_checks(layout@, crypttab@, uuids@),
            checks(out@) =~= want.take(i as int),
        decreases layout.members.len() - i,
    {
        let name = layout.crypt_name(layout.members[i].as_str());
        let uuid = nth_text(uuids, i);
        let source = crypttab_source(crypttab, name.as_str());
        let c = judge_crypttab(name.as_str(), &source, &uuid, show_option(&uuid).as_str());
        assert(want[i as int] == c@);
        add_check(&mut out, c);
        i += 1;
    }
    assert(want.take(want.len() as int) =~= want);
    out
}

// ---------------------------------------------------------------------- luks

/// What dumping a luks header gave.
pub enum Dump {
    Valid,
    /// The dump failed and printed this.
    Failed(String),
    /// The dump could not be started, for this reason.
    NotRun(String),
}

/// Whether a luks header is valid.
pub open spec fn luks_check(dev: Seq<char>, d: Dump) -> CheckModel {
    match d {
        Dump::Valid => pass("luks headers"@, dev + ": header valid"@),
        Dump::Failed(e) => failure("luks headers"@, dev + ": luksDump failed: "@ + trimmed(e@)),
        Dump::NotRun(e) => failure("luks headers"@, dev + ": "@ + e@),
    }
}

/// The luks headers of the members that were looked at.
pub open spec fn luks_checks(layout: LayoutModel, dumps: Seq<Dump>) -> Seq<CheckModel> {
    Seq::new(
        if layout.members.len() <= dumps.len() {
            layout.members.len()
        } else {
            dumps.len()
        },
        |i: int| luks_check(layout.part(layout.members[i], 3), dumps[i]),
    )
}

/// Each member's luks header is valid. One dump is looked at per member, in order.
pub fn check_luks_headers(layout: &Layout, dumps: &Vec<Dump>) -> (r: Vec<Check>)
    ensures
        checks(r@) == luks_checks(layout@, dumps@),
{
    let ghost want = luks_checks(layout@, dumps@);
    let mut out = no_checks();
    let mut i: usize = 0;
    while i < layout.members.len() && i < dumps.len()
        invariant
            i <= layout.members.len(),
            i <= dumps.len(),
            want == luks_checks(layout@, dumps@),
            checks(out@) =~= want.take(i as int),
        decreases layout.members.len() - i,
    {
        let dev = layout.part(layout.members[i].as_str(), 3);
        let c = match &dumps[i] {
            Dump::Valid => Check::ok("luks headers", dev.concat(": header valid").as_str()),
            Dump::Failed(e) => Check::fail(
                "luks headers",
                dev.concat(": luksDump failed: ").concat(trim(e.as_str()).as_str()).as_str(),
            ),
            Dump::NotRun(e) => Check::fail(
                "luks headers",
                dev.concat(": ").concat(e.as_str()).as_str(),
            ),
        };
        assert(want[i as int] == c@);
        add_check(&mut out, c);
        i += 1;
    }
    assert(want.take(want.len() as int) =~= want);
    out
}

/// The header backups that are missing.
pub open spec fn missing_backups(members: Seq<Seq<char>>, present: Seq<bool>) -> Seq<Seq<char>>
    decreases members.len(),
{
    if members.len() == 0 {
        Seq::empty()
    } else if flag_at(present, members.len() - 1) {
        missing_backups(members.drop_last(), present)
    } else {
        missing_backups(members.drop_last(), present).push(members.last() + "3-headers.bin"@)
    }
}

/// Whether each member's luks header is backed up.
pub open spec fn backup_check(layout: LayoutModel, present: Seq<bool>) -> CheckModel {
    let missing = missing_backups(layout.members, present);
    if missing.len() == 0 {
        pass("luks backup"@, dec(layout.members.len()) + " header backup(s) on /boot"@)
    } else {
        caution("luks backup"@, "missing: "@ + joined(missing, ", "@)).with_fix(Fix::LuksBackup)
    }
}

/// The paths of the header backups, one per member.
pub fn backup_paths(layout: &Layout) -> (r: Vec<String>)
    ensures
        texts(r@) == Seq::new(
            layout@.members.len(),
            |i: int| "/boot/luks/"@ + layout@.members[i] + "3-headers.bin"@,
        ),
{
    let ghost want = Seq::new(
        layout@.members.len(),
        |i: int| "/boot/luks/"@ + layout@.members[i] + "3-headers.bin"@,
    );
    let mut out: Vec<String> = Vec::new();
    let mut i: usize = 0;
    while i < layout.members.len()
        invariant
            i <= layout.members.len(),
            want == Seq::new(
                layout@.members.len(),
                |i: int| "/boot/luks/"@ + layout@.members[i] + "3-headers.bin"@,
            ),
            texts(out@) =~= want.take(i as int),
        decreases layout.members.len() - i,
    {
        let p = "/boot/luks/".to_owned().concat(layout.members[i].as_str()).concat(
            "3-headers.bin",
        );
        assert(want[i as int] == p@);
        push_text(&mut out, p.as_str());
        i += 1;
    }
    assert(want.take(want.len() as int) =~= want);
    out
}

/// Each member's luks header is backed up to /boot. Without a backup a corrupted
/// header cannot be restored.
pub fn check_luks_backup(layout: &Layout, present: &Vec<bool>) -> (r: Vec<Check>)
    ensures
        checks(r@) == seq![backup_check(layout@, present@)],
{
    let ghost m = layout@.members;
    let mut missing: Vec<String> = Vec::new();
    assert(texts(missing@) =~= Seq::<Seq<char>>::empty());
    let mut i: usize = 0;
    while i < layout.members.len()
        invariant
            i <= layout.members.len(),
            m == layout@.members,
            texts(missing@) == missing_backups(m.take(i as int), present@),
        decreases layout.members.len() - i,
    {
        assert(m.take(i + 1).drop_last() =~= m.take(i as int));
        assert(m.take(i + 1).last() == layout.members@[i as int]@);
        if !nth_flag(present, i) {
            push_text(&mut missing, layout.members[i].clone().concat("3-headers.bin").as_str());
        }
        i += 1;
    }
    assert(m.take(m.len() as int) =~= m);
    assert(texts(missing@).len() == missing@.len());
    assert(m.len() == layout.members@.len());
    one_check(
        if missing.len() == 0 {
            Check::ok(
                "luks backup",
                decimal(layout.members.len() as u64).concat(" header backup(s) on /boot").as_str(),
            )
        } else {
            Check::warn(
                "luks backup",
                "missing: ".to_owned().concat(join(&missing, ", ").as_str()).as_str(),
            ).with_fix(Fix::LuksBackup)
        },
    )
}

// --------------------------------------------------------------------- array

/// The state line of an md array's detail.
pub open spec fn state_line(line: Seq<char>) -> Option<Seq<char>> {
    if has_prefix(trimmed(line), "State :"@) {
        Some(trimmed(line))
    } else {
        None
    }
}

/// The first state line of an md array's detail.
pub open spec fn state_of(detail: Seq<char>) -> Seq<char> {
    match found(lines(detail), |l: Seq<char>| state_line(l)) {
        Some(s) => s,
        None => "state unknown"@,
    }
}

/// The first state line of an md array's detail.
pub fn first_state(md_detail: &str) -> (r: String)
    ensures
        r@ == state_of(md_detail@),
{
    let all = split_lines(md_detail);
    let ghost ls = texts(all@);
    let ghost f = |l: Seq<char>| state_line(l);
    let mut i: usize = 0;
    while i < all.len()
        invariant
            i <= all.len(),
            ls == texts(all@),
            ls == lines(md_detail@),
            f == (|l: Seq<char>| state_line(l)),
            forall|k: int| 0 <= k < i ==> f(#[trigger] ls[k]) is None,
        decreases all.len() - i,
    {
        assert(ls[i as int] == all@[i as int]@);
        let l = trim(all[i].as_str());
        if starts_with(l.as_str(), "State :") {
            proof {
                found_at(ls, f, i as int);
            }
            return l;
        }
        i += 1;
    }
    proof {
        found_at(ls, f, ls.len() as int);
    }
    "state unknown".to_owned()
}

/// Whether an md array is active and whole.
pub open spec fn array_check(
    name: Seq<char>,
    device: Seq<char>,
    expected: bool,
    detail: Report,
) -> CheckModel {
    if !expected {
        pass(name, "not used (independent boot)"@)
    } else {
        match detail {
            Report::Printed(text) => if holds(text@, "State : active"@) || holds(
                text@,
                "State : clean"@,
            ) {
                pass(name, device + ": active"@)
            } else if holds(text@, "degraded"@) {
                caution(name, device + ": degraded"@)
            } else {
                caution(name, device + ": "@ + state_of(text@))
            },
            Report::Failed => failure(name, device + ": mdadm --detail failed"@),
        }
    }
}

/// One md array is present, not failed, not degraded. An array that should not exist
/// (that of /boot, where /boot is independent) is not looked at.
pub fn md_check(name: &str, device: &str, expected: bool, detail: &Report) -> (r: Check)
    ensures
        r@ == array_check(name@, device@, expected, *detail),
{
    if !expected {
        return Check::ok(name, "not used (independent boot)");
    }
    let d = device.to_owned();
    match detail {
        Report::Printed(text) => {
            let t = text.as_str();
            if contains(t, "State : active") || contains(t, "State : clean") {
                Check::ok(name, d.concat(": active").as_str())
            } else if contains(t, "degraded") {
                Check::warn(name, d.concat(": degraded").as_str())
            } else {
                Check::warn(name, d.concat(": ").concat(first_state(t).as_str()).as_str())
            }
        },
        Report::Failed => Check::fail(name, d.concat(": mdadm --detail failed").as_str()),
    }
}

/// What the array's own tools say: of /boot's md array, and of the root's array, pool
/// or filesystem.
pub struct ArrayView {
    pub boot: Report,
    pub root: Report,
}

/// How many lines hold a marked error.
pub open spec fn error_lines(v: Seq<Seq<char>>) -> nat
    decreases v.len(),
{
    if v.len() == 0 {
        0
    } else {
        error_lines(v.drop_last()) + (if holds(v.last(), "[*]"@) {
            1nat
        } else {
            0nat
        })
    }
}

fn count_errors(text: &str) -> (r: usize)
    ensures
        r == error_lines(lines(text@)),
{
    let all = split_lines(text);
    let ghost ls = texts(all@);
    let mut n: usize = 0;
    let mut i: usize = 0;
    while i < all.len()
        invariant
            n <= i <= all.len(),
            ls == texts(all@),
            n == error_lines(ls.take(i as int)),
        decreases all.len() - i,
    {
        assert(ls.take(i + 1).drop_last() =~= ls.take(i as int));
        assert(ls.take(i + 1).last() == all@[i as int]@);
        if contains(all[i].as_str(), "[*]") {
            n += 1;
        }
        i += 1;
    }
    assert(ls.take(ls.len() as int) =~= ls);
    n
}

/// The health of the array: the md arrays, the zfs pool, or the device statistics.
pub open spec fn array_checks(
    layout: LayoutModel,
    family: Family,
    view: ArrayView,
) -> Seq<CheckModel> {
    match family {
        Family::Md => seq![
            array_check("md boot"@, BOOT_MD_DEVICE@, layout.boot_raid(), view.boot),
        ].push(array_check("md root"@, "/dev/md/root"@, true, view.root)),
        Family::Zfs => match view.root {
            Report::Printed(text) => if holds(text@, "DEGRADED"@) {
                seq![caution("zfs status"@, "pool degraded"@)]
            } else if holds(text@, "FAULTED"@) {
                seq![failure("zfs status"@, "pool has a faulted vdev"@)]
            } else {
                seq![pass("zfs status"@, "pool online"@)]
            },
            Report::Failed => seq![failure("zfs status"@, "zpool status failed"@)],
        },
        _ => match view.root {
            Report::Printed(text) => if error_lines(lines(text@)) == 0 {
                seq![pass("btrfs status"@, "no device errors"@)]
            } else {
                seq![
                    caution(
                        "btrfs status"@,
                        dec(error_lines(lines(text@))) + " device error(s)"@,
                    ),
                ]
            },
            Report::Failed => seq![
                caution("fs status"@, "could not read device stats (bcachefs?)"@),
            ],
        },
    }
}

/// The health of the array.
pub fn check_array_status(layout: &Layout, family: Family, view: &ArrayView) -> (r: Vec<Check>)
    ensures
        checks(r@) == array_checks(layout@, family, *view),
{
    match family {
        Family::Md => {
            let mut out = one_check(
                md_check("md boot", BOOT_MD_DEVICE, layout.boot_raid(), &view.boot),
            );
            add_check(&mut out, md_check("md root", "/dev/md/root", true, &view.root));
            out
        },
        Family::Zfs => one_check(
            match &view.root {
                Report::Printed(text) => if contains(text.as_str(), "DEGRADED") {
                    Check::warn("zfs status", "pool degraded")
                } else if contains(text.as_str(), "FAULTED") {
                    Check::fail("zfs status", "pool has a faulted vdev")
                } else {
                    Check::ok("zfs status", "pool online")
                },
                Report::Failed => Check::fail("zfs status", "zpool status failed"),
            },
        ),
        _ => one_check(
            match &view.root {
                Report::Printed(text) => {
                    let errors: usize = count_errors(text.as_str());
                    if errors == 0 {
                        Check::ok("btrfs status", "no device errors")
                    } else {
                        Check::warn(
                            "btrfs status",
                            decimal(errors as u64).concat(" device error(s)").as_str(),
                        )
                    }
                },
                Report::Failed => Check::warn(
                    "fs status",
                    "could not read device stats (bcachefs?)",
                ),
            },
        ),
    }
}

// ---------------------------------------------------------------- bootloader

/// Whether a device is a partition of the disk.
pub open spec fn is_part_of(layout: LayoutModel, disk: Seq<char>, dev: Seq<char>) -> bool {
    layout.part(disk, 1) == dev || layout.part(disk, 2) == dev || layout.part(disk, 3) == dev
}

/// The first disk that the device is a partition of.
pub open spec fn disk_of(layout: LayoutModel, disks: Seq<Seq<char>>, dev: Seq<char>) -> Seq<char>
    decreases disks.len(),
{
    if disks.len() == 0 {
        Seq::empty()
    } else if is_part_of(layout, disks[0], dev) {
        disks[0]
    } else {
        disk_of(layout, disks.skip(1), dev)
    }
}

/// The member disk of a partition; empty where it is none of theirs.
pub fn member_of(part_dev: &str, layout: &Layout) -> (r: String)
    ensures
        r@ == disk_of(layout@, layout@.members, part_dev@),
{
    let ghost m = layout@.members;
    let mut i: usize = 0;
    assert(m.skip(0) =~= m);
    while i < layout.members.len()
        invariant
            i <= layout.members.len(),
            m == layout@.members,
            disk_of(layout@, m, part_dev@) == disk_of(layout@, m.skip(i as int), part_dev@),
        decreases layout.members.len() - i,
    {
        let d = layout.members[i].as_str();
        assert(m.skip(i as int)[0] == d@);
        assert(m.skip(i as int).skip(1) =~= m.skip(i + 1));
        if same(layout.part(d, 1).as_str(), part_dev) || same(
            layout.part(d, 2).as_str(),
            part_dev,
        ) || same(layout.part(d, 3).as_str(), part_dev) {
            return layout.members[i].clone();
        }
        i += 1;
    }
    String::new()
}

/// Whether the bootloader of this esp is the one to look at: the live one, or the
/// primary where none of them is mounted.
pub open spec fn looked_at(
    layout: LayoutModel,
    mounted: Option<DeviceModel>,
    esps: Seq<DeviceModel>,
    i: int,
) -> bool {
    match mounted {
        Some(m) => if among(esps, m) {
            one_device(esps[i], m)
        } else {
            layout.esp_is_primary(disk_of(layout, layout.members, esps[i].path))
        },
        None => layout.esp_is_primary(disk_of(layout, layout.members, esps[i].path)),
    }
}

/// Whether grub is on an esp that is looked at.
pub open spec fn grub_check(dev: Seq<char>, here: bool, shim: bool) -> CheckModel {
    if !here {
        pass("grub"@, dev + ": mirror (cold)"@)
    } else if shim {
        pass("grub"@, dev + ": shimx64.efi present (live esp)"@)
    } else {
        failure(
            "grub"@,
            ESP_MOUNT@ + "/"@ + SHIM_FILE@ + " missing (grub-install?)"@,
        ).with_fix(Fix::GrubInstall)
    }
}

/// Whether grub-install ran: with efi the shim on the live esp, with bios the package.
pub open spec fn grub_checks(
    layout: LayoutModel,
    efi: bool,
    mounted: Option<DeviceModel>,
    leads: Seq<Option<String>>,
    shim: bool,
    grub_pc: Report,
) -> Seq<CheckModel> {
    if efi {
        let esps = paired(layout.esp_devices(), leads);
        Seq::new(
            esps.len(),
            |i: int| grub_check(esps[i].path, looked_at(layout, mounted, esps, i), shim),
        )
    } else {
        match grub_pc {
            Report::Printed(text) => if holds(text@, "install ok installed"@) {
                seq![pass("grub"@, "grub-pc installed"@)]
            } else {
                seq![failure("grub"@, "grub-pc not installed"@)]
            },
            Report::Failed => seq![failure("grub"@, "grub-pc not installed"@)],
        }
    }
}

/// grub-install ran. `mounted` is the device behind the mounted esp, `shim` whether
/// the shim is on it, `grub_pc` what the package database says of grub-pc.
pub fn check_grub(
    layout: &Layout,
    efi: bool,
    mounted: &Option<Device>,
    leads: &Vec<Option<String>>,
    shim: bool,
    grub_pc: &Report,
) -> (r: Vec<Check>)
    ensures
        checks(r@) == grub_checks(layout@, efi, opt_device(*mounted), leads@, shim, *grub_pc),
{
    if !efi {
        return one_check(
            match grub_pc {
                Report::Printed(text) => if contains(text.as_str(), "install ok installed") {
                    Check::ok("grub", "grub-pc installed")
                } else {
                    Check::fail("grub", "grub-pc not installed")
                },
                Report::Failed => Check::fail("grub", "grub-pc not installed"),
            },
        );
    }
    let paths = layout.esp_devices();
    let devs = pair(&paths, leads);
    let ghost esps = crate::sync::devices(devs@);
    let ghost want = grub_checks(layout@, efi, opt_device(*mounted), leads@, shim, *grub_pc);
    let any_live = match mounted {
        Some(m) => is_among(&paths, leads, m),
        None => false,
    };
    let mut out = no_checks();
    let mut i: usize = 0;
    while i < devs.len()
        invariant
            efi,
            i <= devs.len(),
            esps == crate::sync::devices(devs@),
            esps == paired(layout@.esp_devices(), leads@),
            want == grub_checks(layout@, efi, opt_device(*mounted), leads@, shim, *grub_pc),
            any_live == (*mounted is Some && among(esps, mounted->0@)),
            checks(out@) =~= want.take(i as int),
        decreases devs.len() - i,
    {
        assert(esps[i as int] == devs@[i as int]@);
        let dev = devs[i].path.as_str();
        let primary = layout.esp_is_primary(member_of(dev, layout).as_str());
        let here = match mounted {
            Some(m) => if any_live {
                is_same_device(&devs[i], m)
            } else {
                primary
            },
            None => primary,
        };
        let c = if !here {
            Check::ok("grub", dev.to_owned().concat(": mirror (cold)").as_str())
        } else if shim {
            Check::ok("grub", dev.to_owned().concat(": shimx64.efi present (live esp)").as_str())
        } else {
            Check::fail(
                "grub",
                ESP_MOUNT.to_owned().concat("/").concat(SHIM_FILE).concat(
                    " missing (grub-install?)",
                ).as_str(),
            ).with_fix(Fix::GrubInstall)
        };
        assert(want[i as int] == c@);
        add_check(&mut out, c);
        i += 1;
    }
    assert(want.take(want.len() as int) =~= want);
    out
}

// -------------------------------------------------------------------- initrd

/// Whether one of the listed files has this name, whatever its directory.
pub open spec fn lists_file(v: Seq<Seq<char>>, name: Seq<char>) -> bool {
    exists|i: int| 0 <= i < v.len() && pieces(#[trigger] v[i], Sep::Is('/')).last() == name
}

fn has_file(all: &Vec<String>, name: &str) -> (r: bool)
    ensures
        r == lists_file(texts(all@), name@),
{
    let ghost ls = texts(all@);
    let mut i: usize = 0;
    while i < all.len()
        invariant
            i <= all.len(),
            ls == texts(all@),
            forall|k: int| 0 <= k < i ==> pieces(#[trigger] ls[k], Sep::Is('/')).last() != name@,
        decreases all.len() - i,
    {
        assert(ls[i as int] == all@[i as int]@);
        let parts = cut(all[i].as_str(), Sep::Is('/'));
        assert(texts(parts@).len() == parts@.len());
        assert(texts(parts@).last() == parts@[parts@.len() - 1]@);
        if same(parts[parts.len() - 1].as_str(), name) {
            return true;
        }
        i += 1;
    }
    false
}

/// A required file, where the listing does not have it.
pub open spec fn absent_file(listing: Seq<char>, name: Seq<char>) -> Option<Seq<char>> {
    if lists_file(lines(listing), name) {
        None
    } else {
        Some(name)
    }
}

/// The required files that the listing does not have.
pub open spec fn absent_files(listing: Seq<char>, required: Seq<Seq<char>>) -> Seq<Seq<char>> {
    collected(required, |b: Seq<char>| absent_file(listing, b))
}

/// The required binaries that are absent from the listing of an initrd, matched by
/// their base name, so that `keyctl` and `decrypt_keyctl` are distinct.
pub fn missing_initrd_binaries(listing: &str, required: &Vec<String>) -> (r: Vec<String>)
    ensures
        texts(r@) == absent_files(listing@, texts(required@)),
{
    let all = split_lines(listing);
    let ghost m = texts(required@);
    let ghost f = |b: Seq<char>| absent_file(listing@, b);
    let mut out: Vec<String> = Vec::new();
    assert(texts(out@) =~= Seq::<Seq<char>>::empty());
    let mut i: usize = 0;
    while i < required.len()
        invariant
            i <= required.len(),
            texts(all@) == lines(listing@),
            m == texts(required@),
            f == (|b: Seq<char>| absent_file(listing@, b)),
            texts(out@) == collected(m.take(i as int), f),
        decreases required.len() - i,
    {
        assert(m.take(i + 1).drop_last() =~= m.take(i as int));
        assert(m.take(i + 1).last() == required@[i as int]@);
        if !has_file(&all, required[i].as_str()) {
            push_text(&mut out, required[i].as_str());
        }
        i += 1;
    }
    assert(m.take(m.len() as int) =~= m);
    out
}

/// What is seen of a hook script.
pub enum HookState {
    Missing,
    /// Its permission bits, and its text where it can be read.
    Installed(u32, Option<String>),
}

/// Whether a hook is installed, executable and current. A script that is not
/// executable is skipped by what runs it; a stale one can break upgrades.
pub open spec fn hook_check(
    name: Seq<char>,
    path: Seq<char>,
    expected: Seq<char>,
    fix: Fix,
    state: HookState,
) -> CheckModel {
    match state {
        HookState::Missing => caution(name, path + " missing"@).with_fix(fix),
        HookState::Installed(mode, content) => if mode & 0o111 == 0 {
            caution(name, path + " not executable (run-parts would skip it)"@).with_fix(fix)
        } else {
            match opt_text(content) {
                Some(c) => if c == expected {
                    pass(name, path + " present, executable, current"@)
                } else {
                    caution(
                        name,
                        path + " out of date (content differs from this raiden)"@,
                    ).with_fix(fix)
                },
                None => caution(name, path + " unreadable"@).with_fix(fix),
            }
        },
    }
}

/// A hook must exist, be executable, and carry the current text. All else is repaired
/// by installing it again.
pub fn check_executable_hook(
    name: &str,
    path: &str,
    expected: &str,
    fix: Fix,
    state: &HookState,
) -> (r: Check)
    ensures
        r@ == hook_check(name@, path@, expected@, fix, *state),
{
    let p = path.to_owned();
    match state {
        HookState::Missing => Check::warn(name, p.concat(" missing").as_str()).with_fix(fix),
        HookState::Installed(mode, content) => {
            if *mode & 0o111 == 0 {
                return Check::warn(
                    name,
                    p.concat(" not executable (run-parts would skip it)").as_str(),
                ).with_fix(fix);
            }
            match content {
                Some(c) => if same(c.as_str(), expected) {
                    Check::ok(name, p.concat(" present, executable, current").as_str())
                } else {
                    Check::warn(
                        name,
                        p.concat(" out of date (content differs from this raiden)").as_str(),
                    ).with_fix(fix)
                },
                None => Check::warn(name, p.concat(" unreadable").as_str()).with_fix(fix),
            }
        },
    }
}

/// The installed path of the esp-mirror grub.d hook.
pub open spec fn efi_hook_text() -> Seq<char> {
    "/etc/grub.d/"@ + EFI_MIRROR_HOOK_NAME@
}

/// The installed path of the esp-mirror grub.d hook.
pub fn efi_hook_path() -> (r: String)
    ensures
        r@ == efi_hook_text(),
{
    "/etc/grub.d/".to_owned().concat(EFI_MIRROR_HOOK_NAME)
}

/// The installed path of the boot-mirror kernel hook in a hook directory.
pub open spec fn hook_text(dir: Seq<char>) -> Seq<char> {
    "/etc/kernel/"@ + dir + "/"@ + BOOT_MIRROR_HOOK_NAME@
}

/// The installed path of the boot-mirror kernel hook in a hook directory.
pub fn hook_path(dir: &str) -> (r: String)
    ensures
        r@ == hook_text(dir@),
{
    "/etc/kernel/".to_owned().concat(dir).concat("/").concat(BOOT_MIRROR_HOOK_NAME)
}

/// Both boot-mirror kernel hooks.
pub open spec fn kernel_hook_checks(postinst: HookState, postrm: HookState) -> Seq<CheckModel> {
    seq![
        hook_check(
            "kernel hooks"@,
            hook_text("postinst.d"@),
            BOOT_MIRROR_HOOK_CONTENT@,
            Fix::BootHook("postinst.d"),
            postinst,
        ),
    ].push(
        hook_check(
            "kernel hooks"@,
            hook_text("postrm.d"@),
            BOOT_MIRROR_HOOK_CONTENT@,
            Fix::BootHook("postrm.d"),
            postrm,
        ),
    )
}

/// The boot-mirror kernel hooks are installed, executable and current.
pub fn check_kernel_hooks(postinst: &HookState, postrm: &HookState) -> (r: Vec<Check>)
    ensures
        checks(r@) == kernel_hook_checks(*postinst, *postrm),
{
    let mut out = one_check(
        check_executable_hook(
            "kernel hooks",
            hook_path("postinst.d").as_str(),
            BOOT_MIRROR_HOOK_CONTENT,
            Fix::BootHook("postinst.d"),
            postinst,
        ),
    );
    add_check(
        &mut out,
        check_executable_hook(
            "kernel hooks",
            hook_path("postrm.d").as_str(),
            BOOT_MIRROR_HOOK_CONTENT,
            Fix::BootHook("postrm.d"),
            postrm,
        ),
    );
    out
}

/// The esp-mirror grub.d hook is installed, executable and current.
pub fn check_efi_hook(state: &HookState) -> (r: Vec<Check>)
    ensures
        checks(r@) == seq![
            hook_check(
                "esp hook"@,
                efi_hook_text(),
                EFI_MIRROR_WRAPPER@,
                Fix::EfiHook,
                *state,
            ),
        ],
{
    one_check(
        check_executable_hook(
            "esp hook",
            efi_hook_path().as_str(),
            EFI_MIRROR_WRAPPER,
            Fix::EfiHook,
            state,
        ),
    )
}

/// Whether the initrd carries what is needed to unlock and mount the root.
pub open spec fn binaries_check(
    initrd: Seq<char>,
    listing: Seq<char>,
    required: Seq<Seq<char>>,
) -> CheckModel {
    let missing = absent_files(listing, required);
    if missing.len() == 0 {
        pass("initrd"@, initrd + ": carries the boot/recovery binaries"@)
    } else {
        caution("initrd"@, initrd + ": missing "@ + joined(missing, ", "@)).with_fix(Fix::Initrd)
    }
}

/// Whether the initrd carries the recovery tool and the manifest.
pub open spec fn bundle_check(listing: Seq<char>) -> CheckModel {
    let missing = absent_files(listing, seq!["raiden"@].push("manifest.toml"@));
    if missing.len() == 0 {
        pass("recover"@, "raiden + manifest baked into the initrd"@)
    } else {
        caution(
            "recover"@,
            "initrd missing "@ + joined(missing, ", "@),
        ).with_fix(Fix::RecoverBundle)
    }
}

/// What the initrd carries and, where recovery from it is enabled, the hook that bakes
/// the recovery tool into it.
pub open spec fn initrd_checks(
    required: Seq<Seq<char>>,
    entries: Seq<Seq<char>>,
    listing: Listing,
    recover_bundle: bool,
    hook: HookState,
) -> Seq<CheckModel> {
    match first_named(entries, "initrd.img-"@) {
        None => seq![failure("initrd"@, "no initrd.img-* on /boot"@)],
        Some(n) => {
            let initrd = "/boot"@ + "/"@ + n;
            match listing_of(initrd, listing) {
                Err(e) => seq![caution("initrd"@, e)],
                Ok(files) => if recover_bundle {
                    seq![binaries_check(initrd, files, required)].push(
                        hook_check(
                            "recover hook"@,
                            RAIDEN_RECOVERY_HOOK@,
                            INITRAMFS_HOOK_RAIDEN@,
                            Fix::RecoverBundle,
                            hook,
                        ),
                    ).push(bundle_check(files))
                } else {
                    seq![binaries_check(initrd, files, required)]
                },
            }
        },
    }
}

/// The initrd carries the binaries needed to unlock and mount (or recover) the root
/// and, where recovery is enabled, the recovery tool and the manifest. `entries` are
/// the names on /boot, `listing` that of the first initrd.
pub fn check_initrd(
    required: &Vec<String>,
    entries: &Vec<String>,
    listing: &Listing,
    recover_bundle: bool,
    hook: &HookState,
) -> (r: Vec<Check>)
    ensures
        checks(r@) == initrd_checks(
            texts(required@),
            texts(entries@),
            *listing,
            recover_bundle,
            *hook,
        ),
{
    let initrd = match first_glob("/boot", entries, "initrd.img-") {
        Some(p) => p,
        None => {
            return one_check(Check::fail("initrd", "no initrd.img-* on /boot"));
        },
    };
    let files = match initrd_listing(initrd.as_str(), listing) {
        Ok(f) => f,
        Err(e) => {
            return one_check(Check::warn("initrd", e.as_str()));
        },
    };
    let missing = missing_initrd_binaries(files.as_str(), required);
    assert(texts(missing@).len() == missing@.len());
    let mut out = one_check(
        if missing.len() == 0 {
            Check::ok(
                "initrd",
                initrd.concat(": carries the boot/recovery binaries").as_str(),
            )
        } else {
            Check::warn(
                "initrd",
                initrd.concat(": missing ").concat(join(&missing, ", ").as_str()).as_str(),
            ).with_fix(Fix::Initrd)
        },
    );
    if recover_bundle {
        add_check(
            &mut out,
            check_executable_hook(
                "recover hook",
                RAIDEN_RECOVERY_HOOK,
                INITRAMFS_HOOK_RAIDEN,
                Fix::RecoverBundle,
                hook,
            ),
        );
        let bundle = cmd("raiden").arg("manifest.toml");
        let miss = missing_initrd_binaries(files.as_str(), &bundle);
        assert(texts(miss@).len() == miss@.len());
        add_check(
            &mut out,
            if miss.len() == 0 {
                Check::ok("recover", "raiden + manifest baked into the initrd")
            } else {
                Check::warn(
                    "recover",
                    "initrd missing ".to_owned().concat(join(&miss, ", ").as_str()).as_str(),
                ).with_fix(Fix::RecoverBundle)
            },
        );
    }
    out
}

// ------------------------------------------------------------------- mirrors

/// How one mirror compares with the live source.
pub enum Drift {
    /// Its device is gone.
    Absent,
    /// So many paths differ.
    Changed(u64),
    /// It could not be compared, for this reason.
    Failed(String),
}

/// What is said of a mirror that is not in sync.
pub open spec fn drift_line(dev: Seq<char>, d: Drift) -> Option<Seq<char>> {
    match d {
        Drift::Absent => None,
        Drift::Changed(n) => if n == 0 {
            None
        } else {
            Some(dev + ": "@ + dec(n as nat) + " changed"@)
        },
        Drift::Failed(e) => Some(dev + ": could not compare ("@ + e@ + ")"@),
    }
}

/// What is said of the mirrors that are not in sync.
pub open spec fn drift_lines(mirrors: Seq<Seq<char>>, found: Seq<Drift>) -> Seq<Seq<char>>
    decreases mirrors.len(),
{
    if mirrors.len() == 0 {
        Seq::empty()
    } else {
        let before = drift_lines(mirrors.drop_last(), found);
        let i = mirrors.len() - 1;
        if i < found.len() && drift_line(mirrors[i], found[i]) is Some {
            before.push(drift_line(mirrors[i], found[i])->0)
        } else {
            before
        }
    }
}

/// Whether the mirrors are in sync. One caution covers all that are not.
pub open spec fn drift_check(
    name: Seq<char>,
    mirrors: Seq<Seq<char>>,
    found: Seq<Drift>,
    fix: Fix,
) -> CheckModel {
    let off = drift_lines(mirrors, found);
    if off.len() == 0 {
        pass(name, dec(mirrors.len()) + " mirror(s) in sync"@)
    } else {
        caution(name, joined(off, "; "@)).with_fix(fix)
    }
}

/// Whether the mirrors are in sync with the live source.
pub fn drift_checks(name: &str, mirrors: &Vec<String>, found: &Vec<Drift>, fix: Fix) -> (r: Check)
    ensures
        r@ == drift_check(name@, texts(mirrors@), found@, fix),
{
    let ghost m = texts(mirrors@);
    let mut off: Vec<String> = Vec::new();
    assert(texts(off@) =~= Seq::<Seq<char>>::empty());
    let mut i: usize = 0;
    while i < mirrors.len()
        invariant
            i <= mirrors.len(),
            m == texts(mirrors@),
            texts(off@) == drift_lines(m.take(i as int), found@),
        decreases mirrors.len() - i,
    {
        assert(m.take(i + 1).drop_last() =~= m.take(i as int));
        assert(m.take(i + 1)[i as int] == mirrors@[i as int]@);
        if i < found.len() {
            let dev = mirrors[i].clone();
            match &found[i] {
                Drift::Absent => {},
                Drift::Changed(n) => {
                    if *n != 0 {
                        push_text(
                            &mut off,
                            dev.concat(": ").concat(decimal(*n).as_str()).concat(
                                " changed",
                            ).as_str(),
                        );
                    }
                },
                Drift::Failed(e) => {
                    push_text(
                        &mut off,
                        dev.concat(": could not compare (").concat(e.as_str()).concat(
                            ")",
                        ).as_str(),
                    );
                },
            }
        }
        i += 1;
    }
    assert(m.take(m.len() as int) =~= m);
    assert(texts(off@).len() == off@.len());
    assert(m.len() == mirrors@.len());
    if off.len() == 0 {
        Check::ok(name, decimal(mirrors.len() as u64).concat(" mirror(s) in sync").as_str())
    } else {
        Check::warn(name, join(&off, "; ").as_str()).with_fix(fix)
    }
}

/// Whether the /boot mirrors are in sync, where /boot is mounted.
pub fn check_boot_drift(mounted: bool, mirrors: &Vec<String>, found: &Vec<Drift>) -> (r: Vec<
    Check,
>)
    ensures
        checks(r@) == seq![
            (if mounted {
                drift_check("boot drift"@, texts(mirrors@), found@, Fix::SyncBoot)
            } else {
                pass("boot drift"@, "/boot not mounted, skipped"@)
            }),
        ],
{
    one_check(
        if mounted {
            drift_checks("boot drift", mirrors, found, Fix::SyncBoot)
        } else {
            Check::ok("boot drift", "/boot not mounted, skipped")
        },
    )
}

/// Whether the esp mirrors are in sync, where the esp is mounted.
pub fn check_esp_drift(mounted: bool, mirrors: &Vec<String>, found: &Vec<Drift>) -> (r: Vec<Check>)
    ensures
        checks(r@) == seq![
            (if mounted {
                drift_check("esp drift"@, texts(mirrors@), found@, Fix::SyncEfi)
            } else {
                pass("esp drift"@, ESP_MOUNT@ + " not mounted, skipped"@)
            }),
        ],
{
    one_check(
        if mounted {
            drift_checks("esp drift", mirrors, found, Fix::SyncEfi)
        } else {
            Check::ok("esp drift", ESP_MOUNT.to_owned().concat(" not mounted, skipped").as_str())
        },
    )
}

/// What verifying one member's own bootloader gave.
pub enum Verified {
    /// Its device is gone.
    Absent,
    /// It could not be mounted, for this reason.
    Unmountable(String),
    /// It was verified.
    Done(Result<(), Vec<String>>),
}

/// What is said of a member that does not carry its own bootloader.
pub open spec fn bootloader_line(dev: Seq<char>, v: Verified) -> Option<Seq<char>> {
    match v {
        Verified::Absent => None,
        Verified::Unmountable(e) => Some(dev + ": cannot mount ("@ + e@ + ")"@),
        Verified::Done(Ok(())) => None,
        Verified::Done(Err(fails)) => Some(dev + ": "@ + joined(texts(fails@), ", "@)),
    }
}

/// What is said of the members that do not carry their own bootloader.
pub open spec fn bootloader_lines(devs: Seq<Seq<char>>, found: Seq<Verified>) -> Seq<Seq<char>>
    decreases devs.len(),
{
    if devs.len() == 0 {
        Seq::empty()
    } else {
        let before = bootloader_lines(devs.drop_last(), found);
        let i = devs.len() - 1;
        if i < found.len() && bootloader_line(devs[i], found[i]) is Some {
            before.push(bootloader_line(devs[i], found[i])->0)
        } else {
            before
        }
    }
}

/// How many of the first `n` members are there.
pub open spec fn members_present(found: Seq<Verified>, n: nat) -> nat
    decreases n,
{
    if n == 0 {
        0
    } else {
        members_present(found, (n - 1) as nat) + (if n - 1 < found.len() && !(found[n - 1]
            is Absent) {
            1nat
        } else {
            0nat
        })
    }
}

/// Whether every member that is there can boot on its own.
pub open spec fn bootloader_check(
    name: Seq<char>,
    devs: Seq<Seq<char>>,
    found: Seq<Verified>,
    fix: Fix,
) -> CheckModel {
    let bad = bootloader_lines(devs, found);
    if bad.len() > 0 {
        caution(name, joined(bad, "; "@)).with_fix(fix)
    } else if members_present(found, devs.len()) == 0 {
        pass(name, "no member partitions present to check"@)
    } else {
        pass(name, dec(members_present(found, devs.len())) + " member(s) carry the bootloader"@)
    }
}

/// Every member partition of a set can boot on its own. Under shared uuids the mount
/// can land on any of them, so each must carry its own bootloader.
pub fn bootloader_set_check(
    name: &str,
    devs: &Vec<String>,
    found: &Vec<Verified>,
    fix: Fix,
) -> (r: Check)
    ensures
        r@ == bootloader_check(name@, texts(devs@), found@, fix),
{
    let ghost m = texts(devs@);
    let mut bad: Vec<String> = Vec::new();
    assert(texts(bad@) =~= Seq::<Seq<char>>::empty());
    let mut present: usize = 0;
    let mut i: usize = 0;
    while i < devs.len()
        invariant
            present <= i <= devs.len(),
            m == texts(devs@),
            texts(bad@) == bootloader_lines(m.take(i as int), found@),
            present == members_present(found@, i as nat),
        decreases devs.len() - i,
    {
        assert(m.take(i + 1).drop_last() =~= m.take(i as int));
        assert(m.take(i + 1)[i as int] == devs@[i as int]@);
        if i < found.len() {
            let dev = devs[i].clone();
            match &found[i] {
                Verified::Absent => {},
                Verified::Unmountable(e) => {
                    present += 1;
                    push_text(
                        &mut bad,
                        dev.concat(": cannot mount (").concat(e.as_str()).concat(")").as_str(),
                    );
                },
                Verified::Done(res) => {
                    present += 1;
                    match res {
                        Ok(()) => {},
                        Err(fails) => {
                            push_text(
                                &mut bad,
                                dev.concat(": ").concat(join(fails, ", ").as_str()).as_str(),
                            );
                        },
                    }
                },
            }
        }
        i += 1;
    }
    assert(m.take(m.len() as int) =~= m);
    assert(m.len() == devs@.len());
    assert(texts(bad@).len() == bad@.len());
    if bad.len() > 0 {
        Check::warn(name, join(&bad, "; ").as_str()).with_fix(fix)
    } else if present == 0 {
        Check::ok(name, "no member partitions present to check")
    } else {
        Check::ok(
            name,
            decimal(present as u64).concat(" member(s) carry the bootloader").as_str(),
        )
    }
}

/// Every member esp carries the bootloader.
pub fn check_esp_bootloader(layout: &Layout, found: &Vec<Verified>) -> (r: Vec<Check>)
    ensures
        checks(r@) == seq![
            bootloader_check("esp bootloader"@, layout@.esp_devices(), found@, Fix::SyncEfi),
        ],
{
    one_check(
        bootloader_set_check("esp bootloader", &layout.esp_devices(), found, Fix::SyncEfi),
    )
}

/// Every member /boot carries grub.cfg, a kernel, and an initrd that can unlock.
pub fn check_boot_bootloader(layout: &Layout, found: &Vec<Verified>) -> (r: Vec<Check>)
    ensures
        checks(r@) == seq![
            bootloader_check("boot bootloader"@, layout@.boot_devices(), found@, Fix::SyncBoot),
        ],
{
    one_check(
        bootloader_set_check("boot bootloader", &layout.boot_devices(), found, Fix::SyncBoot),
    )
}

/// The install manifest exists and parses; `error` says why it does not.
pub fn check_manifest(error: &Option<String>) -> (r: Vec<Check>)
    ensures
        checks(r@) == seq![
            (match opt_text(*error) {
                Some(e) => failure("manifest"@, "cannot load: "@ + e),
                None => pass("manifest"@, "loads and parses"@),
            }),
        ],
{
    one_check(
        match error {
            Some(e) => Check::fail(
                "manifest",
                "cannot load: ".to_owned().concat(e.as_str()).as_str(),
            ),
            None => Check::ok("manifest", "loads and parses"),
        },
    )
}

} // verus!
