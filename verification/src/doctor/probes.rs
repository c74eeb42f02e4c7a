//! The checks of the disks, the mounts, the crypt layer, the array and the mirrors.
//! Each judges what was observed; an observation that is missing counts as absent.
use vstd::prelude::*;
use vstd::string::*;

use crate::doctor::check::{
    add_check, caution, checks, failure, no_checks, one_check, pass, Check, CheckModel, Fix,
    UuidKind,
};
use crate::layout::{Layout, LayoutModel, ESP_MOUNT};
use crate::sync::{is_same_device, one_device, opt_device, pair, paired, Device, DeviceModel};
use crate::text::{
    after_prefix, collected, dec, decimal, fields, flag_at, found, found_at, has_prefix, join,
    joined, lines, nth_flag, nth_text, opt_text, push_text, same, split_fields, split_lines,
    text_at, texts,
};

verus! {

/// What a command printed, where it succeeded.
pub enum Report {
    Printed(String),
    Failed,
}

// ------------------------------------------------------------------ presence

/// Whether a device is there.
pub open spec fn presence(name: Seq<char>, dev: Seq<char>, there: bool) -> CheckModel {
    if there {
        pass(name, dev + " present"@)
    } else {
        failure(name, dev + " missing"@)
    }
}

/// Whether each of the devices is there.
pub open spec fn presences(
    name: Seq<char>,
    devs: Seq<Seq<char>>,
    present: Seq<bool>,
) -> Seq<CheckModel> {
    Seq::new(devs.len(), |i: int| presence(name, devs[i], flag_at(present, i)))
}

fn check_presences(name: &str, devs: &Vec<String>, present: &Vec<bool>) -> (r: Vec<Check>)
    ensures
        checks(r@) == presences(name@, texts(devs@), present@),
{
    let ghost want = presences(name@, texts(devs@), present@);
    let mut out = no_checks();
    let mut i: usize = 0;
    while i < devs.len()
        invariant
            i <= devs.len(),
            want == presences(name@, texts(devs@), present@),
            checks(out@) =~= want.take(i as int),
        decreases devs.len() - i,
    {
        let c = if nth_flag(present, i) {
            Check::ok(name, devs[i].clone().concat(" present").as_str())
        } else {
            Check::fail(name, devs[i].clone().concat(" missing").as_str())
        };
        assert(want[i as int] == c@);
        add_check(&mut out, c);
        i += 1;
    }
    assert(want.take(want.len() as int) =~= want);
    out
}

/// The device nodes of the member disks.
pub open spec fn disk_nodes(layout: LayoutModel) -> Seq<Seq<char>> {
    Seq::new(layout.members.len(), |i: int| "/dev/"@ + layout.members[i])
}

/// The device nodes of the member disks.
pub fn member_nodes(layout: &Layout) -> (r: Vec<String>)
    ensures
        texts(r@) == disk_nodes(layout@),
{
    let ghost want = disk_nodes(layout@);
    let mut out: Vec<String> = Vec::new();
    let mut i: usize = 0;
    while i < layout.members.len()
        invariant
            i <= layout.members.len(),
            want == disk_nodes(layout@),
            texts(out@) =~= want.take(i as int),
        decreases layout.members.len() - i,
    {
        push_text(&mut out, "/dev/".to_owned().concat(layout.members[i].as_str()).as_str());
        assert(want[i as int] == "/dev/"@ + layout.members@[i as int]@);
        i += 1;
    }
    assert(want.take(want.len() as int) =~= want);
    out
}

/// Each member disk exists as a device node.
pub fn check_disk_presence(layout: &Layout, present: &Vec<bool>) -> (r: Vec<Check>)
    ensures
        checks(r@) == presences("disk presence"@, disk_nodes(layout@), present@),
{
    check_presences("disk presence", &member_nodes(layout), present)
}

/// Each mirror's boot device, where /boot is independent.
pub open spec fn boot_mirror_checks(layout: LayoutModel, present: Seq<bool>) -> Seq<CheckModel> {
    if layout.boot_raid() {
        seq![pass("boot mirrors"@, "n/a (md raid1 /boot)"@)]
    } else {
        presences("boot mirrors"@, layout.boot_devices(), present)
    }
}

/// Each mirror's boot device exists, where /boot is independent.
pub fn check_boot_mirrors(layout: &Layout, present: &Vec<bool>) -> (r: Vec<Check>)
    ensures
        checks(r@) == boot_mirror_checks(layout@, present@),
{
    if layout.boot_raid() {
        one_check(Check::ok("boot mirrors", "n/a (md raid1 /boot)"))
    } else {
        check_presences("boot mirrors", &layout.boot_devices(), present)
    }
}

/// Each mirror esp exists.
pub fn check_esp_mirrors(layout: &Layout, present: &Vec<bool>) -> (r: Vec<Check>)
    ensures
        checks(r@) == presences("esp mirrors"@, layout@.esp_devices(), present@),
{
    check_presences("esp mirrors", &layout.esp_devices(), present)
}

// -------------------------------------------------------------------- mounts

/// Whether one of the devices is this one.
pub open spec fn among(v: Seq<DeviceModel>, d: DeviceModel) -> bool {
    exists|i: int| 0 <= i < v.len() && one_device(#[trigger] v[i], d)
}

/// Whether one of the devices at these paths is this one.
pub fn is_among(paths: &Vec<String>, leads: &Vec<Option<String>>, d: &Device) -> (r: bool)
    ensures
        r == among(paired(texts(paths@), leads@), d@),
{
    let v = pair(paths, leads);
    let ghost m = paired(texts(paths@), leads@);
    let mut i: usize = 0;
    while i < v.len()
        invariant
            i <= v.len(),
            m == paired(texts(paths@), leads@),
            m == crate::sync::devices(v@),
            forall|k: int| 0 <= k < i ==> !one_device(#[trigger] m[k], d@),
        decreases v.len() - i,
    {
        assert(m[i as int] == v@[i as int]@);
        if is_same_device(&v[i], d) {
            return true;
        }
        i += 1;
    }
    false
}

/// Whether /boot is mounted, and from a configured boot device.
pub open spec fn boot_mount_check(
    layout: LayoutModel,
    src: Option<DeviceModel>,
    leads: Seq<Option<String>>,
) -> CheckModel {
    match src {
        Some(s) => if among(paired(layout.boot_devices(), leads), s) {
            pass("boot mount"@, "/boot mounted from "@ + s.path)
        } else {
            caution(
                "boot mount"@,
                "/boot mounted from "@ + s.path + ", not a configured boot device"@,
            )
        },
        None => failure("boot mount"@, "/boot is not mounted"@),
    }
}

/// /boot is mounted, and from a configured boot device.
pub fn check_boot_mount(
    layout: &Layout,
    src: &Option<Device>,
    leads: &Vec<Option<String>>,
) -> (r: Vec<Check>)
    ensures
        checks(r@) == seq![boot_mount_check(layout@, opt_device(*src), leads@)],
{
    one_check(
        match src {
            Some(s) => {
                let from = "/boot mounted from ".to_owned().concat(s.path.as_str());
                if is_among(&layout.boot_devices(), leads, s) {
                    Check::ok("boot mount", from.as_str())
                } else {
                    Check::warn(
                        "boot mount",
                        from.concat(", not a configured boot device").as_str(),
                    )
                }
            },
            None => Check::fail("boot mount", "/boot is not mounted"),
        },
    )
}

/// Whether the esp is mounted.
pub open spec fn esp_mount_check(src: Option<DeviceModel>) -> CheckModel {
    match src {
        Some(s) => pass("esp mount"@, ESP_MOUNT@ + " mounted from "@ + s.path),
        None => failure("esp mount"@, ESP_MOUNT@ + " is not mounted"@),
    }
}

/// The esp is mounted.
pub fn check_esp_mount(src: &Option<Device>) -> (r: Vec<Check>)
    ensures
        checks(r@) == seq![esp_mount_check(opt_device(*src))],
{
    one_check(
        match src {
            Some(s) => Check::ok(
                "esp mount",
                ESP_MOUNT.to_owned().concat(" mounted from ").concat(s.path.as_str()).as_str(),
            ),
            None => Check::fail(
                "esp mount",
                ESP_MOUNT.to_owned().concat(" is not mounted").as_str(),
            ),
        },
    )
}

/// Whether one disk holds both the mounted /boot and the mounted esp.
pub open spec fn on_one_disk(
    esps: Seq<DeviceModel>,
    boots: Seq<DeviceModel>,
    boot: DeviceModel,
    esp: DeviceModel,
) -> bool {
    exists|i: int|
        0 <= i < boots.len() && i < esps.len() && one_device(#[trigger] boots[i], boot)
            && one_device(esps[i], esp)
}

/// Where /boot and the esp are mounted from. Different disks are in order: both mount
/// by a shared uuid, so any survivor can serve either.
pub open spec fn consistency_checks(
    layout: LayoutModel,
    boot: Option<DeviceModel>,
    esp: Option<DeviceModel>,
    boot_leads: Seq<Option<String>>,
    esp_leads: Seq<Option<String>>,
) -> Seq<CheckModel> {
    match (boot, esp) {
        (Some(b), Some(e)) => if on_one_disk(
            paired(layout.esp_devices(), esp_leads),
            paired(layout.boot_devices(), boot_leads),
            b,
            e,
        ) {
            seq![
                pass(
                    "mount consistency"@,
                    "/boot and "@ + ESP_MOUNT@ + " on the same disk ("@ + b.path + ")"@,
                ),
            ]
        } else {
            seq![
                pass(
                    "mount consistency"@,
                    "/boot on "@ + b.path + ", "@ + ESP_MOUNT@ + " on "@ + e.path,
                ),
            ]
        },
        _ => Seq::empty(),
    }
}

/// Notes where /boot and the esp are mounted from.
pub fn check_mount_consistency(
    layout: &Layout,
    boot: &Option<Device>,
    esp: &Option<Device>,
    boot_leads: &Vec<Option<String>>,
    esp_leads: &Vec<Option<String>>,
) -> (r: Vec<Check>)
    ensures
        checks(r@) == consistency_checks(
            layout@,
            opt_device(*boot),
            opt_device(*esp),
            boot_leads@,
            esp_leads@,
        ),
{
    let (b, e) = match (boot, esp) {
        (Some(b), Some(e)) => (b, e),
        _ => {
            return no_checks();
        },
    };
    let boots = pair(&layout.boot_devices(), boot_leads);
    let esps = pair(&layout.esp_devices(), esp_leads);
    let ghost bm = crate::sync::devices(boots@);
    let ghost em = crate::sync::devices(esps@);
    let mut together = false;
    let mut i: usize = 0;
    while i < boots.len() && i < esps.len()
        invariant
            i <= boots.len(),
            i <= esps.len(),
            bm == crate::sync::devices(boots@),
            em == crate::sync::devices(esps@),
            together ==> on_one_disk(em, bm, b@, e@),
            !together ==> forall|k: int|
                0 <= k < i ==> !(one_device(#[trigger] bm[k], b@) && one_device(em[k], e@)),
        decreases boots.len() - i,
    {
        assert(bm[i as int] == boots@[i as int]@);
        assert(em[i as int] == esps@[i as int]@);
        if is_same_device(&boots[i], b) && is_same_device(&esps[i], e) {
            together = true;
        }
        i += 1;
    }
    assert(together == on_one_disk(em, bm, b@, e@));
    one_check(
        if together {
            Check::ok(
                "mount consistency",
                "/boot and ".to_owned().concat(ESP_MOUNT).concat(" on the same disk (").concat(
                    b.path.as_str(),
                ).concat(")").as_str(),
            )
        } else {
            Check::ok(
                "mount consistency",
                "/boot on ".to_owned().concat(b.path.as_str()).concat(", ").concat(
                    ESP_MOUNT,
                ).concat(" on ").concat(e.path.as_str()).as_str(),
            )
        },
    )
}

// --------------------------------------------------------------------- fstab

/// The uuid that a line of fstab mounts at a mount point.
pub open spec fn line_uuid(line: Seq<char>, mount: Seq<char>) -> Option<Seq<char>> {
    let f = fields(line);
    if f.len() > 1 && f[1] == mount && has_prefix(f[0], "UUID="@) {
        Some(f[0].skip("UUID="@.len() as int))
    } else {
        None
    }
}

/// The uuid of the first entry of fstab for a mount point.
pub open spec fn mount_uuid(fstab: Option<Seq<char>>, mount: Seq<char>) -> Option<Seq<char>> {
    match fstab {
        Some(text) => found(lines(text), |l: Seq<char>| line_uuid(l, mount)),
        None => None,
    }
}

/// The uuid of the first entry of fstab for a mount point.
pub fn fstab_uuid(fstab: &Option<String>, mount: &str) -> (r: Option<String>)
    ensures
        opt_text(r) == mount_uuid(opt_text(*fstab), mount@),
{
    let text = match fstab {
        Some(t) => t,
        None => {
            return None;
        },
    };
    let all = split_lines(text.as_str());
    let ghost ls = texts(all@);
    let ghost f = |l: Seq<char>| line_uuid(l, mount@);
    let mut i: usize = 0;
    while i < all.len()
        invariant
            i <= all.len(),
            *fstab == Some(*text),
            ls == lines(text@),
            ls == texts(all@),
            f == (|l: Seq<char>| line_uuid(l, mount@)),
            forall|k: int| 0 <= k < i ==> f(#[trigger] ls[k]) is None,
        decreases all.len() - i,
    {
        assert(ls[i as int] == all@[i as int]@);
        let w = split_fields(all[i].as_str());
        assert(texts(w@).len() == w@.len());
        if w.len() > 1 {
            assert(texts(w@)[0] == w@[0]@ && texts(w@)[1] == w@[1]@);
            if same(w[1].as_str(), mount) {
                match after_prefix(w[0].as_str(), "UUID=") {
                    Some(u) => {
                        proof {
                            found_at(ls, f, i as int);
                        }
                        return Some(u);
                    },
                    None => {},
                }
            }
        }
        i += 1;
    }
    proof {
        found_at(ls, f, ls.len() as int);
    }
    None
}

/// Whether fstab has an entry for a mount point.
pub open spec fn fstab_check(fstab: Option<Seq<char>>, mount: Seq<char>) -> CheckModel {
    if mount_uuid(fstab, mount) is Some {
        pass("fstab"@, mount + " entry present"@)
    } else {
        failure("fstab"@, "no "@ + mount + " entry in /etc/fstab"@).with_fix(Fix::Fstab)
    }
}

fn check_fstab_entry(fstab: &Option<String>, mount: &str) -> (r: Check)
    ensures
        r@ == fstab_check(opt_text(*fstab), mount@),
{
    if fstab_uuid(fstab, mount).is_some() {
        Check::ok("fstab", mount.to_owned().concat(" entry present").as_str())
    } else {
        Check::fail(
            "fstab",
            "no ".to_owned().concat(mount).concat(" entry in /etc/fstab").as_str(),
        ).with_fix(Fix::Fstab)
    }
}

/// The entries of /boot and, with efi, of the esp.
pub open spec fn fstab_checks(fstab: Option<Seq<char>>, efi: bool) -> Seq<CheckModel> {
    if efi {
        seq![fstab_check(fstab, "/boot"@)].push(fstab_check(fstab, ESP_MOUNT@))
    } else {
        seq![fstab_check(fstab, "/boot"@)]
    }
}

/// The entries of /boot and, with efi, of the esp exist and name a uuid.
pub fn check_fstab(fstab: &Option<String>, efi: bool) -> (r: Vec<Check>)
    ensures
        checks(r@) == fstab_checks(opt_text(*fstab), efi),
{
    let mut out = one_check(check_fstab_entry(fstab, "/boot"));
    if efi {
        add_check(&mut out, check_fstab_entry(fstab, ESP_MOUNT));
    }
    out
}

// --------------------------------------------------------------------- uuids

/// The contents of a list of devices and their uuids.
pub open spec fn pairs(v: Seq<(String, String)>) -> Seq<(Seq<char>, Seq<char>)> {
    v.map_values(|p: (String, String)| (p.0@, p.1@))
}

/// A device whose uuid is not the expected one, and that uuid.
pub open spec fn divergence(p: (Seq<char>, Seq<char>), expected: Seq<char>) -> Option<Seq<char>> {
    if p.1 != expected {
        Some(p.0 + "="@ + p.1)
    } else {
        None
    }
}

/// The devices whose uuid is not the expected one.
pub open spec fn divergences(
    present: Seq<(Seq<char>, Seq<char>)>,
    expected: Seq<char>,
) -> Seq<Seq<char>> {
    collected(present, |p: (Seq<char>, Seq<char>)| divergence(p, expected))
}

/// The "dev=uuid" of every member whose uuid is not the expected one.
pub fn uuid_divergences(present: &[(String, String)], expected: &str) -> (r: Vec<String>)
    ensures
        texts(r@) == divergences(pairs(present@), expected@),
{
    let ghost m = pairs(present@);
    let ghost f = |p: (Seq<char>, Seq<char>)| divergence(p, expected@);
    let mut out: Vec<String> = Vec::new();
    assert(texts(out@) =~= Seq::<Seq<char>>::empty());
    let mut i: usize = 0;
    while i < present.len()
        invariant
            i <= present.len(),
            m == pairs(present@),
            f == (|p: (Seq<char>, Seq<char>)| divergence(p, expected@)),
            texts(out@) == collected(m.take(i as int), f),
        decreases present.len() - i,
    {
        assert(m.take(i + 1).drop_last() =~= m.take(i as int));
        assert(m.take(i + 1).last() == (present@[i as int].0@, present@[i as int].1@));
        let p = &present[i];
        if !same(p.1.as_str(), expected) {
            push_text(&mut out, p.0.clone().concat("=").concat(p.1.as_str()).as_str());
        }
        i += 1;
    }
    assert(m.take(m.len() as int) =~= m);
    out
}

/// No member diverges exactly where all of them have the expected uuid.
pub proof fn no_divergence_means_one_uuid(
    present: Seq<(Seq<char>, Seq<char>)>,
    expected: Seq<char>,
)
    ensures
        divergences(present, expected).len() == 0 <==> forall|i: int|
            0 <= i < present.len() ==> (#[trigger] present[i]).1 == expected,
    decreases present.len(),
{
    if present.len() > 0 {
        let rest = present.drop_last();
        no_divergence_means_one_uuid(rest, expected);
        assert(present.last() == present[present.len() - 1]);
        if forall|i: int| 0 <= i < present.len() ==> (#[trigger] present[i]).1 == expected {
            assert forall|i: int| 0 <= i < rest.len() implies (#[trigger] rest[i]).1 == expected by {
                assert(present[i].1 == expected);
            }
        }
        if divergences(rest, expected).len() == 0 && present.last().1 == expected {
            assert forall|i: int| 0 <= i < present.len() implies (#[trigger] present[i]).1
                == expected by {
                if i < rest.len() {
                    assert(rest[i].1 == expected);
                }
            }
        }
    }
}

/// Whether the present members share one uuid: the expected one, or that of the first.
pub open spec fn uuid_result(
    name: Seq<char>,
    kind: UuidKind,
    present: Seq<(Seq<char>, Seq<char>)>,
    expected: Option<Seq<char>>,
) -> CheckModel {
    if present.len() < 2 {
        pass(name, dec(present.len()) + " device(s) with a uuid; nothing to compare"@)
    } else {
        let want = match expected {
            Some(u) => u,
            None => present[0].1,
        };
        let off = divergences(present, want);
        if off.len() == 0 {
            pass(name, dec(present.len()) + " members share "@ + want)
        } else {
            caution(
                name,
                "not shared (expected "@ + want + "): "@ + joined(off, ", "@),
            ).with_fix(Fix::RestampUuid(kind))
        }
    }
}

/// Decides from the collected uuids: every present member must share one, the expected
/// one where it is known. Fewer than two members leave nothing to compare.
pub fn uuid_set_result(
    name: &str,
    kind: UuidKind,
    present: &[(String, String)],
    expected: Option<&str>,
) -> (r: Check)
    ensures
        r@ == uuid_result(
            name@,
            kind,
            pairs(present@),
            match expected {
                Some(u) => Some(u@),
                None => None,
            },
        ),
{
    assert(pairs(present@).len() == present@.len());
    let count = decimal(present.len() as u64);
    if present.len() < 2 {
        return Check::ok(
            name,
            count.concat(" device(s) with a uuid; nothing to compare").as_str(),
        );
    }
    assert(pairs(present@)[0].1 == present@[0].1@);
    let want = match expected {
        Some(u) => u.to_owned(),
        None => present[0].1.clone(),
    };
    let off = uuid_divergences(present, want.as_str());
    assert(texts(off@).len() == off@.len());
    if off.len() == 0 {
        Check::ok(name, count.concat(" members share ").concat(want.as_str()).as_str())
    } else {
        Check::warn(
            name,
            "not shared (expected ".to_owned().concat(want.as_str()).concat("): ").concat(
                join(&off, ", ").as_str(),
            ).as_str(),
        ).with_fix(Fix::RestampUuid(kind))
    }
}

/// The devices that have a uuid, each with its own.
pub open spec fn with_uuid(
    devs: Seq<Seq<char>>,
    uuids: Seq<Option<String>>,
) -> Seq<(Seq<char>, Seq<char>)>
    decreases devs.len(),
{
    if devs.len() == 0 {
        Seq::empty()
    } else {
        let before = with_uuid(devs.drop_last(), uuids);
        match text_at(uuids, devs.len() - 1) {
            Some(u) => before.push((devs.last(), u)),
            None => before,
        }
    }
}

/// Whether a set of members shares one uuid. The expected one is that of fstab, or
/// else that of the first member with one.
pub open spec fn uuid_check(
    name: Seq<char>,
    kind: UuidKind,
    devs: Seq<Seq<char>>,
    uuids: Seq<Option<String>>,
    listed: Option<Seq<char>>,
) -> CheckModel {
    uuid_result(name, kind, with_uuid(devs, uuids), listed)
}

fn uuid_set_check(
    name: &str,
    kind: UuidKind,
    devs: &Vec<String>,
    uuids: &Vec<Option<String>>,
    listed: &Option<String>,
) -> (r: Check)
    ensures
        r@ == uuid_check(name@, kind, texts(devs@), uuids@, opt_text(*listed)),
{
    let ghost m = texts(devs@);
    let mut present: Vec<(String, String)> = Vec::new();
    assert(pairs(present@) =~= Seq::<(Seq<char>, Seq<char>)>::empty());
    let mut i: usize = 0;
    while i < devs.len()
        invariant
            i <= devs.len(),
            m == texts(devs@),
            pairs(present@) == with_uuid(m.take(i as int), uuids@),
        decreases devs.len() - i,
    {
        assert(m.take(i + 1).drop_last() =~= m.take(i as int));
        assert(m.take(i + 1).last() == devs@[i as int]@);
        match nth_text(uuids, i) {
            Some(u) => {
                let ghost before = present@;
                let d = devs[i].clone();
                present.push((d, u));
                assert(pairs(present@) =~= pairs(before).push((d@, u@)));
            },
            None => {},
        }
        i += 1;
    }
    assert(m.take(m.len() as int) =~= m);
    let expected = match listed {
        Some(u) => Some(u.as_str()),
        None => None,
    };
    uuid_set_result(name, kind, present.as_slice(), expected)
}

/// The shared-uuid invariant behind mounting /boot and the esp from any survivor.
pub open spec fn uuid_checks(
    layout: LayoutModel,
    efi: bool,
    fstab: Option<Seq<char>>,
    boot_uuids: Seq<Option<String>>,
    esp_uuids: Seq<Option<String>>,
) -> Seq<CheckModel> {
    let none = Seq::<CheckModel>::empty();
    let boot = if layout.boot_raid() {
        none
    } else {
        none.push(
            uuid_check(
                "boot uuid"@,
                UuidKind::Boot,
                layout.boot_devices(),
                boot_uuids,
                mount_uuid(fstab, "/boot"@),
            ),
        )
    };
    if efi {
        boot.push(
            uuid_check(
                "esp uuid"@,
                UuidKind::Esp,
                layout.esp_devices(),
                esp_uuids,
                mount_uuid(fstab, ESP_MOUNT@),
            ),
        )
    } else {
        boot
    }
}

/// Every member's /boot carries one uuid and, with efi, every member's esp another,
/// matching fstab. A member that differs cannot serve the mount when the primary is
/// lost.
pub fn check_uuid_sharing(
    layout: &Layout,
    efi: bool,
    fstab: &Option<String>,
    boot_uuids: &Vec<Option<String>>,
    esp_uuids: &Vec<Option<String>>,
) -> (r: Vec<Check>)
    ensures
        checks(r@) == uuid_checks(layout@, efi, opt_text(*fstab), boot_uuids@, esp_uuids@),
{
    let mut out = no_checks();
    if !layout.boot_raid() {
        add_check(
            &mut out,
            uuid_set_check(
                "boot uuid",
                UuidKind::Boot,
                &layout.boot_devices(),
                boot_uuids,
                &fstab_uuid(fstab, "/boot"),
            ),
        );
    }
    if efi {
        add_check(
            &mut out,
            uuid_set_check(
                "esp uuid",
                UuidKind::Esp,
                &layout.esp_devices(),
                esp_uuids,
                &fstab_uuid(fstab, ESP_MOUNT),
            ),
        );
    }
    out
}

} // verus!
