//! What the verdicts of the checks mean: a diagnosis passes exactly where the observed
//! system is healthy, and fails exactly where it cannot be relied upon to boot.
use vstd::prelude::*;
use vstd::string::*;

use crate::config::{ConfigModel, Family};
use crate::doctor::check::{any_status, CheckModel, Fix, Status, UuidKind};
use crate::doctor::layers::{
    absent_file, absent_files, array_checks, backup_check, bootloader_line, bootloader_lines,
    crypttab_check, crypttab_checks, disk_of, drift_line, drift_lines, efi_hook_text, error_lines,
    grub_checks, hook_check, hook_text, initrd_checks, line_source, lists_file, looked_at,
    luks_checks, missing_backups, ArrayView, Drift, Dump, HookState, Verified,
};
use crate::doctor::nvram::{
    debconf_check, entry_count, entry_problem, entry_problems, guid_at, line_value, lines_entries,
    mismatch, mismatches, nvram_check, EntryModel, EspId,
};
use crate::doctor::probes::{
    among, consistency_checks, disk_nodes, divergence, fstab_checks, line_uuid, mount_uuid,
    presence, presences, uuid_check, with_uuid, Report,
};
use crate::doctor::{
    array_family, boot_diagnosis, diagnosis, layer_diagnosis, mount_diagnosis, Observed,
};
use crate::efi::debconf_keys;
use crate::layout::LayoutModel;
use crate::stack::{
    BOOT_MIRROR_HOOK_CONTENT, EFI_MIRROR_WRAPPER, INITRAMFS_HOOK_RAIDEN, RAIDEN_RECOVERY_HOOK,
    Stack,
};
use crate::sync::{first_named, mirrors_of, one_device, opt_device, paired, DeviceModel, Listing};
use crate::text::{
    collected, fields, flag_at, found, has_prefix, holds, lines, opt_text, pieces, text_at, texts,
    Sep,
};

verus! {

// -------------------------------------------------------------- all checks

/// Whether every check has the property.
pub open spec fn all_checks(v: Seq<CheckModel>, p: spec_fn(CheckModel) -> bool) -> bool {
    forall|i: int| 0 <= i < v.len() ==> p(#[trigger] v[i])
}

pub broadcast proof fn all_of_none(p: spec_fn(CheckModel) -> bool)
    ensures
        #[trigger] all_checks(Seq::<CheckModel>::empty(), p),
{
}

pub broadcast proof fn all_of_one(c: CheckModel, p: spec_fn(CheckModel) -> bool)
    ensures
        #[trigger] all_checks(seq![c], p) == p(c),
{
    assert(seq![c][0] == c);
}

pub broadcast proof fn all_of_push(v: Seq<CheckModel>, c: CheckModel, p: spec_fn(CheckModel) -> bool)
    ensures
        #[trigger] all_checks(v.push(c), p) == (all_checks(v, p) && p(c)),
{
    let w = v.push(c);
    if all_checks(w, p) {
        assert(w[v.len() as int] == c);
        assert forall|i: int| 0 <= i < v.len() implies p(#[trigger] v[i]) by {
            assert(w[i] == v[i]);
        }
    }
}

pub broadcast proof fn all_of_both(
    a: Seq<CheckModel>,
    b: Seq<CheckModel>,
    p: spec_fn(CheckModel) -> bool,
)
    ensures
        #[trigger] all_checks(a + b, p) == (all_checks(a, p) && all_checks(b, p)),
{
    let w = a + b;
    if all_checks(w, p) {
        assert forall|i: int| 0 <= i < a.len() implies p(#[trigger] a[i]) by {
            assert(w[i] == a[i]);
        }
        assert forall|i: int| 0 <= i < b.len() implies p(#[trigger] b[i]) by {
            assert(w[a.len() + i] == b[i]);
        }
    }
}

pub broadcast group group_all_checks {
    all_of_none,
    all_of_one,
    all_of_push,
    all_of_both,
}

/// That a check passed.
pub open spec fn passes() -> spec_fn(CheckModel) -> bool {
    |c: CheckModel| c.status == Status::Pass || c.status == Status::Fixed
}

/// That a check did not fail: it may have warned.
pub open spec fn endures() -> spec_fn(CheckModel) -> bool {
    |c: CheckModel| c.status != Status::Fail
}

// ------------------------------------------------------------------- texts

proof fn found_means<A>(v: Seq<A>, f: spec_fn(A) -> Option<Seq<char>>) -> (k: int)
    ensures
        0 <= k <= v.len(),
        forall|j: int| 0 <= j < k ==> f(#[trigger] v[j]) is None,
        k < v.len() ==> f(v[k]) is Some && found(v, f) == f(v[k]),
        k == v.len() ==> found(v, f) is None,
    decreases v.len(),
{
    if v.len() == 0 {
        0
    } else if f(v[0]) is Some {
        0
    } else {
        let k = found_means(v.skip(1), f);
        assert forall|j: int| 0 <= j < k + 1 implies f(#[trigger] v[j]) is None by {
            if j > 0 {
                assert(v.skip(1)[j - 1] == v[j]);
            }
        }
        k + 1
    }
}

proof fn nothing_is_collected<A>(v: Seq<A>, f: spec_fn(A) -> Option<Seq<char>>)
    ensures
        collected(v, f).len() == 0 <==> forall|i: int| 0 <= i < v.len() ==> f(#[trigger] v[i])
            is None,
    decreases v.len(),
{
    if v.len() > 0 {
        let rest = v.drop_last();
        nothing_is_collected(rest, f);
        if collected(v, f).len() == 0 {
            assert forall|i: int| 0 <= i < v.len() implies f(#[trigger] v[i]) is None by {
                if i < rest.len() {
                    assert(rest[i] == v[i]);
                }
            }
        } else if forall|i: int| 0 <= i < v.len() ==> f(#[trigger] v[i]) is None {
            assert(f(v[v.len() - 1]) is None);
            assert forall|i: int| 0 <= i < rest.len() implies f(#[trigger] rest[i]) is None by {
                assert(rest[i] == v[i]);
            }
        }
    }
}

// ------------------------------------------------------------------ mounts

/// Whether fstab mounts something at the point by its uuid.
pub open spec fn mounted_by_uuid(fstab: Option<String>, point: Seq<char>) -> bool {
    fstab is Some && exists|k: int|
        0 <= k < lines(fstab->0@).len() && entry_by_uuid(#[trigger] lines(fstab->0@)[k], point)
}

/// Whether a line of fstab mounts something at the point by its uuid.
pub open spec fn entry_by_uuid(line: Seq<char>, point: Seq<char>) -> bool {
    let f = fields(line);
    f.len() > 1 && f[1] == point && has_prefix(f[0], "UUID="@)
}

proof fn fstab_entries(fstab: Option<String>, point: Seq<char>)
    ensures
        mount_uuid(opt_text(fstab), point) is Some <==> mounted_by_uuid(fstab, point),
{
    if fstab is Some {
        let ls = lines(fstab->0@);
        let f = |l: Seq<char>| line_uuid(l, point);
        let k = found_means(ls, f);
        if k < ls.len() {
            assert(entry_by_uuid(ls[k], point));
        } else {
            assert forall|j: int| 0 <= j < ls.len() implies !entry_by_uuid(
                #[trigger] ls[j],
                point,
            ) by {
                assert(f(ls[j]) is None);
            }
        }
    }
}

/// Whether the uuids that are known of the devices are one, and where two are known
/// also that of the fstab entry, where it gives one.
pub open spec fn one_uuid(uuids: Seq<Option<String>>, n: nat, listed: Option<Seq<char>>) -> bool {
    &&& forall|i: int, j: int|
        0 <= i < n && 0 <= j < n && (#[trigger] text_at(uuids, i)) is Some && (#[trigger] text_at(
            uuids,
            j,
        )) is Some ==> text_at(uuids, i) == text_at(uuids, j)
    &&& forall|i: int, j: int|
        0 <= i < j < n && (#[trigger] text_at(uuids, i)) is Some && (#[trigger] text_at(uuids, j))
            is Some && listed is Some ==> text_at(uuids, i) == listed
}

proof fn known_uuids(devs: Seq<Seq<char>>, uuids: Seq<Option<String>>, k: int) -> (i: int)
    requires
        0 <= k < with_uuid(devs, uuids).len(),
    ensures
        0 <= k <= i < devs.len(),
        text_at(uuids, i) == Some(with_uuid(devs, uuids)[k].1),
        k + 1 < with_uuid(devs, uuids).len() ==> i + 1 < devs.len(),
    decreases devs.len(),
{
    let before = with_uuid(devs.drop_last(), uuids);
    if k < before.len() {
        known_uuids(devs.drop_last(), uuids, k)
    } else {
        known_count(devs.drop_last(), uuids);
        devs.len() - 1
    }
}

proof fn known_count(devs: Seq<Seq<char>>, uuids: Seq<Option<String>>)
    ensures
        with_uuid(devs, uuids).len() <= devs.len(),
    decreases devs.len(),
{
    if devs.len() > 0 {
        known_count(devs.drop_last(), uuids);
    }
}

proof fn uuid_is_known(devs: Seq<Seq<char>>, uuids: Seq<Option<String>>, i: int) -> (k: int)
    requires
        0 <= i < devs.len(),
        text_at(uuids, i) is Some,
    ensures
        0 <= k < with_uuid(devs, uuids).len(),
        with_uuid(devs, uuids)[k].1 == text_at(uuids, i)->0,
        k == known_before(devs, uuids, i),
    decreases devs.len(),
{
    let rest = devs.drop_last();
    if i < devs.len() - 1 {
        let k = uuid_is_known(rest, uuids, i);
        assert(devs.take(i) =~= rest.take(i));
        k
    } else {
        assert(devs.take(i) =~= rest);
        with_uuid(rest, uuids).len() as int
    }
}

spec fn known_before(devs: Seq<Seq<char>>, uuids: Seq<Option<String>>, i: int) -> int {
    with_uuid(devs.take(i), uuids).len() as int
}

proof fn known_grows(devs: Seq<Seq<char>>, uuids: Seq<Option<String>>, i: int, j: int)
    requires
        0 <= i < j <= devs.len(),
        text_at(uuids, i) is Some,
    ensures
        known_before(devs, uuids, i) < known_before(devs, uuids, j),
    decreases j,
{
    let d = devs.take(j);
    assert(d.drop_last() =~= devs.take(j - 1));
    if i < j - 1 {
        known_grows(devs, uuids, i, j - 1);
    }
}

proof fn shared_uuids(
    name: Seq<char>,
    kind: UuidKind,
    devs: Seq<Seq<char>>,
    uuids: Seq<Option<String>>,
    listed: Option<Seq<char>>,
)
    ensures
        passes()(uuid_check(name, kind, devs, uuids, listed)) <==> one_uuid(
            uuids,
            devs.len(),
            listed,
        ),
        endures()(uuid_check(name, kind, devs, uuids, listed)),
{
    let v = with_uuid(devs, uuids);
    let n = devs.len();
    let want = match listed {
        Some(u) => u,
        None => v[0].1,
    };
    let f = |p: (Seq<char>, Seq<char>)| divergence(p, want);
    nothing_is_collected(v, f);
    let ok = passes()(uuid_check(name, kind, devs, uuids, listed));
    if v.len() >= 2 {
        assert(ok <==> collected(v, f).len() == 0);
        if ok {
            assert forall|i: int| 0 <= i < n && (#[trigger] text_at(uuids, i)) is Some implies
                text_at(uuids, i) == Some(want) by {
                let k = uuid_is_known(devs, uuids, i);
                assert(f(v[k]) is None);
            }
        } else if one_uuid(uuids, n, listed) {
            let a = known_uuids(devs, uuids, 0);
            let b = known_uuids(devs, uuids, 1);
            assert forall|k: int| 0 <= k < v.len() implies f(#[trigger] v[k]) is None by {
                let i = known_uuids(devs, uuids, k);
                two_are_apart(devs, uuids);
                let (x, y) = choose|x: int, y: int|
                    0 <= x < y < n && (#[trigger] text_at(uuids, x)) is Some && (
                    #[trigger] text_at(uuids, y)) is Some;
                assert(text_at(uuids, x) == text_at(uuids, i));
                assert(text_at(uuids, a) == text_at(uuids, i));
            }
        }
    } else {
        assert forall|i: int, j: int|
            0 <= i < n && 0 <= j < n && (#[trigger] text_at(uuids, i)) is Some && (
            #[trigger] text_at(uuids, j)) is Some implies text_at(uuids, i) == text_at(
            uuids,
            j,
        ) by {
            let a = uuid_is_known(devs, uuids, i);
            let b = uuid_is_known(devs, uuids, j);
        }
        assert forall|i: int, j: int|
            0 <= i < j < n && (#[trigger] text_at(uuids, i)) is Some && (#[trigger] text_at(
                uuids,
                j,
            )) is Some && listed is Some implies text_at(uuids, i) == listed by {
            let a = uuid_is_known(devs, uuids, i);
            let b = uuid_is_known(devs, uuids, j);
            known_grows(devs, uuids, i, j);
        }
    }
}

proof fn two_are_apart(devs: Seq<Seq<char>>, uuids: Seq<Option<String>>)
    requires
        with_uuid(devs, uuids).len() >= 2,
    ensures
        exists|x: int, y: int|
            0 <= x < y < devs.len() && (#[trigger] text_at(uuids, x)) is Some && (
            #[trigger] text_at(uuids, y)) is Some,
    decreases devs.len(),
{
    let rest = devs.drop_last();
    if with_uuid(rest, uuids).len() >= 2 {
        two_are_apart(rest, uuids);
        let (x, y) = choose|x: int, y: int|
            0 <= x < y < rest.len() && (#[trigger] text_at(uuids, x)) is Some && (
            #[trigger] text_at(uuids, y)) is Some;
        assert(text_at(uuids, x) is Some && text_at(uuids, y) is Some);
    } else {
        let x = known_uuids(rest, uuids, 0);
        assert(text_at(uuids, x) is Some && text_at(uuids, devs.len() - 1) is Some);
    }
}

/// Whether every one of the first `n` flags is set.
pub open spec fn all_set(v: Seq<bool>, n: nat) -> bool {
    n <= v.len() && forall|i: int| 0 <= i < n ==> #[trigger] v[i]
}

proof fn all_present(name: Seq<char>, devs: Seq<Seq<char>>, present: Seq<bool>)
    ensures
        all_checks(presences(name, devs, present), passes()) <==> all_set(present, devs.len()),
        all_checks(presences(name, devs, present), endures()) <==> all_set(present, devs.len()),
{
    let v = presences(name, devs, present);
    if all_set(present, devs.len()) {
        assert forall|i: int| 0 <= i < v.len() implies passes()(#[trigger] v[i]) && endures()(
            v[i],
        ) by {
            assert(present[i]);
        }
    } else if all_checks(v, passes()) || all_checks(v, endures()) {
        if devs.len() > present.len() {
            assert(passes()(v[present.len() as int]) || endures()(v[present.len() as int]));
            assert(!flag_at(present, present.len() as int));
        } else {
            let i = choose|i: int| 0 <= i < devs.len() && !(#[trigger] present[i]);
            assert(passes()(v[i]) || endures()(v[i]));
        }
    }
}

/// Whether a mounted device is one of the devices.
pub open spec fn comes_from(
    src: DeviceModel,
    devs: Seq<Seq<char>>,
    leads: Seq<Option<String>>,
) -> bool {
    exists|i: int| 0 <= i < devs.len() && is_at(src, #[trigger] devs[i], text_at(leads, i))
}

/// Whether a mounted device is the one at a path: both lead to one node, or, where that
/// cannot be told, the paths are one.
pub open spec fn is_at(src: DeviceModel, path: Seq<char>, lead: Option<Seq<char>>) -> bool {
    if lead is Some && src.resolved is Some {
        lead == src.resolved
    } else {
        path == src.path
    }
}

proof fn among_means(src: DeviceModel, devs: Seq<Seq<char>>, leads: Seq<Option<String>>)
    ensures
        among(paired(devs, leads), src) <==> comes_from(src, devs, leads),
{
    let v = paired(devs, leads);
    if among(v, src) {
        let i = choose|i: int| 0 <= i < v.len() && one_device(#[trigger] v[i], src);
        assert(is_at(src, devs[i], text_at(leads, i)));
    }
    if comes_from(src, devs, leads) {
        let i = choose|i: int|
            0 <= i < devs.len() && is_at(src, #[trigger] devs[i], text_at(leads, i));
        assert(one_device(v[i], src));
    }
}

/// Whether the disks are there, and /boot and the esp mounted and findable by uuid.
pub open spec fn mounts_healthy(cfg: ConfigModel, layout: LayoutModel, o: Observed) -> bool {
    let efi = cfg.install.boot_mode == "efi"@;
    let listed = |point: Seq<char>| mount_uuid(opt_text(o.fstab), point);
    &&& all_set(o.disks@, layout.members.len())
    &&& o.live.boot.src is Some
    &&& comes_from(o.live.boot.src->0@, layout.boot_devices(), o.live.boot.leads@)
    &&& efi ==> o.live.esp.src is Some
    &&& mounted_by_uuid(o.fstab, "/boot"@)
    &&& efi ==> mounted_by_uuid(o.fstab, "/boot/efi"@)
    &&& layout.boot_mode is Independent ==> one_uuid(
        o.live.boot.uuids@,
        layout.members.len(),
        listed("/boot"@),
    )
    &&& efi ==> one_uuid(o.live.esp.uuids@, layout.members.len(), listed("/boot/efi"@))
}

/// Whether the disks are there, and /boot and the esp mounted and listed by uuid.
pub open spec fn mounts_usable(cfg: ConfigModel, layout: LayoutModel, o: Observed) -> bool {
    let efi = cfg.install.boot_mode == "efi"@;
    &&& all_set(o.disks@, layout.members.len())
    &&& o.live.boot.src is Some
    &&& efi ==> o.live.esp.src is Some
    &&& mounted_by_uuid(o.fstab, "/boot"@)
    &&& efi ==> mounted_by_uuid(o.fstab, "/boot/efi"@)
}

/// The checks of disks and mounts pass exactly where these are healthy, and none fails
/// exactly where they can be used.
pub proof fn what_the_mount_checks_mean(cfg: ConfigModel, layout: LayoutModel, o: Observed)
    ensures
        all_checks(mount_diagnosis(cfg, layout, o), passes()) <==> mounts_healthy(cfg, layout, o),
        all_checks(mount_diagnosis(cfg, layout, o), endures()) <==> mounts_usable(cfg, layout, o),
{
    broadcast use group_all_checks;

    let efi = cfg.efi();
    let fstab = opt_text(o.fstab);
    all_present("disk presence"@, disk_nodes(layout), o.disks@);
    fstab_entries(o.fstab, "/boot"@);
    fstab_entries(o.fstab, "/boot/efi"@);
    shared_uuids(
        "boot uuid"@,
        UuidKind::Boot,
        layout.boot_devices(),
        o.live.boot.uuids@,
        mount_uuid(fstab, "/boot"@),
    );
    shared_uuids(
        "esp uuid"@,
        UuidKind::Esp,
        layout.esp_devices(),
        o.live.esp.uuids@,
        mount_uuid(fstab, "/boot/efi"@),
    );
    if o.live.boot.src is Some {
        among_means(o.live.boot.src->0@, layout.boot_devices(), o.live.boot.leads@);
    }
    let boot = opt_device(o.live.boot.src);
    let esp = if efi {
        opt_device(o.live.esp.src)
    } else {
        None
    };
    let same = consistency_checks(layout, boot, esp, o.live.boot.leads@, o.live.esp.leads@);
    assert(all_checks(same, passes()));
    assert(all_checks(same, endures()));
    assert(all_checks(fstab_checks(fstab, efi), passes()) <==> mounted_by_uuid(o.fstab, "/boot"@)
        && (efi ==> mounted_by_uuid(o.fstab, "/boot/efi"@)));
    assert(all_checks(fstab_checks(fstab, efi), endures()) <==> mounted_by_uuid(o.fstab, "/boot"@)
        && (efi ==> mounted_by_uuid(o.fstab, "/boot/efi"@)));
}

// ------------------------------------------------------------------ layers

/// What a line of crypttab gives as its source, without "UUID=".
pub open spec fn given_source(line: Seq<char>) -> Seq<char> {
    let f = fields(line);
    if f.len() > 1 {
        if has_prefix(f[1], "UUID="@) {
            f[1].skip(5)
        } else {
            f[1]
        }
    } else {
        Seq::empty()
    }
}

/// Whether a line of crypttab is about the mapping.
pub open spec fn maps(line: Seq<char>, name: Seq<char>) -> bool {
    fields(line).len() > 0 && fields(line)[0] == name
}

/// Whether crypttab has a line for the mapping.
pub open spec fn mapped(crypttab: Seq<char>, name: Seq<char>) -> bool {
    exists|k: int| 0 <= k < lines(crypttab).len() && maps(#[trigger] lines(crypttab)[k], name)
}

/// Whether the first line of crypttab for the mapping gives this very uuid.
pub open spec fn mapped_by(crypttab: Seq<char>, name: Seq<char>, uuid: Seq<char>) -> bool {
    exists|k: int|
        0 <= k < lines(crypttab).len() && maps(#[trigger] lines(crypttab)[k], name)
            && given_source(lines(crypttab)[k]) == uuid && forall|j: int|
            0 <= j < k ==> !maps(#[trigger] lines(crypttab)[j], name)
}

proof fn a_crypttab_check(name: Seq<char>, crypttab: Seq<char>, uuid: Option<Seq<char>>)
    ensures
        passes()(crypttab_check(name, crypttab, uuid)) <==> uuid is Some && mapped_by(
            crypttab,
            name,
            uuid->0,
        ),
        endures()(crypttab_check(name, crypttab, uuid)) <==> mapped(crypttab, name),
{
    let ls = lines(crypttab);
    let f = |l: Seq<char>| line_source(l, name);
    reveal_strlit("UUID=");
    reveal_strlit("");
    let k = found_means(ls, f);
    assert forall|j: int| 0 <= j < ls.len() implies (f(#[trigger] ls[j]) is Some <==> maps(
        ls[j],
        name,
    )) && (maps(ls[j], name) ==> f(ls[j])->0 == given_source(ls[j])) by {
        assert(""@ =~= Seq::<char>::empty());
    }
    if k < ls.len() {
        assert(maps(ls[k], name));
        assert forall|j: int| 0 <= j < k implies !maps(#[trigger] ls[j], name) by {
            assert(f(ls[j]) is None);
        }
        if uuid is Some && mapped_by(crypttab, name, uuid->0) {
            let m = choose|m: int|
                0 <= m < ls.len() && maps(#[trigger] ls[m], name) && given_source(ls[m]) == uuid->0
                    && forall|j: int| 0 <= j < m ==> !maps(#[trigger] ls[j], name);
            assert(m == k);
        }
    } else {
        assert forall|j: int| 0 <= j < ls.len() implies !maps(#[trigger] ls[j], name) by {
            assert(f(ls[j]) is None);
        }
    }
}

/// Whether crypttab gives each member's mapping the uuid of its root partition.
pub open spec fn members_mapped(layout: LayoutModel, o: Observed) -> bool {
    forall|i: int|
        0 <= i < layout.members.len() ==> (#[trigger] text_at(o.root_uuids@, i)) is Some
            && mapped_by(
            o.crypttab@,
            layout.crypt_name(layout.members[i]),
            text_at(o.root_uuids@, i)->0,
        )
}

/// Whether crypttab has a line for each member's mapping.
pub open spec fn members_listed(layout: LayoutModel, o: Observed) -> bool {
    forall|i: int|
        0 <= i < layout.members.len() ==> mapped(
            o.crypttab@,
            layout.crypt_name(#[trigger] layout.members[i]),
        )
}

proof fn the_crypttab_checks(layout: LayoutModel, o: Observed)
    ensures
        all_checks(crypttab_checks(layout, o.crypttab@, o.root_uuids@), passes())
            <==> members_mapped(layout, o),
        all_checks(crypttab_checks(layout, o.crypttab@, o.root_uuids@), endures())
            <==> members_listed(layout, o),
{
    let v = crypttab_checks(layout, o.crypttab@, o.root_uuids@);
    assert forall|i: int| 0 <= i < v.len() implies (passes()(#[trigger] v[i]) <==> text_at(
        o.root_uuids@,
        i,
    ) is Some && mapped_by(
        o.crypttab@,
        layout.crypt_name(layout.members[i]),
        text_at(o.root_uuids@, i)->0,
    )) && (endures()(v[i]) <==> mapped(o.crypttab@, layout.crypt_name(layout.members[i]))) by {
        a_crypttab_check(
            layout.crypt_name(layout.members[i]),
            o.crypttab@,
            text_at(o.root_uuids@, i),
        );
    }
    if all_checks(v, passes()) {
        assert forall|i: int| 0 <= i < layout.members.len() implies (#[trigger] text_at(
            o.root_uuids@,
            i,
        )) is Some && mapped_by(
            o.crypttab@,
            layout.crypt_name(layout.members[i]),
            text_at(o.root_uuids@, i)->0,
        ) by {
            assert(passes()(v[i]));
        }
    }
    if members_mapped(layout, o) {
        assert forall|i: int| 0 <= i < v.len() implies passes()(#[trigger] v[i]) by {
            assert(text_at(o.root_uuids@, i) is Some);
        }
    }
    if all_checks(v, endures()) {
        assert forall|i: int| 0 <= i < layout.members.len() implies mapped(
            o.crypttab@,
            layout.crypt_name(#[trigger] layout.members[i]),
        ) by {
            assert(endures()(v[i]));
        }
    }
}

/// Whether each member's luks header could be dumped.
pub open spec fn headers_valid(layout: LayoutModel, o: Observed) -> bool {
    forall|i: int|
        0 <= i < layout.members.len() && i < o.dumps@.len() ==> (#[trigger] o.dumps@[i]) is Valid
}

/// A luks check passes where the header could be dumped, and fails otherwise: a damaged
/// header is never only a warning.
pub proof fn what_the_luks_checks_mean(layout: LayoutModel, dumps: Seq<Dump>)
    ensures
        ({
            let v = luks_checks(layout, dumps);
            &&& v.len() == if layout.members.len() <= dumps.len() {
                layout.members.len()
            } else {
                dumps.len()
            }
            &&& forall|i: int|
                0 <= i < v.len() ==> ((#[trigger] v[i]).status == Status::Pass <==> dumps[i]
                    is Valid) && (v[i].status == Status::Fail <==> !(dumps[i] is Valid))
        }),
{
}

proof fn the_luks_checks(layout: LayoutModel, o: Observed)
    ensures
        all_checks(luks_checks(layout, o.dumps@), passes()) <==> headers_valid(layout, o),
        all_checks(luks_checks(layout, o.dumps@), endures()) <==> headers_valid(layout, o),
{
    let v = luks_checks(layout, o.dumps@);
    what_the_luks_checks_mean(layout, o.dumps@);
    if all_checks(v, passes()) || all_checks(v, endures()) {
        assert forall|i: int| 0 <= i < layout.members.len() && i < o.dumps@.len() implies (
        #[trigger] o.dumps@[i]) is Valid by {
            assert(passes()(v[i]) || endures()(v[i]));
        }
    }
}

proof fn the_backup_check(layout: LayoutModel, present: Seq<bool>)
    ensures
        passes()(backup_check(layout, present)) <==> all_set(present, layout.members.len()),
        endures()(backup_check(layout, present)),
{
    no_backup_is_missing(layout.members, present);
}

proof fn no_backup_is_missing(members: Seq<Seq<char>>, present: Seq<bool>)
    ensures
        missing_backups(members, present).len() == 0 <==> all_set(present, members.len()),
    decreases members.len(),
{
    if members.len() > 0 {
        no_backup_is_missing(members.drop_last(), present);
        let n = members.len();
        if all_set(present, (n - 1) as nat) && flag_at(present, n - 1) {
            assert(all_set(present, n));
        }
        if all_set(present, n) {
            assert(present[n - 1]);
        }
    }
}

/// Whether md reports an array that runs with all its members.
pub open spec fn md_runs(r: Report) -> bool {
    r matches Report::Printed(text) && (holds(text@, "State : active"@) || holds(
        text@,
        "State : clean"@,
    ))
}

/// Whether the arrays run with all their members, as the tools of the family report.
pub open spec fn arrays_healthy(family: Family, layout: LayoutModel, a: ArrayView) -> bool {
    match family {
        Family::Md => md_runs(a.root) && (layout.boot_mode is Raid ==> md_runs(a.boot)),
        Family::Zfs => a.root matches Report::Printed(text) && !holds(text@, "DEGRADED"@)
            && !holds(text@, "FAULTED"@),
        _ => a.root matches Report::Printed(text) && forall|k: int|
            0 <= k < lines(text@).len() ==> !holds(#[trigger] lines(text@)[k], "[*]"@),
    }
}

/// Whether the arrays run, maybe with a member missing.
pub open spec fn arrays_usable(family: Family, layout: LayoutModel, a: ArrayView) -> bool {
    match family {
        Family::Md => a.root is Printed && (layout.boot_mode is Raid ==> a.boot is Printed),
        Family::Zfs => a.root matches Report::Printed(text) && (holds(text@, "DEGRADED"@)
            || !holds(text@, "FAULTED"@)),
        _ => true,
    }
}

proof fn no_error_line(v: Seq<Seq<char>>)
    ensures
        error_lines(v) == 0 <==> forall|k: int|
            0 <= k < v.len() ==> !holds(#[trigger] v[k], "[*]"@),
    decreases v.len(),
{
    if v.len() > 0 {
        let rest = v.drop_last();
        no_error_line(rest);
        if error_lines(v) == 0 {
            assert forall|k: int| 0 <= k < v.len() implies !holds(#[trigger] v[k], "[*]"@) by {
                if k < rest.len() {
                    assert(rest[k] == v[k]);
                }
            }
        } else if forall|k: int| 0 <= k < v.len() ==> !holds(#[trigger] v[k], "[*]"@) {
            assert(!holds(v[v.len() - 1], "[*]"@));
            assert forall|k: int| 0 <= k < rest.len() implies !holds(
                #[trigger] rest[k],
                "[*]"@,
            ) by {
                assert(rest[k] == v[k]);
            }
        }
    }
}

/// The checks of the arrays pass exactly where all of them run with all their members,
/// and none fails exactly where they run.
pub proof fn what_the_array_checks_mean(layout: LayoutModel, family: Family, a: ArrayView)
    ensures
        all_checks(array_checks(layout, family, a), passes()) <==> arrays_healthy(
            family,
            layout,
            a,
        ),
        all_checks(array_checks(layout, family, a), endures()) <==> arrays_usable(
            family,
            layout,
            a,
        ),
{
    broadcast use group_all_checks;

    if let Report::Printed(text) = a.root {
        no_error_line(lines(text@));
    }
}

/// Whether no mirror that was compared differs from the source.
pub open spec fn in_sync(mirrors: nat, found: Seq<Drift>) -> bool {
    forall|k: int|
        0 <= k < mirrors && k < found.len() ==> ((#[trigger] found[k]) is Absent || found[k]
            == Drift::Changed(0))
}

proof fn no_drift(mirrors: Seq<Seq<char>>, found: Seq<Drift>)
    ensures
        drift_lines(mirrors, found).len() == 0 <==> in_sync(mirrors.len(), found),
    decreases mirrors.len(),
{
    if mirrors.len() > 0 {
        let rest = mirrors.drop_last();
        let n = mirrors.len() - 1;
        no_drift(rest, found);
        if drift_lines(mirrors, found).len() == 0 {
            assert forall|k: int| 0 <= k < mirrors.len() && k < found.len() implies (
            #[trigger] found[k]) is Absent || found[k] == Drift::Changed(0) by {
                if k == n {
                    assert(drift_line(mirrors[n], found[n]) is None);
                }
            }
        }
        if in_sync(mirrors.len(), found) {
            assert(in_sync(rest.len(), found));
            if n < found.len() {
                assert(found[n] is Absent || found[n] == Drift::Changed(0));
            }
        }
    }
}

/// Whether every member that was looked at carries its own bootloader.
pub open spec fn all_bootable(devs: nat, found: Seq<Verified>) -> bool {
    forall|k: int|
        0 <= k < devs && k < found.len() ==> ((#[trigger] found[k]) is Absent || (found[k]
            matches Verified::Done(r) && r is Ok))
}

proof fn no_broken_bootloader(devs: Seq<Seq<char>>, found: Seq<Verified>)
    ensures
        bootloader_lines(devs, found).len() == 0 <==> all_bootable(devs.len(), found),
    decreases devs.len(),
{
    if devs.len() > 0 {
        let rest = devs.drop_last();
        let n = devs.len() - 1;
        no_broken_bootloader(rest, found);
        if bootloader_lines(devs, found).len() == 0 {
            assert forall|k: int| 0 <= k < devs.len() && k < found.len() implies (
            #[trigger] found[k]) is Absent || (found[k] matches Verified::Done(r) && r is Ok) by {
                if k == n {
                    assert(bootloader_line(devs[n], found[n]) is None);
                }
            }
        }
        if all_bootable(devs.len(), found) {
            assert(all_bootable(rest.len(), found));
            if n < found.len() {
                assert(found[n] is Absent || (found[n] matches Verified::Done(r) && r is Ok));
            }
        }
    }
}

/// Whether the encrypted members, the arrays and the mirrors are as they should be.
pub open spec fn layers_healthy(cfg: ConfigModel, layout: LayoutModel, o: Observed) -> bool {
    let efi = cfg.install.boot_mode == "efi"@;
    let n = layout.members.len();
    let boots = mirrors_of(
        paired(layout.boot_devices(), o.live.boot.leads@),
        opt_device(o.live.boot.src),
    );
    let esps = mirrors_of(
        paired(layout.esp_devices(), o.live.esp.leads@),
        opt_device(o.live.esp.src),
    );
    &&& members_mapped(layout, o)
    &&& headers_valid(layout, o)
    &&& all_set(o.backups@, n)
    &&& arrays_healthy(array_family(cfg), layout, o.array)
    &&& layout.boot_mode is Independent ==> all_set(o.live.boot.present@, n) && (o.live.boot.src
        is Some ==> in_sync(boots.len(), o.boot_drift@)) && all_bootable(n, o.boot_loaders@)
    &&& efi ==> all_set(o.live.esp.present@, n) && (o.live.esp.src is Some ==> in_sync(
        esps.len(),
        o.esp_drift@,
    )) && all_bootable(n, o.esp_loaders@)
}

/// Whether the encrypted members, the arrays and the mirrors can be used.
pub open spec fn layers_usable(cfg: ConfigModel, layout: LayoutModel, o: Observed) -> bool {
    let n = layout.members.len();
    &&& members_listed(layout, o)
    &&& headers_valid(layout, o)
    &&& arrays_usable(array_family(cfg), layout, o.array)
    &&& layout.boot_mode is Independent ==> all_set(o.live.boot.present@, n)
    &&& cfg.install.boot_mode == "efi"@ ==> all_set(o.live.esp.present@, n)
}

/// The checks of the layers pass exactly where these are healthy, and none fails exactly
/// where they can be used.
pub proof fn what_the_layer_checks_mean(cfg: ConfigModel, layout: LayoutModel, o: Observed)
    ensures
        all_checks(layer_diagnosis(cfg, layout, o), passes()) <==> layers_healthy(cfg, layout, o),
        all_checks(layer_diagnosis(cfg, layout, o), endures()) <==> layers_usable(cfg, layout, o),
{
    broadcast use group_all_checks;

    the_crypttab_checks(layout, o);
    the_luks_checks(layout, o);
    the_backup_check(layout, o.backups@);
    what_the_array_checks_mean(layout, array_family(cfg), o.array);
    all_present("boot mirrors"@, layout.boot_devices(), o.live.boot.present@);
    all_present("esp mirrors"@, layout.esp_devices(), o.live.esp.present@);
    let boots = mirrors_of(
        paired(layout.boot_devices(), o.live.boot.leads@),
        opt_device(o.live.boot.src),
    );
    let esps = mirrors_of(
        paired(layout.esp_devices(), o.live.esp.leads@),
        opt_device(o.live.esp.src),
    );
    no_drift(boots, o.boot_drift@);
    no_drift(esps, o.esp_drift@);
    no_broken_bootloader(layout.boot_devices(), o.boot_loaders@);
    no_broken_bootloader(layout.esp_devices(), o.esp_loaders@);
}

// -------------------------------------------------------------- bootloader

proof fn the_grub_checks(
    layout: LayoutModel,
    efi: bool,
    mounted: Option<DeviceModel>,
    leads: Seq<Option<String>>,
    shim: bool,
    grub_pc: Report,
)
    ensures
        ({
            let v = grub_checks(layout, efi, mounted, leads, shim, grub_pc);
            let ok = if efi {
                shim || layout.members.len() == 0
            } else {
                grub_pc matches Report::Printed(text) && holds(text@, "install ok installed"@)
            };
            (all_checks(v, passes()) <==> ok) && (all_checks(v, endures()) <==> ok)
        }),
{
    broadcast use group_all_checks;

    let v = grub_checks(layout, efi, mounted, leads, shim, grub_pc);
    if efi && !shim && layout.members.len() > 0 {
        let esps = paired(layout.esp_devices(), leads);
        let d = layout.members[0];
        assert(esps[0].path == layout.part(d, 1));
        assert(disk_of(layout, layout.members, esps[0].path) == d);
        let i: int = if mounted is Some && among(esps, mounted->0) {
            choose|i: int| 0 <= i < esps.len() && one_device(#[trigger] esps[i], mounted->0)
        } else {
            0
        };
        assert(looked_at(layout, mounted, esps, i));
        assert(v[i].status == Status::Fail);
        if all_checks(v, passes()) || all_checks(v, endures()) {
            assert(passes()(v[i]) || endures()(v[i]));
        }
    }
}

/// Whether a hook is installed, can be run, and holds this text.
pub open spec fn runs_hook(state: HookState, content: Seq<char>) -> bool {
    state matches HookState::Installed(mode, text) && mode & 0o111 != 0 && opt_text(text) == Some(
        content,
    )
}

proof fn a_hook_check(
    name: Seq<char>,
    path: Seq<char>,
    content: Seq<char>,
    fix: Fix,
    state: HookState,
)
    ensures
        passes()(hook_check(name, path, content, fix, state)) <==> runs_hook(state, content),
        endures()(hook_check(name, path, content, fix, state)),
{
}

/// Whether a listing of the initrd holds a file of this name, in whatever directory.
pub open spec fn carries(listing: Seq<char>, name: Seq<char>) -> bool {
    exists|k: int|
        0 <= k < lines(listing).len() && pieces(#[trigger] lines(listing)[k], Sep::Is('/')).last()
            == name
}

/// Whether a listing of the initrd holds a file of each name.
pub open spec fn carries_all(listing: Seq<char>, names: Seq<Seq<char>>) -> bool {
    forall|i: int| 0 <= i < names.len() ==> carries(listing, #[trigger] names[i])
}

proof fn no_file_is_absent(listing: Seq<char>, names: Seq<Seq<char>>)
    ensures
        absent_files(listing, names).len() == 0 <==> carries_all(listing, names),
{
    let f = |b: Seq<char>| absent_file(listing, b);
    nothing_is_collected(names, f);
    assert forall|i: int| 0 <= i < names.len() implies (f(#[trigger] names[i]) is None <==> carries(
        listing,
        names[i],
    )) by {
        assert(lists_file(lines(listing), names[i]) == carries(listing, names[i]));
    }
    if absent_files(listing, names).len() == 0 {
        assert forall|i: int| 0 <= i < names.len() implies carries(listing, #[trigger] names[i]) by {
            assert(f(names[i]) is None);
        }
    } else if carries_all(listing, names) {
        assert forall|i: int| 0 <= i < names.len() implies f(#[trigger] names[i]) is None by {
            assert(carries(listing, names[i]));
        }
    }
}

/// Whether there is an initrd on /boot.
pub open spec fn has_initrd(o: Observed) -> bool {
    exists|k: int|
        0 <= k < o.boot_entries@.len() && has_prefix(
            #[trigger] texts(o.boot_entries@)[k],
            "initrd.img-"@,
        )
}

/// Whether the initrd carries what it takes to unlock and mount the root, and, where it
/// is configured, the recovery.
pub open spec fn initrd_healthy(cfg: ConfigModel, binaries: Seq<Seq<char>>, o: Observed) -> bool {
    &&& has_initrd(o)
    &&& o.listing matches Listing::Files(files) && carries_all(files@, binaries) && (
    cfg.install.initramfs_recovery ==> carries(files@, "raiden"@) && carries(
        files@,
        "manifest.toml"@,
    ) && runs_hook(o.recover_hook, INITRAMFS_HOOK_RAIDEN@))
}

proof fn an_initrd_is_found(v: Seq<Seq<char>>, prefix: Seq<char>)
    ensures
        first_named(v, prefix) is Some <==> exists|k: int|
            0 <= k < v.len() && has_prefix(#[trigger] v[k], prefix),
    decreases v.len(),
{
    if v.len() > 0 {
        let t = v.skip(1);
        an_initrd_is_found(t, prefix);
        if has_prefix(v[0], prefix) {
            assert(first_named(v, prefix) is Some);
        } else {
            if exists|k: int| 0 <= k < v.len() && has_prefix(#[trigger] v[k], prefix) {
                let k = choose|k: int| 0 <= k < v.len() && has_prefix(#[trigger] v[k], prefix);
                assert(t[k - 1] == v[k]);
            }
            if first_named(t, prefix) is Some {
                let k = choose|k: int| 0 <= k < t.len() && has_prefix(#[trigger] t[k], prefix);
                assert(v[k + 1] == t[k]);
            }
        }
    }
}

proof fn the_initrd_checks(cfg: ConfigModel, binaries: Seq<Seq<char>>, o: Observed)
    ensures
        ({
            let v = initrd_checks(
                binaries,
                texts(o.boot_entries@),
                o.listing,
                cfg.install.initramfs_recovery,
                o.recover_hook,
            );
            (all_checks(v, passes()) <==> initrd_healthy(cfg, binaries, o)) && (all_checks(
                v,
                endures(),
            ) <==> has_initrd(o))
        }),
{
    broadcast use group_all_checks;

    let entries = texts(o.boot_entries@);
    an_initrd_is_found(entries, "initrd.img-"@);
    if let Listing::Files(files) = o.listing {
        no_file_is_absent(files@, binaries);
        let bundle = seq!["raiden"@].push("manifest.toml"@);
        no_file_is_absent(files@, bundle);
        assert(carries_all(files@, bundle) <==> carries(files@, "raiden"@) && carries(
            files@,
            "manifest.toml"@,
        )) by {
            assert(bundle[0] == "raiden"@ && bundle[1] == "manifest.toml"@);
        }
    }
    a_hook_check(
        "recover hook"@,
        RAIDEN_RECOVERY_HOOK@,
        INITRAMFS_HOOK_RAIDEN@,
        Fix::RecoverBundle,
        o.recover_hook,
    );
}

/// Whether a partition has exactly one debian boot entry, and that one loads shim.
pub open spec fn one_shim_entry(v: Seq<EntryModel>, guid: Seq<char>) -> bool {
    exists|k: int|
        0 <= k < v.len() && boots_from(#[trigger] v[k], guid) && holds(v[k].desc, "shimx64.efi"@)
            && forall|j: int| 0 <= j < v.len() && j != k ==> !boots_from(#[trigger] v[j], guid)
}

/// Whether an entry boots debian from the partition.
pub open spec fn boots_from(e: EntryModel, guid: Seq<char>) -> bool {
    holds(e.desc, guid) && holds(e.desc, "\\efi\\debian\\"@)
}

proof fn counting_entries(v: Seq<EntryModel>, guid: Seq<char>, shim: bool)
    ensures
        entry_count(v, guid, shim) == 0 <==> forall|j: int|
            0 <= j < v.len() ==> !(boots_from(#[trigger] v[j], guid) && (!shim || holds(
                v[j].desc,
                "shimx64.efi"@,
            ))),
    decreases v.len(),
{
    if v.len() > 0 {
        let rest = v.drop_last();
        counting_entries(rest, guid, shim);
        if entry_count(v, guid, shim) == 0 {
            assert forall|j: int| 0 <= j < v.len() implies !(boots_from(#[trigger] v[j], guid) && (
            !shim || holds(v[j].desc, "shimx64.efi"@))) by {
                if j < rest.len() {
                    assert(rest[j] == v[j]);
                }
            }
        } else if forall|j: int|
            0 <= j < v.len() ==> !(boots_from(#[trigger] v[j], guid) && (!shim || holds(
                v[j].desc,
                "shimx64.efi"@,
            ))) {
            assert(!(boots_from(v[v.len() - 1], guid) && (!shim || holds(
                v[v.len() - 1].desc,
                "shimx64.efi"@,
            ))));
            assert forall|j: int| 0 <= j < rest.len() implies !(boots_from(#[trigger] rest[j], guid)
                && (!shim || holds(rest[j].desc, "shimx64.efi"@))) by {
                assert(rest[j] == v[j]);
            }
        }
    }
}

proof fn a_single_entry(v: Seq<EntryModel>, guid: Seq<char>)
    ensures
        entry_count(v, guid, true) <= entry_count(v, guid, false),
        entry_count(v, guid, true) > 0 && entry_count(v, guid, false) <= 1 <==> one_shim_entry(
            v,
            guid,
        ),
    decreases v.len(),
{
    if v.len() > 0 {
        let rest = v.drop_last();
        let e = v.last();
        let n = v.len() - 1;
        a_single_entry(rest, guid);
        counting_entries(rest, guid, false);
        counting_entries(rest, guid, true);
        if one_shim_entry(rest, guid) && !boots_from(e, guid) {
            let k = choose|k: int|
                0 <= k < rest.len() && boots_from(#[trigger] rest[k], guid) && holds(
                    rest[k].desc,
                    "shimx64.efi"@,
                ) && forall|j: int|
                    0 <= j < rest.len() && j != k ==> !boots_from(#[trigger] rest[j], guid);
            assert(v[k] == rest[k]);
            assert forall|j: int| 0 <= j < v.len() && j != k implies !boots_from(
                #[trigger] v[j],
                guid,
            ) by {
                if j < rest.len() {
                    assert(v[j] == rest[j]);
                }
            }
            assert(one_shim_entry(v, guid));
        }
        if one_shim_entry(v, guid) {
            let k = choose|k: int|
                0 <= k < v.len() && boots_from(#[trigger] v[k], guid) && holds(
                    v[k].desc,
                    "shimx64.efi"@,
                ) && forall|j: int|
                    0 <= j < v.len() && j != k ==> !boots_from(#[trigger] v[j], guid);
            if k < n {
                assert(rest[k] == v[k]);
                assert(!boots_from(v[n], guid));
                assert forall|j: int| 0 <= j < rest.len() && j != k implies !boots_from(
                    #[trigger] rest[j],
                    guid,
                ) by {
                    assert(v[j] == rest[j]);
                }
                assert(one_shim_entry(rest, guid));
            } else {
                assert forall|j: int| 0 <= j < rest.len() implies !boots_from(
                    #[trigger] rest[j],
                    guid,
                ) by {
                    assert(v[j] == rest[j]);
                }
            }
        }
        if entry_count(v, guid, true) > 0 && entry_count(v, guid, false) <= 1 && boots_from(e, guid) {
            assert(entry_count(rest, guid, false) == 0);
            assert forall|j: int| 0 <= j < v.len() && j != n implies !boots_from(
                #[trigger] v[j],
                guid,
            ) by {
                assert(v[j] == rest[j]);
            }
            assert(v[n] == e);
            assert(one_shim_entry(v, guid));
        }
    }
}

/// Whether each member that is there has exactly one boot entry, which loads shim from
/// its own esp.
pub open spec fn nvram_healthy(layout: LayoutModel, nvram: Option<String>, ids: Seq<EspId>) -> bool {
    nvram is Some && forall|i: int|
        0 <= i < layout.members.len() && i < ids.len() && !((#[trigger] ids[i]) is Absent)
            ==> guid_at(ids, i) is Some && one_shim_entry(
            lines_entries(lines(nvram->0@)),
            guid_at(ids, i)->0,
        )
}

proof fn no_entry_problem(layout: LayoutModel, v: Seq<EntryModel>, ids: Seq<EspId>, n: nat)
    requires
        n <= layout.members.len(),
    ensures
        entry_problems(layout, v, ids, n).len() == 0 <==> forall|i: int|
            0 <= i < n && i < ids.len() && !((#[trigger] ids[i]) is Absent) ==> guid_at(ids, i)
                is Some && one_shim_entry(v, guid_at(ids, i)->0),
    decreases n,
{
    if n > 0 {
        no_entry_problem(layout, v, ids, (n - 1) as nat);
        let m = n - 1;
        if guid_at(ids, m) is Some {
            a_single_entry(v, guid_at(ids, m)->0);
        }
        let p = entry_problem(layout, layout.members[m], v, ids, m);
        assert(p is None <==> (m < ids.len() && !(ids[m] is Absent) ==> guid_at(ids, m) is Some
            && one_shim_entry(v, guid_at(ids, m)->0)));
    }
}

/// The check of the boot entries passes exactly where each member that is there has one
/// entry, which loads shim from its own esp; it never fails.
pub proof fn what_the_nvram_check_means(
    layout: LayoutModel,
    nvram: Option<String>,
    ids: Seq<EspId>,
)
    ensures
        passes()(nvram_check(layout, opt_text(nvram), ids)) <==> nvram_healthy(layout, nvram, ids),
        endures()(nvram_check(layout, opt_text(nvram), ids)),
{
    if nvram is Some {
        no_entry_problem(layout, lines_entries(lines(nvram->0@)), ids, layout.members.len());
    }
}

/// Whether debconf shows this value of a key, on the first line for it.
pub open spec fn shows(out: Seq<char>, key: Seq<char>, value: Seq<char>) -> bool {
    exists|k: int|
        0 <= k < lines(out).len() && line_value(#[trigger] lines(out)[k], key) == Some(value)
            && forall|j: int| 0 <= j < k ==> line_value(#[trigger] lines(out)[j], key) is None
}

/// Whether grub's debconf keeps the removable fallback on and its own nvram entries off.
pub open spec fn debconf_healthy(shown: Report) -> bool {
    shown matches Report::Printed(out) && shows(
        out@,
        "grub2/force_efi_extra_removable"@,
        "true"@,
    ) && shows(out@, "grub2/update_nvram"@, "false"@)
}

proof fn no_mismatch(out: Seq<char>, key: Seq<char>, value: Seq<char>)
    ensures
        mismatch(out, key, value) is None <==> shows(out, key, value),
{
    let ls = lines(out);
    let f = |l: Seq<char>| line_value(l, key);
    let k = found_means(ls, f);
    if k < ls.len() {
        assert forall|j: int| 0 <= j < k implies line_value(#[trigger] ls[j], key) is None by {
            assert(f(ls[j]) is None);
        }
        assert(f(ls[k]) == line_value(ls[k], key));
        if shows(out, key, value) {
            let m = choose|m: int|
                0 <= m < ls.len() && line_value(#[trigger] ls[m], key) == Some(value) && forall|
                    j: int,
                |
                    0 <= j < m ==> line_value(#[trigger] ls[j], key) is None;
            assert(m == k);
        }
    } else if shows(out, key, value) {
        let m = choose|m: int|
            0 <= m < ls.len() && line_value(#[trigger] ls[m], key) == Some(value) && forall|j: int|
                0 <= j < m ==> line_value(#[trigger] ls[j], key) is None;
        assert(f(ls[m]) is None);
    }
}

/// The check of grub's debconf passes exactly where both keys have their values; it
/// never fails.
pub proof fn what_the_debconf_check_means(shown: Report)
    ensures
        passes()(debconf_check(shown)) <==> debconf_healthy(shown),
        endures()(debconf_check(shown)),
{
    if let Report::Printed(out) = shown {
        let f = |p: (Seq<char>, Seq<char>)| mismatch(out@, p.0, p.1);
        nothing_is_collected(debconf_keys(), f);
        no_mismatch(out@, "grub2/force_efi_extra_removable"@, "true"@);
        no_mismatch(out@, "grub2/update_nvram"@, "false"@);
        let keys = debconf_keys();
        assert(keys[0] == ("grub2/force_efi_extra_removable"@, "true"@));
        assert(keys[1] == ("grub2/update_nvram"@, "false"@));
        assert(mismatches(out@).len() == 0 <==> f(keys[0]) is None && f(keys[1]) is None);
    }
}

/// Whether the bootloader, the initrd, the hooks and the manifest are as they should be.
pub open spec fn boot_healthy<S: Stack>(
    cfg: ConfigModel,
    layout: LayoutModel,
    stack: S,
    o: Observed,
) -> bool {
    let efi = cfg.install.boot_mode == "efi"@;
    &&& if efi {
        o.shim || layout.members.len() == 0
    } else {
        o.grub_pc matches Report::Printed(text) && holds(text@, "install ok installed"@)
    }
    &&& initrd_healthy(cfg, stack.initramfs_list(), o)
    &&& runs_hook(o.postinst_hook, BOOT_MIRROR_HOOK_CONTENT@)
    &&& runs_hook(o.postrm_hook, BOOT_MIRROR_HOOK_CONTENT@)
    &&& efi ==> runs_hook(o.efi_hook, EFI_MIRROR_WRAPPER@) && nvram_healthy(
        layout,
        o.live.nvram,
        o.live.ids@,
    ) && debconf_healthy(o.debconf)
    &&& o.manifest_error is None
}

/// Whether there is a bootloader, an initrd and a manifest.
pub open spec fn boot_usable(cfg: ConfigModel, layout: LayoutModel, o: Observed) -> bool {
    &&& if cfg.install.boot_mode == "efi"@ {
        o.shim || layout.members.len() == 0
    } else {
        o.grub_pc matches Report::Printed(text) && holds(text@, "install ok installed"@)
    }
    &&& has_initrd(o)
    &&& o.manifest_error is None
}

/// The checks of what boots pass exactly where it is healthy, and none fails exactly
/// where it can be used.
pub proof fn what_the_boot_checks_mean<S: Stack>(
    cfg: ConfigModel,
    layout: LayoutModel,
    stack: S,
    o: Observed,
)
    ensures
        all_checks(boot_diagnosis(cfg, layout, stack, o), passes()) <==> boot_healthy(
            cfg,
            layout,
            stack,
            o,
        ),
        all_checks(boot_diagnosis(cfg, layout, stack, o), endures()) <==> boot_usable(
            cfg,
            layout,
            o,
        ),
{
    broadcast use group_all_checks;

    the_grub_checks(
        layout,
        cfg.efi(),
        opt_device(o.live.esp.src),
        o.live.esp.leads@,
        o.shim,
        o.grub_pc,
    );
    the_initrd_checks(cfg, stack.initramfs_list(), o);
    a_hook_check(
        "kernel hooks"@,
        hook_text("postinst.d"@),
        BOOT_MIRROR_HOOK_CONTENT@,
        Fix::BootHook("postinst.d"),
        o.postinst_hook,
    );
    a_hook_check(
        "kernel hooks"@,
        hook_text("postrm.d"@),
        BOOT_MIRROR_HOOK_CONTENT@,
        Fix::BootHook("postrm.d"),
        o.postrm_hook,
    );
    a_hook_check("esp hook"@, efi_hook_text(), EFI_MIRROR_WRAPPER@, Fix::EfiHook, o.efi_hook);
    what_the_nvram_check_means(layout, o.live.nvram, o.live.ids@);
    what_the_debconf_check_means(o.debconf);
}

// --------------------------------------------------------------- diagnosis

/// A diagnosis passes in every check exactly where the system is healthy, and none of
/// its checks fails exactly where the system can be used.
pub proof fn what_a_diagnosis_means<S: Stack>(
    cfg: ConfigModel,
    layout: LayoutModel,
    stack: S,
    o: Observed,
)
    ensures
        all_checks(diagnosis(cfg, layout, stack, o), passes()) <==> mounts_healthy(cfg, layout, o)
            && layers_healthy(cfg, layout, o) && boot_healthy(cfg, layout, stack, o),
        any_status(diagnosis(cfg, layout, stack, o), Status::Fail) <==> !(mounts_usable(
            cfg,
            layout,
            o,
        ) && layers_usable(cfg, layout, o) && boot_usable(cfg, layout, o)),
{
    let a = mount_diagnosis(cfg, layout, o);
    let b = layer_diagnosis(cfg, layout, o);
    let c = boot_diagnosis(cfg, layout, stack, o);
    what_the_mount_checks_mean(cfg, layout, o);
    what_the_layer_checks_mean(cfg, layout, o);
    what_the_boot_checks_mean(cfg, layout, stack, o);
    all_of_both(a, b, passes());
    all_of_both(a + b, c, passes());
    all_of_both(a, b, endures());
    all_of_both(a + b, c, endures());
    let all = diagnosis(cfg, layout, stack, o);
    if any_status(all, Status::Fail) {
        let i = choose|i: int| 0 <= i < all.len() && (#[trigger] all[i]).status == Status::Fail;
        assert(!endures()(all[i]));
    }
}

/// A damaged luks header makes the doctor fail, whatever the rest of the system is like.
pub proof fn a_damaged_header_fails_the_doctor<S: Stack>(
    cfg: ConfigModel,
    layout: LayoutModel,
    stack: S,
    o: Observed,
    i: int,
)
    requires
        0 <= i < layout.members.len(),
        i < o.dumps@.len(),
        !(o.dumps@[i] is Valid),
    ensures
        any_status(diagnosis(cfg, layout, stack, o), Status::Fail),
{
    what_a_diagnosis_means(cfg, layout, stack, o);
}

} // verus!
