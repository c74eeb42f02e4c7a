//! The result of one check, and what repairs it.
use vstd::prelude::*;
use vstd::string::*;

use crate::text::{cmd, filled, lines, pad_right, push_text, split_lines, texts};

verus! {

/// How a check came out.
#[derive(Clone, Copy, PartialEq, Eq, Structural, Debug)]
pub enum Status {
    Pass,
    Warn,
    Fail,
    Fixed,
}

pub const OK: Status = Status::Pass;

pub const WARN: Status = Status::Warn;

pub const FAIL: Status = Status::Fail;

pub const FIXED: Status = Status::Fixed;

/// Which mirror set a uuid is stamped onto.
#[derive(Clone, Copy, PartialEq, Eq, Structural, Debug)]
pub enum UuidKind {
    Boot,
    Esp,
}

/// A repair that can be carried out in place.
#[derive(Clone, Copy, Debug)]
pub enum Fix {
    /// Write the boot-mirror kernel hook into the named kernel hook directory.
    BootHook(&'static str),
    /// Write the esp-mirror grub.d hook.
    EfiHook,
    /// Resync the independent /boot mirrors.
    SyncBoot,
    /// Resync the esp mirrors.
    SyncEfi,
    /// Stamp the shared filesystem uuid onto the mirrors that differ, then resync them.
    RestampUuid(UuidKind),
    /// Prune stale boot entries and register one clean shim entry per member.
    EfiBootEntries,
    /// Set the debconf values of grub-efi again.
    Debconf,
    /// Append the missing /boot or /boot/efi entry to fstab.
    Fstab,
    /// Regenerate /etc/crypttab from the layout.
    Crypttab,
    /// Run grub-install on the primary esp again.
    GrubInstall,
    /// Rebuild the initramfs.
    Initrd,
    /// Install the recovery hook, then rebuild the initramfs.
    RecoverBundle,
    /// Back up the luks headers to /boot again.
    LuksBackup,
}

/// What a repair does, as a short imperative phrase.
pub open spec fn action_text(f: Fix) -> Seq<char> {
    match f {
        Fix::BootHook(_) => "install the boot-mirror kernel hook"@,
        Fix::EfiHook => "install the esp-mirror grub.d hook"@,
        Fix::SyncBoot => "re-sync the /boot mirrors"@,
        Fix::SyncEfi => "re-sync the esp mirrors"@,
        Fix::RestampUuid(UuidKind::Boot) => "re-stamp divergent /boot mirror uuids (tune2fs)"@,
        Fix::RestampUuid(
            UuidKind::Esp,
        ) => "re-stamp divergent esp mirror uuids (reformats them)"@,
        Fix::EfiBootEntries =>
            "prune stale efibootmgr entries and register per-disk shim entries"@,
        Fix::Debconf => "re-set grub-efi debconf (removable fallback on, grub nvram off)"@,
        Fix::Fstab => "append the missing fstab entry"@,
        Fix::Crypttab => "regenerate /etc/crypttab from the layout"@,
        Fix::GrubInstall => "re-run grub-install on the primary esp"@,
        Fix::Initrd => "rebuild the initramfs (update-initramfs -u)"@,
        Fix::RecoverBundle => "install the raiden recovery hook and rebuild the initramfs"@,
        Fix::LuksBackup => "re-back-up the luks headers to /boot"@,
    }
}

impl Fix {
    /// What the repair does, for the question that confirms it.
    pub fn action(&self) -> (r: &'static str)
        ensures
            r@ == action_text(*self),
    {
        match self {
            Fix::BootHook(_) => "install the boot-mirror kernel hook",
            Fix::EfiHook => "install the esp-mirror grub.d hook",
            Fix::SyncBoot => "re-sync the /boot mirrors",
            Fix::SyncEfi => "re-sync the esp mirrors",
            Fix::RestampUuid(UuidKind::Boot) => "re-stamp divergent /boot mirror uuids (tune2fs)",
            Fix::RestampUuid(
                UuidKind::Esp,
            ) => "re-stamp divergent esp mirror uuids (reformats them)",
            Fix::EfiBootEntries =>
                "prune stale efibootmgr entries and register per-disk shim entries",
            Fix::Debconf => "re-set grub-efi debconf (removable fallback on, grub nvram off)",
            Fix::Fstab => "append the missing fstab entry",
            Fix::Crypttab => "regenerate /etc/crypttab from the layout",
            Fix::GrubInstall => "re-run grub-install on the primary esp",
            Fix::Initrd => "rebuild the initramfs (update-initramfs -u)",
            Fix::RecoverBundle => "install the raiden recovery hook and rebuild the initramfs",
            Fix::LuksBackup => "re-back-up the luks headers to /boot",
        }
    }
}

/// The result of one check.
pub struct Check {
    pub name: String,
    pub status: Status,
    pub detail: String,
    pub fix: Option<Fix>,
}

#[verifier::ext_equal]
pub struct CheckModel {
    pub name: Seq<char>,
    pub status: Status,
    pub detail: Seq<char>,
    pub fix: Option<Fix>,
}

impl View for Check {
    type V = CheckModel;

    open spec fn view(&self) -> CheckModel {
        CheckModel { name: self.name@, status: self.status, detail: self.detail@, fix: self.fix }
    }
}

/// The models of a list of checks.
pub open spec fn checks(v: Seq<Check>) -> Seq<CheckModel> {
    v.map_values(|c: Check| c@)
}

/// A check that came out well.
pub open spec fn pass(name: Seq<char>, detail: Seq<char>) -> CheckModel {
    CheckModel { name, status: Status::Pass, detail, fix: None }
}

/// A check that found something to look at.
pub open spec fn caution(name: Seq<char>, detail: Seq<char>) -> CheckModel {
    CheckModel { name, status: Status::Warn, detail, fix: None }
}

/// A check that failed.
pub open spec fn failure(name: Seq<char>, detail: Seq<char>) -> CheckModel {
    CheckModel { name, status: Status::Fail, detail, fix: None }
}

impl CheckModel {
    /// The check with a repair.
    pub open spec fn with_fix(self, fix: Fix) -> CheckModel {
        CheckModel { fix: Some(fix), ..self }
    }

    /// Whether nothing is wrong any more.
    pub open spec fn passed(self) -> bool {
        self.status == Status::Pass || self.status == Status::Fixed
    }
}

impl Check {
    pub fn ok(name: &str, detail: &str) -> (r: Self)
        ensures
            r@ == pass(name@, detail@),
    {
        Self { name: name.to_owned(), status: OK, detail: detail.to_owned(), fix: None }
    }

    pub fn warn(name: &str, detail: &str) -> (r: Self)
        ensures
            r@ == caution(name@, detail@),
    {
        Self { name: name.to_owned(), status: WARN, detail: detail.to_owned(), fix: None }
    }

    pub fn fail(name: &str, detail: &str) -> (r: Self)
        ensures
            r@ == failure(name@, detail@),
    {
        Self { name: name.to_owned(), status: FAIL, detail: detail.to_owned(), fix: None }
    }

    pub fn with_fix(self, fix: Fix) -> (r: Self)
        ensures
            r@ == self@.with_fix(fix),
    {
        Check { name: self.name, status: self.status, detail: self.detail, fix: Some(fix) }
    }

    pub fn passed(&self) -> (r: bool)
        ensures
            r == self@.passed(),
    {
        self.status == OK || self.status == FIXED
    }
}

/// An empty list of checks.
pub fn no_checks() -> (r: Vec<Check>)
    ensures
        checks(r@) == Seq::<CheckModel>::empty(),
{
    let v: Vec<Check> = Vec::new();
    assert(checks(v@) =~= Seq::<CheckModel>::empty());
    v
}

/// Appends a check to a list.
pub fn add_check(v: &mut Vec<Check>, c: Check)
    ensures
        checks(final(v)@) == checks(old(v)@).push(c@),
{
    let ghost before = v@;
    v.push(c);
    assert(checks(v@) =~= checks(before).push(c@));
}

/// A list of one check.
pub fn one_check(c: Check) -> (r: Vec<Check>)
    ensures
        checks(r@) == seq![c@],
{
    let mut v = no_checks();
    add_check(&mut v, c);
    v
}

/// Appends all the checks of `more` to a list.
pub fn add_checks(v: &mut Vec<Check>, more: Vec<Check>)
    ensures
        checks(final(v)@) == checks(old(v)@) + checks(more@),
{
    let ghost before = v@;
    let mut m = more;
    v.append(&mut m);
    assert(checks(v@) =~= checks(before) + checks(more@));
}

// --------------------------------------------------------------------- table

/// The first line of a detail.
pub open spec fn first_line_of(s: Seq<char>) -> Seq<char> {
    if lines(s).len() > 0 {
        lines(s)[0]
    } else {
        ""@
    }
}

/// The first line of a detail that may have many, for compact prompts and rows.
pub fn first_line(detail: &str) -> (r: String)
    ensures
        r@ == first_line_of(detail@),
{
    let all = split_lines(detail);
    assert(texts(all@).len() == all@.len());
    if all.len() > 0 {
        assert(texts(all@)[0] == all@[0]@);
        all[0].clone()
    } else {
        "".to_owned()
    }
}

/// How a status is printed.
pub open spec fn mark_text(s: Status) -> Seq<char> {
    match s {
        Status::Pass => "ok"@,
        Status::Warn => "warn"@,
        Status::Fixed => "fixed"@,
        Status::Fail => "fail"@,
    }
}

fn mark(s: Status) -> (r: &'static str)
    ensures
        r@ == mark_text(s),
{
    match s {
        Status::Pass => "ok",
        Status::Warn => "warn",
        Status::Fixed => "fixed",
        Status::Fail => "fail",
    }
}

/// The width of the column of names: that of the longest, and at least four.
pub open spec fn name_width(v: Seq<CheckModel>) -> nat
    decreases v.len(),
{
    if v.len() == 0 {
        4
    } else if v.last().name.len() > name_width(v.drop_last()) {
        v.last().name.len()
    } else {
        name_width(v.drop_last())
    }
}

/// A row of the table.
pub open spec fn check_row(c: CheckModel, width: nat, verbose: bool) -> Seq<char> {
    filled(c.name, width) + "  "@ + filled(mark_text(c.status), 5) + "   "@ + (if verbose {
        c.detail
    } else {
        first_line_of(c.detail)
    })
}

/// The table of all checks under its heading.
pub open spec fn table_of(v: Seq<CheckModel>, verbose: bool) -> Seq<Seq<char>> {
    seq![filled(""@, name_width(v)) + "  status  detail"@] + v.map_values(
        |c: CheckModel| check_row(c, name_width(v), verbose),
    )
}

fn widest(v: &Vec<Check>) -> (r: usize)
    ensures
        r == name_width(checks(v@)),
{
    let ghost m = checks(v@);
    let mut width: usize = 4;
    let mut i: usize = 0;
    while i < v.len()
        invariant
            i <= v.len(),
            m == checks(v@),
            width == name_width(m.take(i as int)),
        decreases v.len() - i,
    {
        assert(m.take(i + 1).drop_last() =~= m.take(i as int));
        assert(m.take(i + 1).last() == v@[i as int]@);
        let n: usize = v[i].name.as_str().unicode_len();
        if n > width {
            width = n;
        }
        i += 1;
    }
    assert(m.take(m.len() as int) =~= m);
    width
}

/// The table of all checks. The compact view shows the first line of each detail.
pub fn table_lines(v: &Vec<Check>, verbose: bool) -> (r: Vec<String>)
    ensures
        texts(r@) == table_of(checks(v@), verbose),
{
    let width: usize = widest(v);
    let mut out = cmd(pad_right("", width).concat("  status  detail").as_str());
    let ghost heading = texts(out@);
    let ghost want = checks(v@).map_values(
        |c: CheckModel| check_row(c, name_width(checks(v@)), verbose),
    );
    let mut i: usize = 0;
    while i < v.len()
        invariant
            i <= v.len(),
            width == name_width(checks(v@)),
            want == checks(v@).map_values(
                |c: CheckModel| check_row(c, name_width(checks(v@)), verbose),
            ),
            texts(out@) =~= heading + want.take(i as int),
        decreases v.len() - i,
    {
        let detail = if verbose {
            v[i].detail.clone()
        } else {
            first_line(v[i].detail.as_str())
        };
        let row = pad_right(v[i].name.as_str(), width).concat("  ").concat(
            pad_right(mark(v[i].status), 5).as_str(),
        ).concat("   ").concat(detail.as_str());
        push_text(&mut out, row.as_str());
        assert(want[i as int] == row@);
        i += 1;
    }
    assert(want.take(want.len() as int) =~= want);
    out
}

/// Whether a check has this status.
pub open spec fn any_status(v: Seq<CheckModel>, s: Status) -> bool {
    exists|i: int| 0 <= i < v.len() && (#[trigger] v[i]).status == s
}

/// Whether one of the checks has this status.
pub fn has_status(v: &Vec<Check>, s: Status) -> (r: bool)
    ensures
        r == any_status(checks(v@), s),
{
    let ghost m = checks(v@);
    let mut i: usize = 0;
    while i < v.len()
        invariant
            i <= v.len(),
            m == checks(v@),
            forall|k: int| 0 <= k < i ==> (#[trigger] m[k]).status != s,
        decreases v.len() - i,
    {
        assert(m[i as int] == v@[i as int]@);
        if v[i].status == s {
            return true;
        }
        i += 1;
    }
    false
}

/// How the checks came out as a whole. The system is healthy unless one failed.
pub open spec fn summary_text(v: Seq<CheckModel>) -> Seq<char> {
    if any_status(v, Status::Fail) {
        "\ndoctor: one or more checks failed"@
    } else if any_status(v, Status::Warn) {
        "\ndoctor: all checks passed with warnings"@
    } else {
        "\ndoctor: all checks passed"@
    }
}

/// What is printed of the checks as a whole, and whether none of them failed.
pub fn summary(v: &Vec<Check>) -> (r: (&'static str, bool))
    ensures
        r.0@ == summary_text(checks(v@)),
        r.1 == !any_status(checks(v@), Status::Fail),
{
    if has_status(v, FAIL) {
        ("\ndoctor: one or more checks failed", false)
    } else if has_status(v, WARN) {
        ("\ndoctor: all checks passed with warnings", true)
    } else {
        ("\ndoctor: all checks passed", true)
    }
}

} // verus!
