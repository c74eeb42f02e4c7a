//! The boot entries that the firmware keeps, and the debconf values of grub-efi. The
//! entries are owned here: each member has one that loads shim from its own esp. Grub's
//! own management of the entries is off, so that it does not add them again.
use vstd::prelude::*;
use vstd::string::*;

use crate::doctor::check::{caution, checks, one_check, pass, Check, CheckModel, Fix};
use crate::doctor::probes::Report;
use crate::efi::{debconf_keys, register_argv, register_words, GRUB_DEBCONF, GRUB_PKG};
use crate::layout::{Layout, LayoutModel};
use crate::text::{
    after_prefix, cmd, collected, contains, dec, decimal, found, found_at, has_prefix, holds, join,
    joined, lines, opt_text, push_text, same, slice_string, split_lines, texts, to_chars, trim,
    trimmed, ArgList,
};

verus! {

/// The directory of the debian bootloader on an esp, as a boot entry names it.
pub const DEBIAN_DIR: &'static str = "\\efi\\debian\\";

// ------------------------------------------------------------------- entries

/// A boot entry: its number, and the rest of its line (label and device path) in lower
/// case.
pub struct BootEntry {
    pub num: String,
    pub desc: String,
}

#[verifier::ext_equal]
pub struct EntryModel {
    pub num: Seq<char>,
    pub desc: Seq<char>,
}

impl View for BootEntry {
    type V = EntryModel;

    open spec fn view(&self) -> EntryModel {
        EntryModel { num: self.num@, desc: self.desc@ }
    }
}

/// The models of a list of boot entries.
pub open spec fn entries(v: Seq<BootEntry>) -> Seq<EntryModel> {
    v.map_values(|e: BootEntry| e@)
}

/// A text in lower case.
pub uninterp spec fn lowercase(s: Seq<char>) -> Seq<char>;

/// Calls std's `str::to_lowercase`. Its result is a function of the text alone, by the
/// name `lowercase`; how each letter is mapped is left unsaid.
#[verifier::external_body]
pub(crate) fn to_lower(s: &str) -> (r: String)
    ensures
        r@ == lowercase(s@),
{
    s.to_lowercase()
}

/// Whether a character is a hexadecimal digit.
pub open spec fn is_hex(c: char) -> bool {
    ('0' <= c && c <= '9') || ('a' <= c && c <= 'f') || ('A' <= c && c <= 'F')
}

fn hex(c: char) -> (r: bool)
    ensures
        r == is_hex(c),
{
    ('0' <= c && c <= '9') || ('a' <= c && c <= 'f') || ('A' <= c && c <= 'F')
}

/// A text without the asterisks at its start.
pub open spec fn without_stars(s: Seq<char>) -> Seq<char>
    decreases s.len(),
{
    if s.len() > 0 && s[0] == '*' {
        without_stars(s.skip(1))
    } else {
        s
    }
}

/// The boot entry that a line of `efibootmgr -v` describes: "Boot", four hexadecimal
/// digits, and the rest. The header lines describe none.
pub open spec fn line_entry(line: Seq<char>) -> Option<(Seq<char>, Seq<char>)> {
    if !has_prefix(line, "Boot"@) {
        None
    } else {
        let rest = line.skip("Boot"@.len() as int);
        if rest.len() >= 4 && is_hex(rest[0]) && is_hex(rest[1]) && is_hex(rest[2]) && is_hex(
            rest[3],
        ) {
            Some((rest.take(4), trimmed(without_stars(rest.skip(4)))))
        } else {
            None
        }
    }
}

/// The boot entries that the lines describe.
pub open spec fn lines_entries(v: Seq<Seq<char>>) -> Seq<EntryModel>
    decreases v.len(),
{
    if v.len() == 0 {
        Seq::empty()
    } else {
        match line_entry(v.last()) {
            Some((num, rest)) => lines_entries(v.drop_last()).push(
                EntryModel { num, desc: lowercase(rest) },
            ),
            None => lines_entries(v.drop_last()),
        }
    }
}

/// The number of the boot entry that a line describes, and the rest of the line.
pub fn entry_parts(line: &str) -> (r: Option<(String, String)>)
    ensures
        (match r {
            Some((a, b)) => Some((a@, b@)),
            None => None,
        }) == line_entry(line@),
{
    let rest = match after_prefix(line, "Boot") {
        Some(s) => s,
        None => {
            return None;
        },
    };
    let v = to_chars(rest.as_str());
    if v.len() < 4 || !(hex(v[0]) && hex(v[1]) && hex(v[2]) && hex(v[3])) {
        return None;
    }
    let num = slice_string(&v, 0, 4);
    assert(v@.subrange(0, 4) =~= v@.take(4));
    let mut from: usize = 4;
    assert(v@.subrange(4, v@.len() as int) =~= v@.skip(4));
    while from < v.len() && v[from] == '*'
        invariant
            4 <= from <= v@.len(),
            without_stars(v@.subrange(from as int, v@.len() as int)) == without_stars(v@.skip(4)),
        decreases v@.len() - from,
    {
        assert(v@.subrange(from as int, v@.len() as int).skip(1) =~= v@.subrange(
            from + 1,
            v@.len() as int,
        ));
        from += 1;
    }
    let desc = trim(slice_string(&v, from, v.len()).as_str());
    Some((num, desc))
}

/// Parses the output of `efibootmgr -v` into its boot entries.
pub fn parse_boot_entries(out: &str) -> (r: Vec<BootEntry>)
    ensures
        entries(r@) == lines_entries(lines(out@)),
{
    let all = split_lines(out);
    let ghost ls = texts(all@);
    let mut v: Vec<BootEntry> = Vec::new();
    assert(entries(v@) =~= Seq::<EntryModel>::empty());
    let mut i: usize = 0;
    while i < all.len()
        invariant
            i <= all.len(),
            ls == texts(all@),
            entries(v@) == lines_entries(ls.take(i as int)),
        decreases all.len() - i,
    {
        assert(ls.take(i + 1).drop_last() =~= ls.take(i as int));
        assert(ls.take(i + 1).last() == all@[i as int]@);
        match entry_parts(all[i].as_str()) {
            Some((num, rest)) => {
                let ghost before = entries(v@);
                let e = BootEntry { num, desc: to_lower(rest.as_str()) };
                v.push(e);
                assert(entries(v@) =~= before.push(e@));
            },
            None => {},
        }
        i += 1;
    }
    assert(ls.take(ls.len() as int) =~= ls);
    v
}

/// What is known of a member's esp.
pub enum EspId {
    /// The esp is not there.
    Absent,
    /// Its partition has no readable guid.
    Unknown,
    /// The guid of its partition, as it is read.
    Partuuid(String),
}

/// The guid of a member's esp partition, in lower case.
pub open spec fn guid_at(ids: Seq<EspId>, i: int) -> Option<Seq<char>> {
    if 0 <= i < ids.len() {
        match ids[i] {
            EspId::Partuuid(p) => Some(lowercase(p@)),
            _ => None,
        }
    } else {
        None
    }
}

fn nth_guid(ids: &Vec<EspId>, i: usize) -> (r: Option<String>)
    ensures
        opt_text(r) == guid_at(ids@, i as int),
{
    if i < ids.len() {
        match &ids[i] {
            EspId::Partuuid(p) => Some(to_lower(p.as_str())),
            _ => None,
        }
    } else {
        None
    }
}

/// Whether an entry loads a debian bootloader from the partition.
pub open spec fn entry_of(e: EntryModel, guid: Seq<char>) -> bool {
    holds(e.desc, guid) && holds(e.desc, DEBIAN_DIR@)
}

/// How many entries load a debian bootloader from the partition; only those that load
/// shim, where `shim` is set.
pub open spec fn entry_count(v: Seq<EntryModel>, guid: Seq<char>, shim: bool) -> nat
    decreases v.len(),
{
    if v.len() == 0 {
        0
    } else {
        entry_count(v.drop_last(), guid, shim) + (if entry_of(v.last(), guid) && (!shim || holds(
            v.last().desc,
            "shimx64.efi"@,
        )) {
            1nat
        } else {
            0nat
        })
    }
}

/// How many entries load a debian bootloader from the partition; only those that load
/// shim, where `shim` is set.
pub fn count_entries(v: &Vec<BootEntry>, guid: &str, shim: bool) -> (r: usize)
    ensures
        r == entry_count(entries(v@), guid@, shim),
{
    let ghost m = entries(v@);
    let mut n: usize = 0;
    let mut i: usize = 0;
    while i < v.len()
        invariant
            n <= i <= v.len(),
            m == entries(v@),
            n == entry_count(m.take(i as int), guid@, shim),
        decreases v.len() - i,
    {
        assert(m.take(i + 1).drop_last() =~= m.take(i as int));
        assert(m.take(i + 1).last() == v@[i as int]@);
        let d = v[i].desc.as_str();
        if contains(d, guid) && contains(d, DEBIAN_DIR) && (!shim || contains(d, "shimx64.efi")) {
            n += 1;
        }
        i += 1;
    }
    assert(m.take(m.len() as int) =~= m);
    n
}

/// What is wrong with the boot entries of a partition, given by its guid in lower case.
pub open spec fn guid_problem(
    disk: Seq<char>,
    v: Seq<EntryModel>,
    guid: Seq<char>,
) -> Option<Seq<char>> {
    if entry_count(v, guid, true) == 0 {
        Some(disk + ": no shim boot entry"@)
    } else if entry_count(v, guid, false) > 1 {
        Some(disk + ": "@ + dec(entry_count(v, guid, false)) + " duplicate/grub entries"@)
    } else {
        None
    }
}

/// What is wrong with the boot entries of a partition, given by its guid in lower case.
pub fn judge_entries(disk: &str, v: &Vec<BootEntry>, guid: &str) -> (r: Option<String>)
    ensures
        opt_text(r) == guid_problem(disk@, entries(v@), guid@),
{
    let all: usize = count_entries(v, guid, false);
    let d = disk.to_owned();
    if count_entries(v, guid, true) == 0 {
        Some(d.concat(": no shim boot entry"))
    } else if all > 1 {
        Some(
            d.concat(": ").concat(decimal(all as u64).as_str()).concat(
                " duplicate/grub entries",
            ),
        )
    } else {
        None
    }
}

/// What is wrong with a member's boot entries. A disk that is not there has none.
pub open spec fn entry_problem(
    layout: LayoutModel,
    disk: Seq<char>,
    v: Seq<EntryModel>,
    ids: Seq<EspId>,
    i: int,
) -> Option<Seq<char>> {
    if !(0 <= i < ids.len()) || ids[i] is Absent {
        None
    } else {
        match guid_at(ids, i) {
            None => Some(disk + ": no partuuid for "@ + layout.part(disk, 1)),
            Some(g) => guid_problem(disk, v, g),
        }
    }
}

/// What is wrong with the boot entries of the first `n` members.
pub open spec fn entry_problems(
    layout: LayoutModel,
    v: Seq<EntryModel>,
    ids: Seq<EspId>,
    n: nat,
) -> Seq<Seq<char>>
    decreases n,
{
    if n == 0 {
        Seq::empty()
    } else {
        let before = entry_problems(layout, v, ids, (n - 1) as nat);
        match entry_problem(layout, layout.members[n - 1], v, ids, n - 1) {
            Some(p) => before.push(p),
            None => before,
        }
    }
}

/// Whether every member has exactly one boot entry that loads shim from its own esp.
pub open spec fn nvram_check(
    layout: LayoutModel,
    out: Option<Seq<char>>,
    ids: Seq<EspId>,
) -> CheckModel {
    match out {
        None => caution(
            "efibootmgr"@,
            "could not read efibootmgr -v (efivars unavailable?)"@,
        ),
        Some(text) => {
            let problems = entry_problems(
                layout,
                lines_entries(lines(text)),
                ids,
                layout.members.len(),
            );
            if problems.len() == 0 {
                pass(
                    "efibootmgr"@,
                    dec(layout.members.len()) + " member(s) have a clean shim boot entry"@,
                )
            } else {
                caution("efibootmgr"@, joined(problems, "; "@)).with_fix(Fix::EfiBootEntries)
            }
        },
    }
}

fn find_problem(layout: &Layout, disk: &str, v: &Vec<BootEntry>, ids: &Vec<EspId>, i: usize) -> (r:
    Option<String>)
    ensures
        opt_text(r) == entry_problem(layout@, disk@, entries(v@), ids@, i as int),
{
    if i >= ids.len() {
        return None;
    }
    match &ids[i] {
        EspId::Absent => {
            return None;
        },
        _ => {},
    }
    match nth_guid(ids, i) {
        None => Some(disk.to_owned().concat(": no partuuid for ").concat(layout.part(disk, 1).as_str())),
        Some(g) => judge_entries(disk, v, g.as_str()),
    }
}

/// Every member has exactly one boot entry that loads shim from its own esp. `out` is
/// the output of `efibootmgr -v`.
pub fn check_efibootmgr(layout: &Layout, out: &Option<String>, ids: &Vec<EspId>) -> (r: Vec<Check>)
    ensures
        checks(r@) == seq![nvram_check(layout@, opt_text(*out), ids@)],
{
    let text = match out {
        Some(t) => t,
        None => {
            return one_check(
                Check::warn("efibootmgr", "could not read efibootmgr -v (efivars unavailable?)"),
            );
        },
    };
    let v = parse_boot_entries(text.as_str());
    let ghost m = entries(v@);
    let mut problems: Vec<String> = Vec::new();
    assert(texts(problems@) =~= Seq::<Seq<char>>::empty());
    let mut i: usize = 0;
    while i < layout.members.len()
        invariant
            i <= layout.members.len(),
            m == entries(v@),
            texts(problems@) == entry_problems(layout@, m, ids@, i as nat),
        decreases layout.members.len() - i,
    {
        assert(layout@.members[i as int] == layout.members@[i as int]@);
        match find_problem(layout, layout.members[i].as_str(), &v, ids, i) {
            Some(p) => {
                push_text(&mut problems, p.as_str());
            },
            None => {},
        }
        i += 1;
    }
    assert(layout@.members.len() == layout.members@.len());
    assert(texts(problems@).len() == problems@.len());
    one_check(
        if problems.len() == 0 {
            Check::ok(
                "efibootmgr",
                decimal(layout.members.len() as u64).concat(
                    " member(s) have a clean shim boot entry",
                ).as_str(),
            )
        } else {
            Check::warn("efibootmgr", join(&problems, "; ").as_str()).with_fix(Fix::EfiBootEntries)
        },
    )
}

// ----------------------------------------------------------------- reconcile

/// Whether an entry loads a debian bootloader from one of the members' partitions.
pub open spec fn is_stale(e: EntryModel, ids: Seq<EspId>, n: nat) -> bool {
    holds(e.desc, DEBIAN_DIR@) && exists|i: int|
        0 <= i < n && #[trigger] guid_at(ids, i) is Some && holds(e.desc, guid_at(ids, i)->0)
}

/// The number of an entry that is to be deleted.
pub open spec fn stale_number(e: EntryModel, ids: Seq<EspId>, n: nat) -> Option<Seq<char>> {
    if is_stale(e, ids, n) {
        Some(e.num)
    } else {
        None
    }
}

/// The members that are to be registered: those whose partition has a guid.
pub open spec fn registered(members: Seq<Seq<char>>, ids: Seq<EspId>) -> Seq<Seq<char>>
    decreases members.len(),
{
    if members.len() == 0 {
        Seq::empty()
    } else if guid_at(ids, members.len() - 1) is Some {
        registered(members.drop_last(), ids).push(members.last())
    } else {
        registered(members.drop_last(), ids)
    }
}

/// The boot entries to delete and the members to register, so that each member has one
/// clean shim entry.
pub struct NvramPlan {
    pub delete: Vec<String>,
    pub register: Vec<String>,
}

/// The numbers of the entries that are to be deleted: those that load a debian
/// bootloader from a member's partition. All others stay.
pub open spec fn deleted(v: Seq<EntryModel>, ids: Seq<EspId>, n: nat) -> Seq<Seq<char>> {
    collected(v, |e: EntryModel| stale_number(e, ids, n))
}

/// Whether an entry loads a debian bootloader from one of the members' partitions.
pub fn stale(e: &BootEntry, ids: &Vec<EspId>, n: usize) -> (r: bool)
    ensures
        r == is_stale(e@, ids@, n as nat),
{
    if !contains(e.desc.as_str(), DEBIAN_DIR) {
        return false;
    }
    let mut i: usize = 0;
    while i < n
        invariant
            i <= n,
            holds(e@.desc, DEBIAN_DIR@),
            forall|k: int|
                0 <= k < i && #[trigger] guid_at(ids@, k) is Some ==> !holds(
                    e@.desc,
                    guid_at(ids@, k)->0,
                ),
        decreases n - i,
    {
        match nth_guid(ids, i) {
            Some(g) => {
                if contains(e.desc.as_str(), g.as_str()) {
                    assert(guid_at(ids@, i as int) is Some);
                    return true;
                }
            },
            None => {},
        }
        i += 1;
    }
    false
}

/// Resolves what is to be deleted and registered. None where the entries could not be
/// read.
pub fn efibootmgr_plan(layout: &Layout, out: &Option<String>, ids: &Vec<EspId>) -> (r: Option<
    NvramPlan,
>)
    ensures
        r is Some <==> *out is Some,
        r is Some ==> texts(r->0.delete@) == deleted(
            lines_entries(lines(out->0@)),
            ids@,
            layout@.members.len(),
        ),
        r is Some ==> texts(r->0.register@) == registered(layout@.members, ids@),
{
    let text = match out {
        Some(t) => t,
        None => {
            return None;
        },
    };
    let v = parse_boot_entries(text.as_str());
    let ghost m = entries(v@);
    let ghost members = layout@.members;
    let ghost f = |e: EntryModel| stale_number(e, ids@, members.len());
    let mut delete: Vec<String> = Vec::new();
    assert(texts(delete@) =~= Seq::<Seq<char>>::empty());
    assert(members.len() == layout.members@.len());
    let mut i: usize = 0;
    while i < v.len()
        invariant
            i <= v.len(),
            m == entries(v@),
            members == layout@.members,
            members.len() == layout.members@.len(),
            f == (|e: EntryModel| stale_number(e, ids@, members.len())),
            texts(delete@) == collected(m.take(i as int), f),
        decreases v.len() - i,
    {
        assert(m.take(i + 1).drop_last() =~= m.take(i as int));
        assert(m.take(i + 1).last() == v@[i as int]@);
        if stale(&v[i], ids, layout.members.len()) {
            push_text(&mut delete, v[i].num.as_str());
        }
        i += 1;
    }
    assert(m.take(m.len() as int) =~= m);
    let mut register: Vec<String> = Vec::new();
    assert(texts(register@) =~= Seq::<Seq<char>>::empty());
    let mut k: usize = 0;
    while k < layout.members.len()
        invariant
            k <= layout.members.len(),
            members == layout@.members,
            texts(register@) == registered(members.take(k as int), ids@),
        decreases layout.members.len() - k,
    {
        assert(members.take(k + 1).drop_last() =~= members.take(k as int));
        assert(members.take(k + 1).last() == layout.members@[k as int]@);
        if nth_guid(ids, k).is_some() {
            push_text(&mut register, layout.members[k].as_str());
        }
        k += 1;
    }
    assert(members.take(members.len() as int) =~= members);
    Some(NvramPlan { delete, register })
}

/// An entry that does not load a debian bootloader from a member's partition (another
/// system, the removable fallback) is never deleted: what is deleted is the number of
/// a stale entry.
pub proof fn only_stale_entries_are_deleted(
    v: Seq<EntryModel>,
    ids: Seq<EspId>,
    n: nat,
    x: Seq<char>,
)
    ensures
        deleted(v, ids, n).contains(x) <==> exists|i: int|
            0 <= i < v.len() && #[trigger] v[i].num == x && is_stale(v[i], ids, n),
    decreases v.len(),
{
    if v.len() > 0 {
        let rest = v.drop_last();
        only_stale_entries_are_deleted(rest, ids, n, x);
        let all = deleted(v, ids, n);
        let before = deleted(rest, ids, n);
        if before.contains(x) {
            let k = choose|k: int| 0 <= k < before.len() && before[k] == x;
            assert(all[k] == x);
            let i = choose|i: int|
                0 <= i < rest.len() && #[trigger] rest[i].num == x && is_stale(rest[i], ids, n);
            assert(v[i].num == x);
        }
        if v.last().num == x && is_stale(v.last(), ids, n) {
            assert(all[all.len() - 1] == x);
            assert(v[v.len() - 1].num == x);
        }
        if exists|i: int| 0 <= i < v.len() && #[trigger] v[i].num == x && is_stale(v[i], ids, n) {
            let i = choose|i: int|
                0 <= i < v.len() && #[trigger] v[i].num == x && is_stale(v[i], ids, n);
            if i < rest.len() {
                assert(rest[i].num == x);
            }
        }
        if all.contains(x) && !before.contains(x) {
            let k = choose|k: int| 0 <= k < all.len() && all[k] == x;
            if k < before.len() {
                assert(before[k] == x);
            }
        }
    }
}

/// The entries that a reconciliation keeps.
pub open spec fn kept(v: Seq<EntryModel>, ids: Seq<EspId>, n: nat) -> Seq<EntryModel>
    decreases v.len(),
{
    if v.len() == 0 {
        Seq::empty()
    } else if is_stale(v.last(), ids, n) {
        kept(v.drop_last(), ids, n)
    } else {
        kept(v.drop_last(), ids, n).push(v.last())
    }
}

proof fn no_entry_is_kept(v: Seq<EntryModel>, ids: Seq<EspId>, n: nat, i: int, shim: bool)
    requires
        0 <= i < n,
        guid_at(ids, i) is Some,
    ensures
        entry_count(kept(v, ids, n), guid_at(ids, i)->0, shim) == 0,
    decreases v.len(),
{
    if v.len() > 0 {
        let rest = v.drop_last();
        no_entry_is_kept(rest, ids, n, i, shim);
        if !is_stale(v.last(), ids, n) {
            assert(kept(v, ids, n).drop_last() =~= kept(rest, ids, n));
            assert(!entry_of(v.last(), guid_at(ids, i)->0));
        }
    }
}

proof fn one_entry_is_counted(
    kept: Seq<EntryModel>,
    more: Seq<EntryModel>,
    guid: Seq<char>,
    j: int,
    shim: bool,
)
    requires
        entry_count(kept, guid, shim) == 0,
        0 <= j < more.len(),
        entry_of(more[j], guid),
        holds(more[j].desc, "shimx64.efi"@),
        forall|k: int| 0 <= k < more.len() && k != j ==> !entry_of(#[trigger] more[k], guid),
    ensures
        entry_count(kept + more, guid, shim) == 1,
    decreases more.len(),
{
    let all = kept + more;
    let rest = more.drop_last();
    assert(all.drop_last() =~= kept + rest);
    assert(all.last() == more.last());
    if j < rest.len() {
        assert(!entry_of(more[more.len() - 1], guid));
        assert forall|k: int| 0 <= k < rest.len() && k != j implies !entry_of(
            #[trigger] rest[k],
            guid,
        ) by {
            assert(rest[k] == more[k]);
        }
        assert(rest[j] == more[j]);
        one_entry_is_counted(kept, rest, guid, j, shim);
    } else {
        none_is_counted(kept, rest, guid, shim);
    }
}

proof fn none_is_counted(
    kept: Seq<EntryModel>,
    more: Seq<EntryModel>,
    guid: Seq<char>,
    shim: bool,
)
    requires
        entry_count(kept, guid, shim) == 0,
        forall|k: int| 0 <= k < more.len() ==> !entry_of(#[trigger] more[k], guid),
    ensures
        entry_count(kept + more, guid, shim) == 0,
    decreases more.len(),
{
    let all = kept + more;
    if more.len() == 0 {
        assert(all =~= kept);
    } else {
        let rest = more.drop_last();
        assert(all.drop_last() =~= kept + rest);
        assert(!entry_of(more[more.len() - 1], guid));
        assert forall|k: int| 0 <= k < rest.len() implies !entry_of(#[trigger] rest[k], guid) by {
            assert(rest[k] == more[k]);
        }
        none_is_counted(kept, rest, guid, shim);
    }
}

/// A reconciliation converges: once the stale entries are gone and each member is
/// registered once, by an entry that loads shim from its own esp, nothing is wrong with
/// the entries of a member.
pub proof fn a_reconciled_member_is_clean(
    disk: Seq<char>,
    v: Seq<EntryModel>,
    more: Seq<EntryModel>,
    ids: Seq<EspId>,
    n: nat,
    i: int,
    j: int,
)
    requires
        0 <= i < n,
        guid_at(ids, i) is Some,
        0 <= j < more.len(),
        entry_of(more[j], guid_at(ids, i)->0),
        holds(more[j].desc, "shimx64.efi"@),
        forall|k: int|
            0 <= k < more.len() && k != j ==> !entry_of(#[trigger] more[k], guid_at(ids, i)->0),
    ensures
        guid_problem(disk, kept(v, ids, n) + more, guid_at(ids, i)->0) is None,
{
    let guid = guid_at(ids, i)->0;
    no_entry_is_kept(v, ids, n, i, true);
    no_entry_is_kept(v, ids, n, i, false);
    one_entry_is_counted(kept(v, ids, n), more, guid, j, true);
    one_entry_is_counted(kept(v, ids, n), more, guid, j, false);
}

/// The command that deletes a boot entry.
pub open spec fn delete_words(num: Seq<char>) -> Seq<Seq<char>> {
    seq!["efibootmgr"@].push("-b"@).push(num).push("-B"@)
}

/// The commands that reconcile the entries: the deletions, then the registrations in
/// reverse, so that the first member comes first in the boot order.
pub open spec fn reconcile_words(delete: Seq<Seq<char>>, register: Seq<Seq<char>>) -> Seq<
    Seq<Seq<char>>,
> {
    delete.map_values(|n: Seq<char>| delete_words(n)) + Seq::new(
        register.len(),
        |i: int| register_words(register[register.len() - 1 - i]),
    )
}

/// The contents of a list of commands.
pub open spec fn argvs(v: Seq<Vec<String>>) -> Seq<Seq<Seq<char>>> {
    v.map_values(|a: Vec<String>| texts(a@))
}

/// The commands that reconcile the entries, in order.
pub fn efibootmgr_commands(plan: &NvramPlan) -> (r: Vec<Vec<String>>)
    ensures
        argvs(r@) == reconcile_words(texts(plan.delete@), texts(plan.register@)),
{
    let ghost d = texts(plan.delete@);
    let ghost g = texts(plan.register@);
    let ghost first = d.map_values(|n: Seq<char>| delete_words(n));
    let ghost second = Seq::new(g.len(), |i: int| register_words(g[g.len() - 1 - i]));
    let mut out: Vec<Vec<String>> = Vec::new();
    let mut i: usize = 0;
    while i < plan.delete.len()
        invariant
            i <= plan.delete.len(),
            d == texts(plan.delete@),
            first == d.map_values(|n: Seq<char>| delete_words(n)),
            argvs(out@) =~= first.take(i as int),
        decreases plan.delete.len() - i,
    {
        let ghost before = out@;
        let a = cmd("efibootmgr").arg("-b").arg(plan.delete[i].as_str()).arg("-B");
        out.push(a);
        assert(argvs(out@) =~= argvs(before).push(texts(a@)));
        assert(first[i as int] == texts(a@));
        i += 1;
    }
    assert(first.take(first.len() as int) =~= first);
    let n: usize = plan.register.len();
    let mut k: usize = 0;
    while k < n
        invariant
            k <= n,
            n == plan.register@.len(),
            g == texts(plan.register@),
            second == Seq::new(g.len(), |i: int| register_words(g[g.len() - 1 - i])),
            argvs(out@) =~= first + second.take(k as int),
        decreases n - k,
    {
        let ghost before = out@;
        let a = register_argv(plan.register[n - 1 - k].as_str());
        assert(g[n - 1 - k] == plan.register@[n - 1 - k]@);
        out.push(a);
        assert(argvs(out@) =~= argvs(before).push(texts(a@)));
        assert(second[k as int] == texts(a@));
        k += 1;
    }
    assert(second.take(second.len() as int) =~= second);
    out
}

/// The preview of a reconcile: each command on a line, the deletions with a remark.
pub open spec fn reconcile_lines(delete: Seq<Seq<char>>, register: Seq<Seq<char>>) -> Seq<
    Seq<char>,
> {
    if delete.len() == 0 && register.len() == 0 {
        seq!["(nothing to do: every member has a clean shim entry)"@]
    } else {
        delete.map_values(
            |n: Seq<char>| "efibootmgr -b "@ + n + " -B   # remove stale/duplicate entry"@,
        ) + Seq::new(
            register.len(),
            |i: int| joined(register_words(register[register.len() - 1 - i]), " "@),
        )
    }
}

/// The preview of a reconcile.
pub fn reconcile_preview(plan: &NvramPlan) -> (r: Vec<String>)
    ensures
        texts(r@) == reconcile_lines(texts(plan.delete@), texts(plan.register@)),
{
    let ghost d = texts(plan.delete@);
    let ghost g = texts(plan.register@);
    let ghost first = d.map_values(
        |n: Seq<char>| "efibootmgr -b "@ + n + " -B   # remove stale/duplicate entry"@,
    );
    let ghost second = Seq::new(g.len(), |i: int| joined(register_words(g[g.len() - 1 - i]), " "@));
    assert(d.len() == plan.delete@.len() && g.len() == plan.register@.len());
    if plan.delete.len() == 0 && plan.register.len() == 0 {
        return cmd("(nothing to do: every member has a clean shim entry)");
    }
    let mut out: Vec<String> = Vec::new();
    let mut i: usize = 0;
    while i < plan.delete.len()
        invariant
            i <= plan.delete.len(),
            d == texts(plan.delete@),
            first == d.map_values(
                |n: Seq<char>| "efibootmgr -b "@ + n + " -B   # remove stale/duplicate entry"@,
            ),
            texts(out@) =~= first.take(i as int),
        decreases plan.delete.len() - i,
    {
        let line = "efibootmgr -b ".to_owned().concat(plan.delete[i].as_str()).concat(
            " -B   # remove stale/duplicate entry",
        );
        push_text(&mut out, line.as_str());
        assert(first[i as int] == line@);
        i += 1;
    }
    assert(first.take(first.len() as int) =~= first);
    let n: usize = plan.register.len();
    let mut k: usize = 0;
    while k < n
        invariant
            k <= n,
            n == plan.register@.len(),
            g == texts(plan.register@),
            second == Seq::new(
                g.len(),
                |i: int| joined(register_words(g[g.len() - 1 - i]), " "@),
            ),
            texts(out@) =~= first + second.take(k as int),
        decreases n - k,
    {
        let a = register_argv(plan.register[n - 1 - k].as_str());
        assert(g[n - 1 - k] == plan.register@[n - 1 - k]@);
        push_text(&mut out, join(&a, " ").as_str());
        k += 1;
    }
    assert(second.take(second.len() as int) =~= second);
    out
}

// ------------------------------------------------------------------- debconf

/// A text without the asterisks and blanks at its start.
pub open spec fn without_marks(s: Seq<char>) -> Seq<char>
    decreases s.len(),
{
    if s.len() > 0 && (s[0] == '*' || s[0] == ' ') {
        without_marks(s.skip(1))
    } else {
        s
    }
}

/// The position of the first colon, or the length of the text.
pub open spec fn first_colon(s: Seq<char>) -> int
    decreases s.len(),
{
    if s.len() == 0 || s[0] == ':' {
        0
    } else {
        1 + first_colon(s.skip(1))
    }
}

/// The value that a line of `debconf-show` gives for a key ("* key: value").
pub open spec fn line_value(line: Seq<char>, key: Seq<char>) -> Option<Seq<char>> {
    let l = without_marks(line);
    let c = first_colon(l);
    if c < l.len() && trimmed(l.take(c)) == key {
        Some(trimmed(l.skip(c + 1)))
    } else {
        None
    }
}

fn split_line(line: &str) -> (r: Option<(String, String)>)
    ensures
        ({
            let l = without_marks(line@);
            let c = first_colon(l);
            match r {
                Some((k, v)) => c < l.len() && k@ == trimmed(l.take(c)) && v@ == trimmed(
                    l.skip(c + 1),
                ),
                None => c >= l.len(),
            }
        }),
{
    let v = to_chars(line);
    let mut from: usize = 0;
    assert(v@.subrange(0, v@.len() as int) =~= line@);
    while from < v.len() && (v[from] == '*' || v[from] == ' ')
        invariant
            from <= v@.len(),
            without_marks(v@.subrange(from as int, v@.len() as int)) == without_marks(line@),
        decreases v@.len() - from,
    {
        assert(v@.subrange(from as int, v@.len() as int).skip(1) =~= v@.subrange(
            from + 1,
            v@.len() as int,
        ));
        from += 1;
    }
    let ghost l = v@.subrange(from as int, v@.len() as int);
    let mut at: usize = from;
    assert(l.skip(0) =~= l);
    while at < v.len() && v[at] != ':'
        invariant
            from <= at <= v@.len(),
            l == v@.subrange(from as int, v@.len() as int),
            first_colon(l) == (at - from) + first_colon(l.skip(at - from)),
        decreases v@.len() - at,
    {
        assert(l.skip(at - from)[0] == v@[at as int]);
        assert(l.skip(at - from).skip(1) =~= l.skip(at + 1 - from));
        at += 1;
    }
    if at == v.len() {
        assert(l.skip(at - from).len() == 0);
        return None;
    }
    assert(l.skip(at - from)[0] == v@[at as int]);
    assert(l.take(at - from) =~= v@.subrange(from as int, at as int));
    assert(l.skip(at - from + 1) =~= v@.subrange(at + 1, v@.len() as int));
    Some(
        (
            trim(slice_string(&v, from, at).as_str()),
            trim(slice_string(&v, at + 1, v.len()).as_str()),
        ),
    )
}

/// The value of a key in the output of `debconf-show`.
pub fn debconf_value(show_out: &str, key: &str) -> (r: Option<String>)
    ensures
        opt_text(r) == found(lines(show_out@), |l: Seq<char>| line_value(l, key@)),
{
    let all = split_lines(show_out);
    let ghost ls = texts(all@);
    let ghost f = |l: Seq<char>| line_value(l, key@);
    let mut i: usize = 0;
    while i < all.len()
        invariant
            i <= all.len(),
            ls == texts(all@),
            ls == lines(show_out@),
            f == (|l: Seq<char>| line_value(l, key@)),
            forall|k: int| 0 <= k < i ==> f(#[trigger] ls[k]) is None,
        decreases all.len() - i,
    {
        assert(ls[i as int] == all@[i as int]@);
        match split_line(all[i].as_str()) {
            Some((k, v)) => {
                if same(k.as_str(), key) {
                    proof {
                        found_at(ls, f, i as int);
                    }
                    return Some(v);
                }
            },
            None => {},
        }
        i += 1;
    }
    proof {
        found_at(ls, f, ls.len() as int);
    }
    None
}

/// What is said of a key whose value is not the one that is wanted.
pub open spec fn mismatch(
    show_out: Seq<char>,
    key: Seq<char>,
    want: Seq<char>,
) -> Option<Seq<char>> {
    let got = found(lines(show_out), |l: Seq<char>| line_value(l, key));
    if got == Some(want) {
        None
    } else {
        Some(
            key + "="@ + (match got {
                Some(v) => v,
                None => "unset"@,
            }) + " (want "@ + want + ")"@,
        )
    }
}

/// The keys whose value is not the one that is owned here.
pub open spec fn mismatches(show_out: Seq<char>) -> Seq<Seq<char>> {
    collected(debconf_keys(), |p: (Seq<char>, Seq<char>)| mismatch(show_out, p.0, p.1))
}

fn find_mismatch(show_out: &str, key: &str, want: &str) -> (r: Option<String>)
    ensures
        opt_text(r) == mismatch(show_out@, key@, want@),
{
    let got = debconf_value(show_out, key);
    let right = match &got {
        Some(v) => same(v.as_str(), want),
        None => false,
    };
    if right {
        return None;
    }
    let shown = match got {
        Some(v) => v,
        None => "unset".to_owned(),
    };
    Some(
        key.to_owned().concat("=").concat(shown.as_str()).concat(" (want ").concat(want).concat(
            ")",
        ),
    )
}

/// The keys of grub-efi whose shown value is not the one that is owned here.
pub fn debconf_mismatches(show_out: &str) -> (r: Vec<String>)
    ensures
        texts(r@) == mismatches(show_out@),
{
    let ghost m = debconf_keys();
    let ghost f = |p: (Seq<char>, Seq<char>)| mismatch(show_out@, p.0, p.1);
    let mut out: Vec<String> = Vec::new();
    assert(texts(out@) =~= Seq::<Seq<char>>::empty());
    let mut i: usize = 0;
    while i < GRUB_DEBCONF.len()
        invariant
            i <= GRUB_DEBCONF.len(),
            m == debconf_keys(),
            m.len() == 2,
            f == (|p: (Seq<char>, Seq<char>)| mismatch(show_out@, p.0, p.1)),
            texts(out@) == collected(m.take(i as int), f),
        decreases GRUB_DEBCONF.len() - i,
    {
        assert(m.take(i + 1).drop_last() =~= m.take(i as int));
        let (key, want) = GRUB_DEBCONF[i];
        assert(m[i as int] == (key@, want@));
        assert(m.take(i + 1).last() == (key@, want@));
        match find_mismatch(show_out, key, want) {
            Some(s) => {
                push_text(&mut out, s.as_str());
            },
            None => {},
        }
        i += 1;
    }
    assert(m.take(m.len() as int) =~= m);
    out
}

/// Whether the debconf values of grub-efi are the ones that are owned here.
pub open spec fn debconf_check(shown: Report) -> CheckModel {
    match shown {
        Report::Printed(text) => {
            let wrong = mismatches(text@);
            if wrong.len() == 0 {
                pass("debconf"@, "grub-efi debconf keys as raiden owns them"@)
            } else {
                caution("debconf"@, joined(wrong, "; "@)).with_fix(Fix::Debconf)
            }
        },
        Report::Failed => caution("debconf"@, "could not read debconf-show "@ + GRUB_PKG@),
    }
}

/// The debconf values of grub-efi are the ones that are owned here.
pub fn check_debconf(shown: &Report) -> (r: Vec<Check>)
    ensures
        checks(r@) == seq![debconf_check(*shown)],
{
    one_check(
        match shown {
            Report::Printed(text) => {
                let wrong = debconf_mismatches(text.as_str());
                assert(texts(wrong@).len() == wrong@.len());
                if wrong.len() == 0 {
                    Check::ok("debconf", "grub-efi debconf keys as raiden owns them")
                } else {
                    Check::warn("debconf", join(&wrong, "; ").as_str()).with_fix(Fix::Debconf)
                }
            },
            Report::Failed => Check::warn(
                "debconf",
                "could not read debconf-show ".to_owned().concat(GRUB_PKG).as_str(),
            ),
        },
    )
}

/// The preview of the commands that set the debconf values.
pub open spec fn debconf_lines() -> Seq<Seq<char>> {
    debconf_keys().map_values(
        |p: (Seq<char>, Seq<char>)|
            "echo '"@ + GRUB_PKG@ + " "@ + p.0 + " boolean "@ + p.1
                + "' | debconf-set-selections"@,
    )
}

/// The preview of the commands that set the debconf values.
pub fn debconf_commands() -> (r: Vec<String>)
    ensures
        texts(r@) == debconf_lines(),
{
    let ghost want = debconf_lines();
    let ghost m = debconf_keys();
    let mut out: Vec<String> = Vec::new();
    let mut i: usize = 0;
    while i < GRUB_DEBCONF.len()
        invariant
            i <= GRUB_DEBCONF.len(),
            m == debconf_keys(),
            want == debconf_lines(),
            texts(out@) =~= want.take(i as int),
        decreases GRUB_DEBCONF.len() - i,
    {
        let (key, value) = GRUB_DEBCONF[i];
        assert(m[i as int] == (key@, value@));
        let line = "echo '".to_owned().concat(GRUB_PKG).concat(" ").concat(key).concat(
            " boolean ",
        ).concat(value).concat("' | debconf-set-selections");
        assert(want[i as int] == line@);
        push_text(&mut out, line.as_str());
        i += 1;
    }
    assert(want.take(want.len() as int) =~= want);
    out
}

/// An entry is pruned exactly where it boots debian from the esp of a member whose
/// partition is known.
pub proof fn what_is_pruned(
    v: Seq<EntryModel>,
    ids: Seq<EspId>,
    n: nat,
    x: Seq<char>,
)
    ensures
        deleted(v, ids, n).contains(x) <==> exists|i: int|
            0 <= i < v.len() && #[trigger] v[i].num == x && holds(v[i].desc, "\\efi\\debian\\"@)
                && exists|k: int|
                0 <= k < n && k < ids.len() && (#[trigger] ids[k]) is Partuuid && holds(
                    v[i].desc,
                    lowercase(ids[k]->Partuuid_0@),
                ),
{
    only_stale_entries_are_deleted(v, ids, n, x);
    assert forall|i: int| 0 <= i < v.len() implies (is_stale(#[trigger] v[i], ids, n) <==> holds(
        v[i].desc,
        "\\efi\\debian\\"@,
    ) && exists|k: int|
        0 <= k < n && k < ids.len() && (#[trigger] ids[k]) is Partuuid && holds(
            v[i].desc,
            lowercase(ids[k]->Partuuid_0@),
        )) by {
        if is_stale(v[i], ids, n) {
            let k = choose|k: int|
                0 <= k < n && #[trigger] guid_at(ids, k) is Some && holds(
                    v[i].desc,
                    guid_at(ids, k)->0,
                );
            assert(ids[k] is Partuuid);
        }
        if exists|k: int|
            0 <= k < n && k < ids.len() && (#[trigger] ids[k]) is Partuuid && holds(
                v[i].desc,
                lowercase(ids[k]->Partuuid_0@),
            ) {
            let k = choose|k: int|
                0 <= k < n && k < ids.len() && (#[trigger] ids[k]) is Partuuid && holds(
                    v[i].desc,
                    lowercase(ids[k]->Partuuid_0@),
                );
            assert(guid_at(ids, k) is Some);
        }
    }
}

/// Every member whose partition is known is registered, and no other.
pub proof fn who_is_registered(members: Seq<Seq<char>>, ids: Seq<EspId>, d: Seq<char>)
    ensures
        registered(members, ids).contains(d) <==> exists|k: int|
            0 <= k < members.len() && k < ids.len() && #[trigger] members[k] == d && ids[k]
                is Partuuid,
    decreases members.len(),
{
    if members.len() > 0 {
        let rest = members.drop_last();
        who_is_registered(rest, ids, d);
        let before = registered(rest, ids);
        let all = registered(members, ids);
        let m = members.len() - 1;
        assert(members[m] == members.last());
        if before.contains(d) {
            let j = choose|j: int| 0 <= j < before.len() && before[j] == d;
            assert(all[j] == d);
            let k = choose|k: int|
                0 <= k < rest.len() && k < ids.len() && #[trigger] rest[k] == d && ids[k]
                    is Partuuid;
            assert(members[k] == d);
        }
        if guid_at(ids, m) is Some {
            assert(all[all.len() - 1] == members.last());
        }
        if all.contains(d) && !before.contains(d) {
            let j = choose|j: int| 0 <= j < all.len() && all[j] == d;
            if j < before.len() {
                assert(before[j] == d);
            }
            assert(members[m] == d && ids[m] is Partuuid);
        }
        if exists|k: int|
            0 <= k < members.len() && k < ids.len() && #[trigger] members[k] == d && ids[k]
                is Partuuid {
            let k = choose|k: int|
                0 <= k < members.len() && k < ids.len() && #[trigger] members[k] == d && ids[k]
                    is Partuuid;
            if k < rest.len() {
                assert(rest[k] == d);
            } else {
                assert(guid_at(ids, m) is Some);
            }
        }
    }
}

/// A reconciliation prunes before it registers, and registers the first member last, so
/// that the firmware tries it first.
pub proof fn a_reconciliation_prunes_first(
    delete: Seq<Seq<char>>,
    register: Seq<Seq<char>>,
    i: int,
)
    ensures
        reconcile_words(delete, register).len() == delete.len() + register.len(),
        0 <= i < delete.len() ==> reconcile_words(delete, register)[i] == seq![
            "efibootmgr"@,
            "-b"@,
            delete[i],
            "-B"@,
        ],
        0 <= i < register.len() ==> reconcile_words(delete, register)[delete.len()
            + register.len() - 1 - i] == register_words(register[i]),
{
    if 0 <= i < delete.len() {
        assert(delete_words(delete[i]) =~= seq!["efibootmgr"@, "-b"@, delete[i], "-B"@]);
    }
}

} // verus!
