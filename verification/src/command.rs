//! The decisions of the commands: what may run, on which configuration, over which phases
//! and disks, with which password.
use vstd::prelude::*;
use vstd::string::*;

use crate::config::{disk_list, split_disks, Config, ConfigModel};
use crate::layout::{Layout, LayoutModel, BOOT_MD_DEVICE, ESP_MOUNT};
use crate::manifest::{BOOT_MIRROR_PATH, DEFAULT_PATH};
use crate::ops::ReplaceParts;
use crate::prompt::{strip_line_end, without_line_end};
use crate::step::{phases, Phase, PhaseModel};
use crate::text::{
    cmd, copy_texts, dec, decimal, has_prefix, holds, join, joined, lists, opt_text, opt_texts,
    push_text, same, show_text, shown_text, stands_at, texts, ArgList,
};

verus! {

// ------------------------------------------------------------------- install

/// Whether a command that only makes sense on an installed system may go on: it has a
/// manifest there, or it only previews a plan.
pub fn require_installed(dry_run: bool, manifest: bool) -> (r: bool)
    ensures
        r == (dry_run || manifest),
{
    dry_run || manifest
}

/// Where a command takes its configuration from.
#[derive(Clone, Copy, PartialEq, Eq, Structural, Debug)]
pub enum ConfigSource {
    Manifest,
    File,
}

/// Operations resolve their configuration from the install manifest where there is one,
/// and else from the config file.
pub fn resolve_config(manifest: bool) -> (r: ConfigSource)
    ensures
        r == (if manifest {
            ConfigSource::Manifest
        } else {
            ConfigSource::File
        }),
{
    if manifest {
        ConfigSource::Manifest
    } else {
        ConfigSource::File
    }
}

/// Whether the flags of an install agree: a resumed run takes its phases from the
/// checkpoint.
pub fn phase_flags_agree(resume: bool, from: &Option<String>, only: &Option<String>) -> (r: bool)
    ensures
        r == !(resume && (*from is Some || *only is Some)),
{
    !(resume && (from.is_some() || only.is_some()))
}

/// A phase that the plan does not have.
pub struct UnknownPhase {
    pub name: String,
}

impl UnknownPhase {
    /// What is printed of the error.
    pub fn message(&self) -> (r: String)
        ensures
            r@ == "unknown phase "@ + shown_text(self.name@)
                + "; see `raiden install --list-phases`"@,
    {
        "unknown phase ".to_owned().concat(show_text(self.name.as_str()).as_str()).concat(
            "; see `raiden install --list-phases`",
        )
    }
}

/// The phases of this name.
pub open spec fn phases_named(v: Seq<PhaseModel>, name: Seq<char>) -> Seq<PhaseModel>
    decreases v.len(),
{
    if v.len() == 0 {
        Seq::empty()
    } else if v[0].name == name {
        seq![v[0]] + phases_named(v.skip(1), name)
    } else {
        phases_named(v.skip(1), name)
    }
}

/// The phases from the first of this name on.
pub open spec fn phases_from(v: Seq<PhaseModel>, name: Seq<char>) -> Seq<PhaseModel>
    decreases v.len(),
{
    if v.len() == 0 || v[0].name == name {
        v
    } else {
        phases_from(v.skip(1), name)
    }
}

/// The phases that a run is restricted to.
pub open spec fn restricted(
    v: Seq<PhaseModel>,
    from: Option<Seq<char>>,
    only: Option<Seq<char>>,
) -> Seq<PhaseModel> {
    match only {
        Some(name) => phases_named(v, name),
        None => match from {
            Some(name) => phases_from(v, name),
            None => v,
        },
    }
}

/// The name that no phase has, where the restriction names one.
pub open spec fn unknown_phase(
    v: Seq<PhaseModel>,
    from: Option<Seq<char>>,
    only: Option<Seq<char>>,
) -> Option<Seq<char>> {
    let asked = match only {
        Some(name) => Some(name),
        None => from,
    };
    if asked is Some && restricted(v, from, only).len() == 0 {
        asked
    } else {
        None
    }
}

/// Restricts the install pipeline to a single phase (`only`) or to a suffix (`from`).
pub fn filter_phases(plan: Vec<Phase>, from: &Option<String>, only: &Option<String>) -> (r: Result<
    Vec<Phase>,
    UnknownPhase,
>)
    ensures
        match r {
            Ok(v) => unknown_phase(phases(plan@), opt_text(*from), opt_text(*only)) is None
                && phases(v@) == restricted(phases(plan@), opt_text(*from), opt_text(*only)),
            Err(e) => unknown_phase(phases(plan@), opt_text(*from), opt_text(*only)) == Some(
                e.name@,
            ),
        },
{
    let ghost all = phases(plan@);
    let mut rest = plan;
    match only {
        Some(name) => {
            let mut out: Vec<Phase> = Vec::new();
            assert(phases(out@) + phases_named(all, name@) =~= phases_named(all, name@));
            while rest.len() > 0
                invariant
                    phases(out@) + phases_named(phases(rest@), name@) == phases_named(all, name@),
                decreases rest.len(),
            {
                let ghost before = rest@;
                let ghost kept = phases(out@);
                let p = rest.remove(0);
                assert(phases(rest@) =~= phases(before).skip(1));
                assert(phases(before)[0] == p@);
                if same(p.name.as_str(), name.as_str()) {
                    out.push(p);
                    assert(phases(out@) =~= kept + seq![p@]);
                    assert(phases(out@) + phases_named(phases(rest@), name@) =~= kept + (seq![p@]
                        + phases_named(phases(rest@), name@)));
                }
            }
            assert(phases(out@) =~= phases_named(all, name@));
            if out.len() == 0 {
                Err(UnknownPhase { name: name.clone() })
            } else {
                Ok(out)
            }
        },
        None => match from {
            Some(name) => {
                while rest.len() > 0 && !same(rest[0].name.as_str(), name.as_str())
                    invariant
                        phases_from(phases(rest@), name@) == phases_from(all, name@),
                    decreases rest.len(),
                {
                    let ghost before = rest@;
                    assert(phases(before)[0] == before[0]@);
                    let p = rest.remove(0);
                    assert(phases(rest@) =~= phases(before).skip(1));
                }
                assert(rest@.len() > 0 ==> phases(rest@)[0] == rest@[0]@);
                assert(phases(rest@).len() == rest@.len());
                if rest.len() == 0 {
                    Err(UnknownPhase { name: name.clone() })
                } else {
                    Ok(rest)
                }
            },
            None => Ok(rest),
        },
    }
}

/// Starting from a phase leaves out what comes before it and nothing else.
pub proof fn starting_from_a_phase_keeps_a_suffix(v: Seq<PhaseModel>, name: Seq<char>) -> (k: int)
    ensures
        0 <= k <= v.len(),
        phases_from(v, name) == v.skip(k),
        forall|i: int| 0 <= i < k ==> (#[trigger] v[i]).name != name,
        k < v.len() ==> v[k].name == name,
    decreases v.len(),
{
    if v.len() == 0 || v[0].name == name {
        assert(v.skip(0) =~= v);
        0
    } else {
        let k = starting_from_a_phase_keeps_a_suffix(v.skip(1), name);
        assert(v.skip(1).skip(k) =~= v.skip(k + 1));
        assert forall|i: int| 0 <= i < k + 1 implies (#[trigger] v[i]).name != name by {
            if i > 0 {
                assert(v.skip(1)[i - 1] == v[i]);
            }
        }
        if k + 1 < v.len() {
            assert(v.skip(1)[k] == v[k + 1]);
        }
        k + 1
    }
}

/// Whether the root password is set to the disk password without asking: where the
/// password comes from a file or from the environment.
pub fn auto_root_password(password_file: &Option<String>, env: &Option<String>) -> (r: bool)
    ensures
        r == (*password_file is Some || (*env is Some && env->0@.len() > 0)),
{
    password_file.is_some() || (match env {
        Some(v) => !v.as_str().is_empty(),
        None => false,
    })
}

/// The warning before an install erases the member disks.
pub open spec fn install_warning_text(c: ConfigModel) -> Seq<Seq<char>> {
    seq!["WARNING: install will ERASE all data on: "@ + joined(c.disks.members, ", "@)].push(
        "  stack "@ + c.raid.stack + " level "@ + c.raid.level + " ("@ + c.crypt.cipher + ")"@,
    )
}

/// The warning before an install erases the member disks, naming them.
pub fn install_warning(cfg: &Config) -> (r: Vec<String>)
    ensures
        texts(r@) == install_warning_text(cfg@),
{
    cmd(
        "WARNING: install will ERASE all data on: ".to_owned().concat(
            join(&cfg.disks.members, ", ").as_str(),
        ).as_str(),
    ).arg(
        "  stack ".to_owned().concat(cfg.raid.stack.as_str()).concat(" level ").concat(
            cfg.raid.level.as_str(),
        ).concat(" (").concat(cfg.crypt.cipher.as_str()).concat(")").as_str(),
    )
}

/// Whether an operation on the installed system is to be confirmed: one that takes disks
/// out of service or rebuilds them.
pub fn needs_confirmation(op: &str, yes: bool) -> (r: bool)
    ensures
        r == ((op@ == "replace"@ || op@ == "remove"@) && !yes),
{
    (same(op, "replace") || same(op, "remove")) && !yes
}

/// Whether an install is to be confirmed. A resumed run was confirmed before.
pub fn install_needs_confirmation(yes: bool, resume: bool) -> (r: bool)
    ensures
        r == (!yes && !resume),
{
    !yes && !resume
}

/// The warning before another destructive operation.
pub fn destructive_warning(op: &str) -> (r: String)
    ensures
        r@ == "WARNING: "@ + op@
            + " is destructive and can erase data on the configured disks."@,
{
    "WARNING: ".to_owned().concat(op).concat(
        " is destructive and can erase data on the configured disks.",
    )
}

/// Where a mount lands: a full one at /mnt, one of /boot alone where it is asked to.
pub fn mount_point(boot: bool, at: &str) -> (r: String)
    ensures
        r@ == (if boot {
            at@
        } else {
            "/mnt"@
        }),
{
    if boot {
        at.to_owned()
    } else {
        "/mnt".to_owned()
    }
}

// ------------------------------------------------------------------ password

/// Where the encryption password comes from.
pub enum PasswordSource {
    /// The text of the password file, its line end stripped.
    Given(String),
    /// A prompt, asked twice where the password is to be verified.
    Prompt { verify: bool },
}

pub enum PasswordModel {
    Given(Seq<char>),
    Prompt { verify: bool },
}

impl View for PasswordSource {
    type V = PasswordModel;

    open spec fn view(&self) -> PasswordModel {
        match self {
            PasswordSource::Given(s) => PasswordModel::Given(s@),
            PasswordSource::Prompt { verify } => PasswordModel::Prompt { verify: *verify },
        }
    }
}

/// Where the password comes from: the file, else the environment, else a prompt. The
/// operations that format a disk with it verify it, for a typo would make a member that
/// does not unlock at boot.
pub open spec fn password_source(
    op: Seq<char>,
    file: Option<Seq<char>>,
    env: Option<Seq<char>>,
) -> PasswordModel {
    match file {
        Some(text) => PasswordModel::Given(without_line_end(text)),
        None => if env is Some && env->0.len() > 0 {
            PasswordModel::Given(env->0)
        } else {
            PasswordModel::Prompt { verify: op == "install"@ || op == "replace"@ }
        },
    }
}

/// Where the password comes from.
pub fn obtain_password(op: &str, file: &Option<String>, env: &Option<String>) -> (r: PasswordSource)
    ensures
        r@ == password_source(op@, opt_text(*file), opt_text(*env)),
{
    match file {
        Some(text) => {
            return PasswordSource::Given(strip_line_end(text.as_str()));
        },
        None => {},
    }
    match env {
        Some(pw) => {
            if !pw.as_str().is_empty() {
                return PasswordSource::Given(pw.clone());
            }
        },
        None => {},
    }
    PasswordSource::Prompt { verify: same(op, "install") || same(op, "replace") }
}

// ---------------------------------------------------------------------- swap

/// Why disks cannot be swapped.
pub enum SwapError {
    /// So many old disks against so many new ones.
    Unpaired(usize, usize),
    /// This old disk is no member.
    NotMember(String),
    /// This new disk is a member already.
    AlreadyMember(String),
}

pub enum SwapFault {
    Unpaired(nat, nat),
    NotMember(Seq<char>),
    AlreadyMember(Seq<char>),
}

impl View for SwapError {
    type V = SwapFault;

    open spec fn view(&self) -> SwapFault {
        match self {
            SwapError::Unpaired(a, b) => SwapFault::Unpaired(*a as nat, *b as nat),
            SwapError::NotMember(d) => SwapFault::NotMember(d@),
            SwapError::AlreadyMember(d) => SwapFault::AlreadyMember(d@),
        }
    }
}

impl SwapFault {
    /// What is printed of the fault.
    pub open spec fn text(self) -> Seq<char> {
        match self {
            SwapFault::Unpaired(a, b) => "--disks has "@ + dec(a) + " entr{y,ies} but --with has "@
                + dec(b) + "; they must pair 1:1"@,
            SwapFault::NotMember(d) => shown_text(d) + " is not a configured member disk"@,
            SwapFault::AlreadyMember(d) => shown_text(d)
                + " is already a member; --with names new disks"@,
        }
    }
}

impl SwapError {
    /// What is printed of the error.
    pub fn message(&self) -> (r: String)
        ensures
            r@ == self@.text(),
    {
        match self {
            SwapError::Unpaired(a, b) => "--disks has ".to_owned().concat(
                decimal(*a as u64).as_str(),
            ).concat(" entr{y,ies} but --with has ").concat(decimal(*b as u64).as_str()).concat(
                "; they must pair 1:1",
            ),
            SwapError::NotMember(d) => show_text(d.as_str()).concat(
                " is not a configured member disk",
            ),
            SwapError::AlreadyMember(d) => show_text(d.as_str()).concat(
                " is already a member; --with names new disks",
            ),
        }
    }
}

/// The first of the disks that is (or is not) a member, or the number of disks.
pub open spec fn first_where(disks: Seq<Seq<char>>, members: Seq<Seq<char>>, member: bool) -> int
    decreases disks.len(),
{
    if disks.len() == 0 || members.contains(disks[0]) == member {
        0
    } else {
        1 + first_where(disks.skip(1), members, member)
    }
}

fn find_where(disks: &Vec<String>, members: &Vec<String>, member: bool) -> (r: usize)
    ensures
        r == first_where(texts(disks@), texts(members@), member),
        r <= disks@.len(),
        r == disks@.len() ==> forall|i: int|
            0 <= i < disks@.len() ==> texts(members@).contains(#[trigger] texts(disks@)[i])
                != member,
{
    let ghost d = texts(disks@);
    let ghost m = texts(members@);
    let mut i: usize = 0;
    assert(d.skip(0) =~= d);
    while i < disks.len()
        invariant
            i <= disks.len(),
            d == texts(disks@),
            m == texts(members@),
            first_where(d, m, member) == i + first_where(d.skip(i as int), m, member),
            forall|k: int| 0 <= k < i ==> m.contains(#[trigger] d[k]) != member,
        decreases disks.len() - i,
    {
        assert(d.skip(i as int)[0] == disks@[i as int]@);
        assert(d.skip(i as int).skip(1) =~= d.skip(i + 1));
        assert(d[i as int] == disks@[i as int]@);
        if lists(members, disks[i].as_str()) == member {
            return i;
        }
        i += 1;
    }
    i
}

/// Why disks cannot be swapped: they do not pair up, an old one is no member, or a new
/// one is a member already (and so may not be one of the old ones either).
pub open spec fn swap_fault(
    members: Seq<Seq<char>>,
    old_disks: Seq<Seq<char>>,
    new_disks: Seq<Seq<char>>,
) -> Option<SwapFault> {
    let stranger = first_where(old_disks, members, false);
    let known = first_where(new_disks, members, true);
    if new_disks.len() != old_disks.len() {
        Some(SwapFault::Unpaired(old_disks.len(), new_disks.len()))
    } else if stranger < old_disks.len() {
        Some(SwapFault::NotMember(old_disks[stranger]))
    } else if known < new_disks.len() {
        Some(SwapFault::AlreadyMember(new_disks[known]))
    } else {
        None
    }
}

/// What takes a member's place: the new disk paired with it, or the member itself where
/// it stays.
pub open spec fn successor(
    m: Seq<char>,
    old_disks: Seq<Seq<char>>,
    new_disks: Seq<Seq<char>>,
) -> Seq<char>
    decreases old_disks.len(),
{
    if old_disks.len() == 0 {
        m
    } else if old_disks[0] == m {
        new_disks[0]
    } else {
        successor(m, old_disks.skip(1), new_disks.skip(1))
    }
}

/// The members after a swap: each old disk replaced by its pair, by position.
pub open spec fn swapped(
    members: Seq<Seq<char>>,
    old_disks: Seq<Seq<char>>,
    new_disks: Seq<Seq<char>>,
) -> Seq<Seq<char>> {
    members.map_values(|m: Seq<char>| successor(m, old_disks, new_disks))
}

fn find_successor(m: &str, old_disks: &Vec<String>, new_disks: &Vec<String>) -> (r: String)
    requires
        old_disks@.len() == new_disks@.len(),
    ensures
        r@ == successor(m@, texts(old_disks@), texts(new_disks@)),
{
    let ghost a = texts(old_disks@);
    let ghost b = texts(new_disks@);
    let mut i: usize = 0;
    assert(a.skip(0) =~= a && b.skip(0) =~= b);
    while i < old_disks.len()
        invariant
            i <= old_disks.len(),
            old_disks@.len() == new_disks@.len(),
            a == texts(old_disks@),
            b == texts(new_disks@),
            successor(m@, a, b) == successor(m@, a.skip(i as int), b.skip(i as int)),
        decreases old_disks.len() - i,
    {
        assert(a.skip(i as int)[0] == old_disks@[i as int]@);
        assert(b.skip(i as int)[0] == new_disks@[i as int]@);
        assert(a.skip(i as int).skip(1) =~= a.skip(i + 1));
        assert(b.skip(i as int).skip(1) =~= b.skip(i + 1));
        if same(old_disks[i].as_str(), m) {
            return new_disks[i].clone();
        }
        i += 1;
    }
    m.to_owned()
}

/// The members after old disks are swapped for new ones.
pub fn plan_swap(members: &Vec<String>, old_disks: &Vec<String>, new_disks: &Vec<String>) -> (r:
    Result<Vec<String>, SwapError>)
    ensures
        match r {
            Ok(v) => swap_fault(texts(members@), texts(old_disks@), texts(new_disks@)) is None
                && texts(v@) == swapped(texts(members@), texts(old_disks@), texts(new_disks@)),
            Err(e) => swap_fault(texts(members@), texts(old_disks@), texts(new_disks@)) == Some(
                e@,
            ),
        },
{
    assert(texts(old_disks@).len() == old_disks@.len());
    assert(texts(new_disks@).len() == new_disks@.len());
    if new_disks.len() != old_disks.len() {
        return Err(SwapError::Unpaired(old_disks.len(), new_disks.len()));
    }
    let stranger: usize = find_where(old_disks, members, false);
    if stranger < old_disks.len() {
        assert(texts(old_disks@)[stranger as int] == old_disks@[stranger as int]@);
        return Err(SwapError::NotMember(old_disks[stranger].clone()));
    }
    let known: usize = find_where(new_disks, members, true);
    if known < new_disks.len() {
        assert(texts(new_disks@)[known as int] == new_disks@[known as int]@);
        return Err(SwapError::AlreadyMember(new_disks[known].clone()));
    }
    let ghost m = texts(members@);
    let ghost want = swapped(m, texts(old_disks@), texts(new_disks@));
    let mut out: Vec<String> = Vec::new();
    let mut i: usize = 0;
    while i < members.len()
        invariant
            i <= members.len(),
            old_disks@.len() == new_disks@.len(),
            m == texts(members@),
            want == swapped(m, texts(old_disks@), texts(new_disks@)),
            texts(out@) =~= want.take(i as int),
        decreases members.len() - i,
    {
        let s = find_successor(members[i].as_str(), old_disks, new_disks);
        assert(want[i as int] == s@);
        push_text(&mut out, s.as_str());
        i += 1;
    }
    assert(want.take(want.len() as int) =~= want);
    Ok(out)
}

/// What a replace works on.
pub struct Replacement {
    /// The members once it is done.
    pub members: Vec<String>,
    /// The disks that are wiped and provisioned.
    pub provision: Vec<String>,
    /// The disks of a swap that leave; None where the disks are rebuilt in place.
    pub leaving: Option<Vec<String>>,
}

#[verifier::ext_equal]
pub struct ReplacementModel {
    pub members: Seq<Seq<char>>,
    pub provision: Seq<Seq<char>>,
    pub leaving: Option<Seq<Seq<char>>>,
}

impl View for Replacement {
    type V = ReplacementModel;

    open spec fn view(&self) -> ReplacementModel {
        ReplacementModel {
            members: texts(self.members@),
            provision: texts(self.provision@),
            leaving: opt_texts(self.leaving),
        }
    }
}

/// What keeps a replace of the named disks from going ahead: nothing where they are
/// rebuilt in place.
pub open spec fn choice_fault(
    members: Seq<Seq<char>>,
    named: Seq<Seq<char>>,
    with: Option<Seq<char>>,
) -> Option<SwapFault> {
    match with {
        Some(w) => swap_fault(members, named, disk_list(w)),
        None => None,
    }
}

/// What a replace of the named disks works on. In a swap the new disks are provisioned
/// and take the places of the named ones, which leave; otherwise the named disks are
/// provisioned in place.
pub open spec fn choice(
    members: Seq<Seq<char>>,
    named: Seq<Seq<char>>,
    with: Option<Seq<char>>,
) -> ReplacementModel {
    match with {
        Some(w) => ReplacementModel {
            members: swapped(members, named, disk_list(w)),
            provision: disk_list(w),
            leaving: Some(named),
        },
        None => ReplacementModel { members, provision: named, leaving: None },
    }
}

/// What a replace of the named disks works on, given the new disks of a swap as a
/// comma-separated list.
pub fn choose_disks(members: &Vec<String>, named: &Vec<String>, with: &Option<String>) -> (r:
    Result<Replacement, SwapError>)
    ensures
        match r {
            Ok(v) => choice_fault(texts(members@), texts(named@), opt_text(*with)) is None && v@
                == choice(texts(members@), texts(named@), opt_text(*with)),
            Err(e) => choice_fault(texts(members@), texts(named@), opt_text(*with)) == Some(e@),
        },
{
    match with {
        Some(w) => {
            let provision = split_disks(w.as_str());
            match plan_swap(members, named, &provision) {
                Ok(v) => Ok(
                    Replacement { members: v, provision, leaving: Some(copy_texts(named)) },
                ),
                Err(e) => Err(e),
            }
        },
        None => Ok(
            Replacement {
                members: copy_texts(members),
                provision: copy_texts(named),
                leaving: None,
            },
        ),
    }
}

/// The provisioned disks are members once a replace is done, and the leaving ones are
/// not, where the named disks are members.
pub proof fn a_replace_provisions_members(
    members: Seq<Seq<char>>,
    named: Seq<Seq<char>>,
    with: Option<Seq<char>>,
    d: Seq<char>,
)
    requires
        choice_fault(members, named, with) is None,
        forall|i: int| 0 <= i < named.len() ==> members.contains(#[trigger] named[i]),
        named.no_duplicates(),
    ensures
        ({
            let r = choice(members, named, with);
            &&& r.provision.contains(d) ==> r.members.contains(d)
            &&& r.leaving is Some && r.leaving->0.contains(d) ==> !r.members.contains(d)
        }),
{
    let r = choice(members, named, with);
    if r.provision.contains(d) {
        let k = choose|k: int| 0 <= k < r.provision.len() && r.provision[k] == d;
        assert(members.contains(named[k]));
        if with is Some {
            let i = choose|i: int| 0 <= i < members.len() && members[i] == named[k];
            let j = successor_is(members[i], named, r.provision);
            assert(named.contains(named[k]));
            assert(j == k);
            assert(r.members[i] == d);
        }
    }
    if r.leaving is Some && r.leaving->0.contains(d) && r.members.contains(d) {
        let i = choose|i: int| 0 <= i < r.members.len() && r.members[i] == d;
        let k = choose|k: int| 0 <= k < named.len() && named[k] == d;
        let j = successor_is(members[i], named, r.provision);
        if j < named.len() {
            stranger_free(r.provision, members, true, j);
            assert(members.contains(named[k]));
        } else {
            assert(named.contains(members[i]));
        }
    }
}

proof fn stranger_free(disks: Seq<Seq<char>>, members: Seq<Seq<char>>, member: bool, i: int)
    requires
        first_where(disks, members, member) >= disks.len(),
        0 <= i < disks.len(),
    ensures
        members.contains(disks[i]) != member,
    decreases disks.len(),
{
    if i > 0 {
        stranger_free(disks.skip(1), members, member, i - 1);
        assert(disks.skip(1)[i - 1] == disks[i]);
    }
}

proof fn successor_is(m: Seq<char>, a: Seq<Seq<char>>, b: Seq<Seq<char>>) -> (k: int)
    requires
        a.len() == b.len(),
    ensures
        0 <= k <= a.len(),
        k < a.len() ==> a[k] == m && successor(m, a, b) == b[k],
        k == a.len() ==> !a.contains(m) && successor(m, a, b) == m,
    decreases a.len(),
{
    if a.len() == 0 {
        0
    } else if a[0] == m {
        0
    } else {
        let k = successor_is(m, a.skip(1), b.skip(1));
        if k < a.len() - 1 {
            assert(a.skip(1)[k] == a[k + 1] && b.skip(1)[k] == b[k + 1]);
        } else {
            assert forall|i: int| 0 <= i < a.len() implies a[i] != m by {
                if i > 0 {
                    assert(a.skip(1)[i - 1] == a[i]);
                    assert(!a.skip(1).contains(m));
                }
            }
        }
        k + 1
    }
}

/// A swap keeps the survivors where they are, and the number of members.
pub proof fn a_swap_keeps_the_survivors(
    members: Seq<Seq<char>>,
    old_disks: Seq<Seq<char>>,
    new_disks: Seq<Seq<char>>,
    i: int,
)
    requires
        swap_fault(members, old_disks, new_disks) is None,
        0 <= i < members.len(),
    ensures
        swapped(members, old_disks, new_disks).len() == members.len(),
        !old_disks.contains(members[i]) ==> swapped(members, old_disks, new_disks)[i]
            == members[i],
        old_disks.contains(members[i]) ==> new_disks.contains(
            swapped(members, old_disks, new_disks)[i],
        ),
        old_disks.contains(members[i]) ==> !members.contains(
            swapped(members, old_disks, new_disks)[i],
        ),
{
    let k = successor_is(members[i], old_disks, new_disks);
    if k < old_disks.len() {
        assert(old_disks[k] == members[i]);
        assert(new_disks[k] == swapped(members, old_disks, new_disks)[i]);
        stranger_free(new_disks, members, true, k);
    }
}

/// A swap of distinct disks keeps the members distinct.
pub proof fn a_swap_keeps_members_distinct(
    members: Seq<Seq<char>>,
    old_disks: Seq<Seq<char>>,
    new_disks: Seq<Seq<char>>,
    i: int,
    j: int,
)
    requires
        swap_fault(members, old_disks, new_disks) is None,
        members.no_duplicates(),
        new_disks.no_duplicates(),
        0 <= i < j < members.len(),
    ensures
        swapped(members, old_disks, new_disks)[i] != swapped(members, old_disks, new_disks)[j],
{
    let a = successor_is(members[i], old_disks, new_disks);
    let b = successor_is(members[j], old_disks, new_disks);
    if a < old_disks.len() {
        stranger_free(new_disks, members, true, a);
        assert(!members.contains(new_disks[a]));
        assert(members.contains(members[j]));
    }
    if b < old_disks.len() {
        stranger_free(new_disks, members, true, b);
        assert(!members.contains(new_disks[b]));
        assert(members.contains(members[i]));
    }
}

fn word(b: bool) -> (r: &'static str)
    ensures
        r@ == word_text(b),
{
    if b {
        "true"
    } else {
        "false"
    }
}

/// How a flag is spelled.
pub open spec fn word_text(b: bool) -> Seq<char> {
    if b {
        "true"@
    } else {
        "false"@
    }
}

/// The scope of a replace, for its checkpoint: the disks and the layers.
pub fn replace_scope(disks: &Vec<String>, with: &Option<String>, parts: &ReplaceParts) -> (r:
    String)
    ensures
        r@ == "disks="@ + joined(texts(disks@), ","@) + " with="@ + (match opt_text(*with) {
            Some(w) => w,
            None => ""@,
        }) + " esp="@ + word_text(parts.esp) + " boot="@ + word_text(parts.boot) + " root="@
            + word_text(parts.root),
{
    let w = match with {
        Some(w) => w.clone(),
        None => "".to_owned(),
    };
    "disks=".to_owned().concat(join(disks, ",").as_str()).concat(" with=").concat(
        w.as_str(),
    ).concat(" esp=").concat(word(parts.esp)).concat(" boot=").concat(word(parts.boot)).concat(
        " root=",
    ).concat(word(parts.root))
}

/// The scope of a remove, for its checkpoint: the disks.
pub fn remove_scope(disks: &Vec<String>) -> (r: String)
    ensures
        r@ == "disks="@ + joined(texts(disks@), ","@),
{
    "disks=".to_owned().concat(join(disks, ",").as_str())
}

/// Whether the manifest is saved after an operation: a replace may have changed the
/// members.
pub fn saves_manifest(op: &str, manifest: bool) -> (r: bool)
    ensures
        r == (op@ == "replace"@ && manifest),
{
    same(op, "replace") && manifest
}

// ------------------------------------------------------------------- display

/// What `config show` prints of the layout.
pub open spec fn layout_text(l: LayoutModel) -> Seq<Seq<char>> {
    seq!["# derived layout"@].push("members:      "@ + joined(l.members, ", "@)).push(
        "esp devices:  "@ + joined(l.esp_devices(), ", "@),
    ).push("boot devices: "@ + joined(l.boot_devices(), ", "@)).push(
        "root devices: "@ + joined(l.root_devices(), ", "@),
    ).push(
        if l.boot_raid() {
            "boot mode:    md raid1 ("@ + BOOT_MD_DEVICE@ + ")"@
        } else {
            "boot mode:    independent (live /boot by shared uuid; mirrors synced transiently)"@
        },
    ).push(
        "esp mount:    "@ + ESP_MOUNT@ + " (primary esp; other esps synced transiently)"@,
    ).push("crypt names:  "@ + joined(l.crypt_names(), ", "@)).push(
        "manifest:     "@ + BOOT_MIRROR_PATH@ + " (canonical; mirrored to "@ + DEFAULT_PATH@
            + ")"@,
    )
}

/// What `config show` prints of the layout.
pub fn layout_lines(layout: &Layout) -> (r: Vec<String>)
    ensures
        texts(r@) == layout_text(layout@),
{
    let mode = if layout.boot_raid() {
        "boot mode:    md raid1 (".to_owned().concat(BOOT_MD_DEVICE).concat(")")
    } else {
        "boot mode:    independent (live /boot by shared uuid; mirrors synced transiently)".to_owned()
    };
    cmd("# derived layout").arg(
        "members:      ".to_owned().concat(join(&layout.members, ", ").as_str()).as_str(),
    ).arg(
        "esp devices:  ".to_owned().concat(join(&layout.esp_devices(), ", ").as_str()).as_str(),
    ).arg(
        "boot devices: ".to_owned().concat(join(&layout.boot_devices(), ", ").as_str()).as_str(),
    ).arg(
        "root devices: ".to_owned().concat(join(&layout.root_devices(), ", ").as_str()).as_str(),
    ).arg(mode.as_str()).arg(
        "esp mount:    ".to_owned().concat(ESP_MOUNT).concat(
            " (primary esp; other esps synced transiently)",
        ).as_str(),
    ).arg(
        "crypt names:  ".to_owned().concat(join(&layout.crypt_names(), ", ").as_str()).as_str(),
    ).arg(
        "manifest:     ".to_owned().concat(BOOT_MIRROR_PATH).concat(
            " (canonical; mirrored to ",
        ).concat(DEFAULT_PATH).concat(")").as_str(),
    )
}

/// What `devices` prints of one member.
pub open spec fn device_text(l: LayoutModel, d: Seq<char>) -> Seq<char> {
    "  "@ + d + ": esp "@ + l.part(d, 1) + ", boot "@ + l.part(d, 2) + ", root "@ + l.part(d, 3)
}

/// What `devices` prints.
pub fn device_lines(layout: &Layout) -> (r: Vec<String>)
    ensures
        texts(r@) == seq!["configured member disks:"@] + layout@.members.map_values(
            |d: Seq<char>| device_text(layout@, d),
        ),
{
    let mut out = cmd("configured member disks:");
    let ghost heading = texts(out@);
    let ghost want = layout@.members.map_values(|d: Seq<char>| device_text(layout@, d));
    let mut i: usize = 0;
    while i < layout.members.len()
        invariant
            i <= layout.members.len(),
            want == layout@.members.map_values(|d: Seq<char>| device_text(layout@, d)),
            texts(out@) =~= heading + want.take(i as int),
        decreases layout.members.len() - i,
    {
        let d = layout.members[i].as_str();
        let line = "  ".to_owned().concat(d).concat(": esp ").concat(
            layout.part(d, 1).as_str(),
        ).concat(", boot ").concat(layout.part(d, 2).as_str()).concat(", root ").concat(
            layout.part(d, 3).as_str(),
        );
        push_text(&mut out, line.as_str());
        assert(want[i as int] == line@);
        i += 1;
    }
    assert(want.take(want.len() as int) =~= want);
    out
}

// ---------------------------------------------------------------------- laws

/// Asking for one phase keeps the phases of that name and no others.
pub proof fn asking_for_a_phase_keeps_it(v: Seq<PhaseModel>, name: Seq<char>, x: PhaseModel)
    ensures
        phases_named(v, name).contains(x) <==> v.contains(x) && x.name == name,
    decreases v.len(),
{
    if v.len() > 0 {
        let t = v.skip(1);
        asking_for_a_phase_keeps_it(t, name, x);
        let all = phases_named(v, name);
        let rest = phases_named(t, name);
        if v.contains(x) {
            let k = choose|k: int| 0 <= k < v.len() && v[k] == x;
            if k > 0 {
                assert(t[k - 1] == x);
            }
        }
        if t.contains(x) {
            let k = choose|k: int| 0 <= k < t.len() && t[k] == x;
            assert(v[k + 1] == x);
        }
        if v[0].name == name {
            assert(all[0] == v[0]);
            if rest.contains(x) {
                let k = choose|k: int| 0 <= k < rest.len() && rest[k] == x;
                assert(all[k + 1] == x);
            }
            if all.contains(x) {
                let k = choose|k: int| 0 <= k < all.len() && all[k] == x;
                if k > 0 {
                    assert(rest[k - 1] == x);
                }
            }
        }
    }
}

/// A password file goes before the environment, and the environment before a prompt. A
/// variable that is empty is none. Only a password that is set anew is typed twice.
pub proof fn where_the_password_comes_from(
    op: Seq<char>,
    file: Seq<char>,
    env: Option<Seq<char>>,
    value: Seq<char>,
)
    ensures
        password_source(op, Some(file), env) == password_source(op, Some(file), None),
        password_source(op, Some(file), env) == PasswordModel::Given(without_line_end(file)),
        value.len() > 0 ==> password_source(op, None, Some(value)) == PasswordModel::Given(value),
        password_source(op, None, Some(Seq::empty())) == password_source(op, None, None),
        password_source(op, None, None) matches PasswordModel::Prompt { verify } && (verify <==> op
            == "install"@ || op == "replace"@),
{
}

/// The warning before an install names every disk that is erased.
pub proof fn the_warning_names_every_disk(c: ConfigModel, k: int)
    requires
        0 <= k < c.disks.members.len(),
    ensures
        holds(install_warning_text(c)[0], c.disks.members[k]),
        has_prefix(install_warning_text(c)[0], "WARNING: "@),
{
    let m = c.disks.members;
    let head = "WARNING: install will ERASE all data on: "@;
    let list = joined(m, ", "@);
    a_joined_part_is_held(m, ", "@, k);
    let i = choose|i: int| stands_at(list, m[k], i);
    let t = head + list;
    assert(t.subrange(head.len() + i, head.len() + i + m[k].len()) =~= list.subrange(
        i,
        i + m[k].len(),
    ));
    assert(stands_at(t, m[k], head.len() + i));
    reveal_strlit("WARNING: install will ERASE all data on: ");
    reveal_strlit("WARNING: ");
    assert(t.take("WARNING: "@.len() as int) =~= "WARNING: "@);
}

proof fn a_joined_part_is_held(parts: Seq<Seq<char>>, sep: Seq<char>, k: int)
    requires
        0 <= k < parts.len(),
    ensures
        holds(joined(parts, sep), parts[k]),
    decreases parts.len(),
{
    let all = joined(parts, sep);
    let x = parts[k];
    if parts.len() == 1 {
        assert(all.subrange(0, x.len() as int) =~= x);
        assert(stands_at(all, x, 0));
    } else {
        let rest = parts.drop_last();
        let before = joined(rest, sep);
        if k < rest.len() {
            assert(rest[k] == x);
            a_joined_part_is_held(rest, sep, k);
            let i = choose|i: int| stands_at(before, x, i);
            assert(all.subrange(i, i + x.len()) =~= before.subrange(i, i + x.len()));
            assert(stands_at(all, x, i));
        } else {
            let i = (before + sep).len() as int;
            assert(parts.last() == x);
            assert(all.subrange(i, i + x.len()) =~= x);
            assert(stands_at(all, x, i));
        }
    }
}

} // verus!
