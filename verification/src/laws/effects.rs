//! What single steps do, read off their commands, and where such steps stand in a plan.
use vstd::prelude::*;
use vstd::string::*;

use crate::step::{each, StepModel};
use crate::text::{dec, has_prefix, has_suffix};

verus! {

// -------------------------------------------------------------- some steps

/// Whether one of the steps has the property.
pub open spec fn some_step(v: Seq<StepModel>, p: spec_fn(StepModel) -> bool) -> bool {
    exists|i: int| 0 <= i < v.len() && p(#[trigger] v[i])
}

pub broadcast proof fn some_of_none(p: spec_fn(StepModel) -> bool)
    ensures
        !#[trigger] some_step(Seq::<StepModel>::empty(), p),
{
}

pub broadcast proof fn some_of_one(s: StepModel, p: spec_fn(StepModel) -> bool)
    ensures
        #[trigger] some_step(seq![s], p) == p(s),
{
    assert(seq![s][0] == s);
}

pub broadcast proof fn some_of_push(
    v: Seq<StepModel>,
    s: StepModel,
    p: spec_fn(StepModel) -> bool,
)
    ensures
        #[trigger] some_step(v.push(s), p) == (some_step(v, p) || p(s)),
{
    let w = v.push(s);
    assert(w[v.len() as int] == s);
    if some_step(v, p) {
        let i = choose|i: int| 0 <= i < v.len() && p(#[trigger] v[i]);
        assert(w[i] == v[i]);
    }
    if some_step(w, p) {
        let i = choose|i: int| 0 <= i < w.len() && p(#[trigger] w[i]);
        if i < v.len() {
            assert(v[i] == w[i]);
        }
    }
}

pub broadcast proof fn some_of_both(
    a: Seq<StepModel>,
    b: Seq<StepModel>,
    p: spec_fn(StepModel) -> bool,
)
    ensures
        #[trigger] some_step(a + b, p) == (some_step(a, p) || some_step(b, p)),
{
    let w = a + b;
    if some_step(a, p) {
        let i = choose|i: int| 0 <= i < a.len() && p(#[trigger] a[i]);
        assert(w[i] == a[i]);
    }
    if some_step(b, p) {
        let i = choose|i: int| 0 <= i < b.len() && p(#[trigger] b[i]);
        assert(w[a.len() + i] == b[i]);
    }
    if some_step(w, p) {
        let i = choose|i: int| 0 <= i < w.len() && p(#[trigger] w[i]);
        if i < a.len() {
            assert(a[i] == w[i]);
        } else {
            assert(b[i - a.len()] == w[i]);
        }
    }
}

pub broadcast proof fn some_of_each(
    disks: Seq<Seq<char>>,
    f: spec_fn(Seq<char>) -> Seq<StepModel>,
    p: spec_fn(StepModel) -> bool,
)
    ensures
        #[trigger] some_step(each(disks, f), p) == exists|k: int|
            0 <= k < disks.len() && some_step(f(#[trigger] disks[k]), p),
    decreases disks.len(),
{
    if disks.len() > 0 {
        let rest = disks.drop_last();
        some_of_each(rest, f, p);
        some_of_both(each(rest, f), f(disks.last()), p);
        assert(disks[disks.len() - 1] == disks.last());
        if exists|k: int| 0 <= k < rest.len() && some_step(f(#[trigger] rest[k]), p) {
            let k = choose|k: int| 0 <= k < rest.len() && some_step(f(#[trigger] rest[k]), p);
            assert(disks[k] == rest[k]);
        }
        if exists|k: int| 0 <= k < disks.len() && some_step(f(#[trigger] disks[k]), p) {
            let k = choose|k: int| 0 <= k < disks.len() && some_step(f(#[trigger] disks[k]), p);
            if k < rest.len() {
                assert(rest[k] == disks[k]);
            }
        }
    }
}

/// Whether every step with the first property comes before every step with the second.
pub open spec fn all_before(
    v: Seq<StepModel>,
    p: spec_fn(StepModel) -> bool,
    q: spec_fn(StepModel) -> bool,
) -> bool {
    forall|i: int, j: int|
        0 <= i < v.len() && 0 <= j < v.len() && p(#[trigger] v[i]) && q(#[trigger] v[j]) ==> i < j
}

pub broadcast proof fn before_where_none(
    v: Seq<StepModel>,
    p: spec_fn(StepModel) -> bool,
    q: spec_fn(StepModel) -> bool,
)
    ensures
        !some_step(v, p) || !some_step(v, q) ==> #[trigger] all_before(v, p, q),
{
}

pub broadcast proof fn before_in_push(
    v: Seq<StepModel>,
    s: StepModel,
    p: spec_fn(StepModel) -> bool,
    q: spec_fn(StepModel) -> bool,
)
    ensures
        #[trigger] all_before(v.push(s), p, q) == (all_before(v, p, q) && !(p(s) && (q(s)
            || some_step(v, q)))),
{
    let w = v.push(s);
    let n = v.len() as int;
    assert(w[n] == s);
    if all_before(w, p, q) {
        assert forall|i: int, j: int|
            0 <= i < v.len() && 0 <= j < v.len() && p(#[trigger] v[i]) && q(
                #[trigger] v[j],
            ) implies i < j by {
            assert(w[i] == v[i] && w[j] == v[j]);
        }
        if p(s) && some_step(v, q) {
            let j = choose|j: int| 0 <= j < v.len() && q(#[trigger] v[j]);
            assert(w[j] == v[j]);
        }
    } else if all_before(v, p, q) && !(p(s) && (q(s) || some_step(v, q))) {
        assert forall|i: int, j: int|
            0 <= i < w.len() && 0 <= j < w.len() && p(#[trigger] w[i]) && q(
                #[trigger] w[j],
            ) implies i < j by {
            if i < n {
                assert(w[i] == v[i]);
            }
            if j < n {
                assert(w[j] == v[j]);
            }
        }
    }
}

pub broadcast proof fn before_in_both(
    a: Seq<StepModel>,
    b: Seq<StepModel>,
    p: spec_fn(StepModel) -> bool,
    q: spec_fn(StepModel) -> bool,
)
    ensures
        #[trigger] all_before(a + b, p, q) == (all_before(a, p, q) && all_before(b, p, q) && !(
        some_step(b, p) && some_step(a, q))),
{
    let w = a + b;
    let n = a.len() as int;
    if all_before(w, p, q) {
        assert forall|i: int, j: int|
            0 <= i < a.len() && 0 <= j < a.len() && p(#[trigger] a[i]) && q(
                #[trigger] a[j],
            ) implies i < j by {
            assert(w[i] == a[i] && w[j] == a[j]);
        }
        assert forall|i: int, j: int|
            0 <= i < b.len() && 0 <= j < b.len() && p(#[trigger] b[i]) && q(
                #[trigger] b[j],
            ) implies i < j by {
            assert(w[n + i] == b[i] && w[n + j] == b[j]);
        }
        if some_step(b, p) && some_step(a, q) {
            let i = choose|i: int| 0 <= i < b.len() && p(#[trigger] b[i]);
            let j = choose|j: int| 0 <= j < a.len() && q(#[trigger] a[j]);
            assert(w[n + i] == b[i] && w[j] == a[j]);
        }
    } else if all_before(a, p, q) && all_before(b, p, q) && !(some_step(b, p) && some_step(a, q)) {
        assert forall|i: int, j: int|
            0 <= i < w.len() && 0 <= j < w.len() && p(#[trigger] w[i]) && q(
                #[trigger] w[j],
            ) implies i < j by {
            if i < n {
                assert(w[i] == a[i]);
            } else {
                assert(w[i] == b[i - n]);
            }
            if j < n {
                assert(w[j] == a[j]);
            } else {
                assert(w[j] == b[j - n]);
            }
        }
    }
}

pub broadcast proof fn before_in_few(
    v: Seq<StepModel>,
    p: spec_fn(StepModel) -> bool,
    q: spec_fn(StepModel) -> bool,
)
    ensures
        v.len() <= 5 && !(0 < v.len() && p(v[0]) && q(v[0])) && !(1 < v.len() && p(v[1]) && q(v[0])) && !(1 < v.len() && p(v[1]) && q(v[1])) && !(2 < v.len() && p(v[2]) && q(v[0])) && !(2 < v.len() && p(v[2]) && q(v[1])) && !(2 < v.len() && p(v[2]) && q(v[2])) && !(3 < v.len() && p(v[3]) && q(v[0])) && !(3 < v.len() && p(v[3]) && q(v[1])) && !(3 < v.len() && p(v[3]) && q(v[2])) && !(3 < v.len() && p(v[3]) && q(v[3])) && !(4 < v.len() && p(v[4]) && q(v[0])) && !(4 < v.len() && p(v[4]) && q(v[1])) && !(4 < v.len() && p(v[4]) && q(v[2])) && !(4 < v.len() && p(v[4]) && q(v[3])) && !(4 < v.len() && p(v[4]) && q(v[4])) ==> #[trigger] all_before(v, p, q),
{
}

pub broadcast group group_some_steps {
    some_of_none,
    some_of_one,
    some_of_push,
    some_of_both,
    some_of_each,
    before_where_none,
    before_in_push,
    before_in_both,
}

// ----------------------------------------------------------------- commands

/// The words that a step runs; none where it writes a file.
pub open spec fn command(s: StepModel) -> Seq<Seq<char>> {
    if s.action is Run {
        s.action->Run_0.argv
    } else {
        Seq::empty()
    }
}

/// Whether a step runs this program.
pub open spec fn runs(s: StepModel, program: Seq<char>) -> bool {
    command(s).len() > 0 && command(s)[0] == program
}

/// Whether a step runs this program with this word behind it.
pub open spec fn runs_to(s: StepModel, program: Seq<char>, verb: Seq<char>) -> bool {
    runs(s, program) && command(s).len() > 1 && command(s)[1] == verb
}

/// The script that a step hands to the shell; empty where it hands none.
pub open spec fn script(s: StepModel) -> Seq<char> {
    if runs_to(s, "sh"@, "-c"@) && command(s).len() == 3 {
        command(s)[2]
    } else {
        Seq::empty()
    }
}

/// Whether a step opens this device as this mapping, through its crypt or integrity layer.
pub open spec fn maps_device(s: StepModel, dev: Seq<char>, name: Seq<char>) -> bool {
    let w = command(s);
    &&& runs_to(s, "cryptsetup"@, "luksOpen"@) || runs_to(s, "integritysetup"@, "open"@)
    &&& w.len() > 3 && w[w.len() - 2] == dev && w[w.len() - 1] == name
}

/// Whether a step opens a crypt device.
pub open spec fn unlocks() -> spec_fn(StepModel) -> bool {
    |s: StepModel| runs_to(s, "cryptsetup"@, "luksOpen"@)
}

/// Whether a step opens an integrity device.
pub open spec fn opens_integrity() -> spec_fn(StepModel) -> bool {
    |s: StepModel| runs_to(s, "integritysetup"@, "open"@)
}

/// Whether a step assembles an array, or imports a pool.
pub open spec fn assembles() -> spec_fn(StepModel) -> bool {
    |s: StepModel| runs_to(s, "mdadm"@, "--assemble"@) || runs_to(s, "zpool"@, "import"@)
}

/// Whether a step activates the volume group.
pub open spec fn activates() -> spec_fn(StepModel) -> bool {
    |s: StepModel| runs(s, "vgchange"@) && command(s).len() > 2 && command(s)[2] == "y"@
}

/// Whether a step opens, assembles or activates anything of the root.
pub open spec fn opens() -> spec_fn(StepModel) -> bool {
    |s: StepModel| unlocks()(s) || opens_integrity()(s) || assembles()(s) || activates()(s)
}

/// Whether a step mounts the root at /mnt.
pub open spec fn mounts_root() -> spec_fn(StepModel) -> bool {
    |s: StepModel|
        runs(s, "mount"@) && command(s)[command(s).len() - 1] == "/mnt"@ || runs_to(
            s,
            "zfs"@,
            "mount"@,
        )
}

/// Whether a step takes down what an open step brought up.
pub open spec fn closes() -> spec_fn(StepModel) -> bool {
    |s: StepModel|
        {
            ||| runs(s, "umount"@)
            ||| runs_to(s, "cryptsetup"@, "luksClose"@)
            ||| runs_to(s, "integritysetup"@, "close"@)
            ||| runs_to(s, "mdadm"@, "--stop"@)
            ||| runs(s, "vgchange"@) && command(s).len() > 2 && command(s)[2] == "n"@
            ||| runs_to(s, "zpool"@, "export"@)
            ||| runs_to(s, "zpool"@, "destroy"@)
        }
}

/// Whether a step closes this mapping.
pub open spec fn unmaps(s: StepModel, name: Seq<char>) -> bool {
    let w = command(s);
    &&& runs_to(s, "cryptsetup"@, "luksClose"@) || runs_to(s, "integritysetup"@, "close"@)
    &&& w.len() == 3 && w[2] == name
}

/// Whether a step closes a mapping.
pub open spec fn locks() -> spec_fn(StepModel) -> bool {
    |s: StepModel| unmaps(s, command(s)[2])
}

/// Whether a step stops the root array, or gives up the pool.
pub open spec fn stops() -> spec_fn(StepModel) -> bool {
    |s: StepModel|
        runs_to(s, "mdadm"@, "--stop"@) && command(s).len() > 2 && command(s)[2] == "/dev/md/root"@
            || runs_to(s, "zpool"@, "export"@)
}

/// Whether a step unmounts the root from /mnt.
pub open spec fn unmounts_root() -> spec_fn(StepModel) -> bool {
    |s: StepModel| runs_to(s, "umount"@, "/mnt"@)
}

/// Whether a step deactivates the volume group.
pub open spec fn deactivates() -> spec_fn(StepModel) -> bool {
    |s: StepModel| runs(s, "vgchange"@) && command(s).len() > 2 && command(s)[2] == "n"@
}

/// Whether a step luks-formats this device.
pub open spec fn luks_formats(s: StepModel, dev: Seq<char>) -> bool {
    let w = command(s);
    &&& runs_to(s, "cryptsetup"@, "luksFormat"@) || runs_to(s, "cryptsetup"@, "-q"@) && w.len() > 3
        && w[2] == "luksFormat"@
    &&& w[w.len() - 1] == dev
}

/// Whether a step formats this device for its integrity layer.
pub open spec fn integrity_formats(s: StepModel, dev: Seq<char>) -> bool {
    let w = command(s);
    runs_to(s, "integritysetup"@, "format"@) && w[w.len() - 1] == dev
}

/// Whether a step formats a device for its crypt or integrity layer.
pub open spec fn formats_a_layer() -> spec_fn(StepModel) -> bool {
    |s: StepModel|
        {
            let w = command(s);
            luks_formats(s, w[w.len() - 1]) || integrity_formats(s, w[w.len() - 1])
        }
}

/// Whether a step creates the root partition of this disk, ending where a sector of this
/// many blocks ends.
pub open spec fn creates_root(s: StepModel, disk: Seq<char>, blocks: nat) -> bool {
    script(s) == "end=$(sgdisk -E "@ + ("/dev/"@ + disk) + "); end=$(( (end + 1) / "@ + dec(blocks)
        + " * "@ + dec(blocks) + " - 1 )); sgdisk -n3:0:$end -t3:8301 "@ + ("/dev/"@ + disk)
}

/// Whether a step is a script that creates a root partition.
pub open spec fn creates_some_root() -> spec_fn(StepModel) -> bool {
    |s: StepModel| has_prefix(script(s), "end=$(sgdisk -E "@)
}

/// Whether a step gives this crypt device the uuid that this mapping has in the crypttab.
pub open spec fn stamps(s: StepModel, dev: Seq<char>, name: Seq<char>) -> bool {
    &&& has_prefix(script(s), "uuid=$(awk -v n="@ + name + " '$1==n {print $2}' /etc/crypttab "@)
    &&& has_suffix(script(s), "cryptsetup -q luksUUID "@ + dev + " --uuid \"$uuid\"; fi"@)
}

/// The parts of a text in which it begins and ends.
pub broadcast proof fn begins_with_its_head(a: Seq<char>, b: Seq<char>)
    ensures
        has_prefix(#[trigger] (a + b), a),
        has_suffix(a + b, b),
{
    assert((a + b).take(a.len() as int) =~= a);
    assert((a + b).skip(a.len() as int) =~= b);
}

/// What is done for each disk stands in a row.
pub proof fn each_stands_in_a_row(
    disks: Seq<Seq<char>>,
    f: spec_fn(Seq<char>) -> Seq<StepModel>,
    k: int,
) -> (i: int)
    requires
        0 <= k < disks.len(),
    ensures
        0 <= i,
        i + f(disks[k]).len() <= each(disks, f).len(),
        each(disks, f).subrange(i, i + f(disks[k]).len()) == f(disks[k]),
    decreases disks.len(),
{
    let rest = disks.drop_last();
    let head = each(rest, f);
    let all = each(disks, f);
    if k < rest.len() {
        assert(rest[k] == disks[k]);
        let i = each_stands_in_a_row(rest, f, k);
        assert(all.subrange(i, i + f(disks[k]).len()) =~= head.subrange(i, i + f(disks[k]).len()));
        i
    } else {
        assert(disks.last() == disks[k]);
        let i = head.len() as int;
        assert(all.subrange(i, i + f(disks[k]).len()) =~= f(disks[k]));
        i
    }
}

/// How the words of the commands are told apart: by their lengths, and where two are
/// equally long, by some of their characters.
pub proof fn words()
    ensures
        "/"@.len() == 1 && "/"@[0] == '/',
        "n"@.len() == 1 && "n"@[0] == 'n',
        "y"@.len() == 1 && "y"@[0] == 'y',
        "-D"@.len() == 2 && "-D"@[1] == 'D',
        "-F"@.len() == 2 && "-F"@[1] == 'F',
        "-R"@.len() == 2 && "-R"@[1] == 'R',
        "-a"@.len() == 2 && "-a"@[1] == 'a',
        "-c"@.len() == 2 && "-c"@[1] == 'c',
        "-d"@.len() == 2 && "-d"@[1] == 'd',
        "-f"@.len() == 2 && "-f"@[1] == 'f',
        "-g"@.len() == 2 && "-g"@[1] == 'g',
        "-m"@.len() == 2 && "-m"@[1] == 'm',
        "-o"@.len() == 2 && "-o"@[1] == 'o',
        "-p"@.len() == 2 && "-p"@[1] == 'p',
        "-q"@.len() == 2 && "-q"@[1] == 'q',
        "-t"@.len() == 2 && "-t"@[1] == 't',
        "-u"@.len() == 2 && "-u"@[1] == 'u',
        "-y"@.len() == 2 && "-y"@[1] == 'y',
        "-z"@.len() == 2 && "-z"@[1] == 'z',
        "fs"@.len() == 2 && "fs"@[1] == 's',
        "sh"@.len() == 2 && "sh"@[1] == 'h',
        "-d1"@.len() == 3 && "-d1"@[2] == '1',
        "-d2"@.len() == 3 && "-d2"@[2] == '2',
        "-d3"@.len() == 3 && "-d3"@[2] == '3',
        "add"@.len() == 3 && "add"@[2] == 'd',
        "efi"@.len() == 3 && "efi"@[2] == 'i',
        "env"@.len() == 3 && "env"@[2] == 'v',
        "zfs"@.len() == 3 && "zfs"@[2] == 's',
        "/mnt"@.len() == 4 && "/mnt"@[0] == '/' && "/mnt"@[1] == 'm',
        "boot"@.len() == 4 && "boot"@[0] == 'b' && "boot"@[1] == 'o',
        "data"@.len() == 4 && "data"@[0] == 'd' && "data"@[1] == 'a',
        "open"@.len() == 4 && "open"@[0] == 'o' && "open"@[1] == 'p',
        "show"@.len() == 4 && "show"@[0] == 's' && "show"@[1] == 'h',
        "sync"@.len() == 4 && "sync"@[0] == 's' && "sync"@[1] == 'y',
        "wait"@.len() == 4 && "wait"@[0] == 'w' && "wait"@[1] == 'a',
        "--add"@.len() == 5 && "--add"@[3] == 'd' && "--add"@[0] == '-',
        "--run"@.len() == 5 && "--run"@[3] == 'u' && "--run"@[0] == '-',
        "/boot"@.len() == 5 && "/boot"@[3] == 'o' && "/boot"@[0] == '/',
        "btrfs"@.len() == 5 && "btrfs"@[3] == 'f' && "btrfs"@[0] == 'b',
        "clear"@.len() == 5 && "clear"@[3] == 'a' && "clear"@[0] == 'c',
        "close"@.len() == 5 && "close"@[3] == 's' && "close"@[0] == 'c',
        "mdadm"@.len() == 5 && "mdadm"@[3] == 'd' && "mdadm"@[0] == 'm',
        "mkdir"@.len() == 5 && "mkdir"@[3] == 'i' && "mkdir"@[0] == 'm',
        "mount"@.len() == 5 && "mount"@[3] == 'n' && "mount"@[0] == 'm',
        "scrub"@.len() == 5 && "scrub"@[3] == 'u' && "scrub"@[0] == 's',
        "start"@.len() == 5 && "start"@[3] == 'r' && "start"@[0] == 's',
        "stats"@.len() == 5 && "stats"@[3] == 't' && "stats"@[0] == 's',
        "usage"@.len() == 5 && "usage"@[3] == 'g' && "usage"@[0] == 'u',
        "zpool"@.len() == 5 && "zpool"@[3] == 'o' && "zpool"@[0] == 'z',
        "--fail"@.len() == 6 && "--fail"@[4] == 'i' && "--fail"@[0] == '-' && "--fail"@[2] == 'f',
        "--stop"@.len() == 6 && "--stop"@[4] == 'o' && "--stop"@[0] == '-' && "--stop"@[2] == 's',
        "--wait"@.len() == 6 && "--wait"@[4] == 'i' && "--wait"@[0] == '-' && "--wait"@[2] == 'w',
        "create"@.len() == 6 && "create"@[4] == 't' && "create"@[0] == 'c' && "create"@[2] == 'e',
        "device"@.len() == 6 && "device"@[4] == 'c' && "device"@[0] == 'd' && "device"@[2] == 'v',
        "export"@.len() == 6 && "export"@[4] == 'r' && "export"@[0] == 'e' && "export"@[2] == 'p',
        "failed"@.len() == 6 && "failed"@[4] == 'e' && "failed"@[0] == 'f' && "failed"@[2] == 'i',
        "format"@.len() == 6 && "format"@[4] == 'a' && "format"@[0] == 'f' && "format"@[2] == 'r',
        "import"@.len() == 6 && "import"@[4] == 'r' && "import"@[0] == 'i' && "import"@[2] == 'p',
        "passwd"@.len() == 6 && "passwd"@[4] == 'w' && "passwd"@[0] == 'p' && "passwd"@[2] == 's',
        "remove"@.len() == 6 && "remove"@[4] == 'v' && "remove"@[0] == 'r' && "remove"@[2] == 'm',
        "settle"@.len() == 6 && "settle"@[4] == 'l' && "settle"@[0] == 's' && "settle"@[2] == 't',
        "sgdisk"@.len() == 6 && "sgdisk"@[4] == 's' && "sgdisk"@[0] == 's' && "sgdisk"@[2] == 'd',
        "status"@.len() == 6 && "status"@[4] == 'u' && "status"@[0] == 's' && "status"@[2] == 'a',
        "umount"@.len() == 6 && "umount"@[4] == 'n' && "umount"@[0] == 'u' && "umount"@[2] == 'o',
        "wipefs"@.len() == 6 && "wipefs"@[4] == 'f' && "wipefs"@[0] == 'w' && "wipefs"@[2] == 'p',
        "--rbind"@.len() == 7 && "--rbind"@[0] == '-',
        "apt-get"@.len() == 7 && "apt-get"@[0] == 'a',
        "balance"@.len() == 7 && "balance"@[0] == 'b',
        "destroy"@.len() == 7 && "destroy"@[0] == 'd',
        "findmnt"@.len() == 7 && "findmnt"@[0] == 'f',
        "install"@.len() == 7 && "install"@[0] == 'i',
        "missing"@.len() == 7 && "missing"@[0] == 'm',
        "offline"@.len() == 7 && "offline"@[0] == 'o',
        "replace"@.len() == 7 && "replace"@[0] == 'r',
        "udevadm"@.len() == 7 && "udevadm"@[0] == 'u',
        "--create"@.len() == 8 && "--create"@[4] == 'e' && "--create"@[0] == '-' && "--create"@[7] == 'e',
        "--detail"@.len() == 8 && "--detail"@[4] == 't' && "--detail"@[0] == '-' && "--detail"@[7] == 'l',
        "--remove"@.len() == 8 && "--remove"@[4] == 'm' && "--remove"@[0] == '-' && "--remove"@[7] == 'e',
        "-t1:EF00"@.len() == 8 && "-t1:EF00"@[4] == 'E' && "-t1:EF00"@[0] == '-' && "-t1:EF00"@[7] == '0',
        "-t1:EF02"@.len() == 8 && "-t1:EF02"@[4] == 'E' && "-t1:EF02"@[0] == '-' && "-t1:EF02"@[7] == '2',
        "-t2:8301"@.len() == 8 && "-t2:8301"@[4] == '8' && "-t2:8301"@[0] == '-' && "-t2:8301"@[7] == '1',
        "/mnt/dev"@.len() == 8 && "/mnt/dev"@[4] == '/' && "/mnt/dev"@[0] == '/' && "/mnt/dev"@[7] == 'v',
        "/mnt/run"@.len() == 8 && "/mnt/run"@[4] == '/' && "/mnt/run"@[0] == '/' && "/mnt/run"@[7] == 'n',
        "/mnt/sys"@.len() == 8 && "/mnt/sys"@[4] == '/' && "/mnt/sys"@[0] == '/' && "/mnt/sys"@[7] == 's',
        "bcachefs"@.len() == 8 && "bcachefs"@[4] == 'h' && "bcachefs"@[0] == 'b' && "bcachefs"@[7] == 's',
        "chpasswd"@.len() == 8 && "chpasswd"@[4] == 's' && "chpasswd"@[0] == 'c' && "chpasswd"@[7] == 'd',
        "detached"@.len() == 8 && "detached"@[4] == 'c' && "detached"@[0] == 'd' && "detached"@[7] == 'd',
        "luksOpen"@.len() == 8 && "luksOpen"@[4] == 'O' && "luksOpen"@[0] == 'l' && "luksOpen"@[7] == 'n',
        "lvcreate"@.len() == 8 && "lvcreate"@[4] == 'e' && "lvcreate"@[0] == 'l' && "lvcreate"@[7] == 'e',
        "mkfs.xfs"@.len() == 8 && "mkfs.xfs"@[4] == '.' && "mkfs.xfs"@[0] == 'm' && "mkfs.xfs"@[7] == 's',
        "modprobe"@.len() == 8 && "modprobe"@[4] == 'r' && "modprobe"@[0] == 'm' && "modprobe"@[7] == 'e',
        "pvcreate"@.len() == 8 && "pvcreate"@[4] == 'e' && "pvcreate"@[0] == 'p' && "pvcreate"@[7] == 'e',
        "vgchange"@.len() == 8 && "vgchange"@[4] == 'a' && "vgchange"@[0] == 'v' && "vgchange"@[7] == 'e',
        "vgcreate"@.len() == 8 && "vgcreate"@[4] == 'e' && "vgcreate"@[0] == 'v' && "vgcreate"@[7] == 'e',
        "--zap-all"@.len() == 9 && "--zap-all"@[0] == '-',
        "/mnt/proc"@.len() == 9 && "/mnt/proc"@[0] == '/',
        "luksClose"@.len() == 9 && "luksClose"@[0] == 'l',
        "mkfs.ext4"@.len() == 9 && "mkfs.ext4"@[0] == 'm',
        "systemctl"@.len() == 9 && "systemctl"@[0] == 's',
        "--assemble"@.len() == 10 && "--assemble"@[8] == 'l',
        "cryptsetup"@.len() == 10 && "cryptsetup"@[8] == 'u',
        "efibootmgr"@.len() == 10 && "efibootmgr"@[8] == 'g',
        "filesystem"@.len() == 10 && "filesystem"@[8] == 'e',
        "luksFormat"@.len() == 10 && "luksFormat"@[8] == 'a',
        "mkfs.btrfs"@.len() == 10 && "mkfs.btrfs"@[8] == 'f',
        "mkfs.msdos"@.len() == 10 && "mkfs.msdos"@[8] == 'o',
        "-n1:1M:+16M"@.len() == 11 && "-n1:1M:+16M"@[2] == '1',
        "-n2:0:+512M"@.len() == 11 && "-n2:0:+512M"@[2] == '2',
        "debootstrap"@.len() == 11 && "debootstrap"@[2] == 'b',
        "rereplicate"@.len() == 11 && "rereplicate"@[2] == 'r',
        "update-grub"@.len() == 11 && "update-grub"@[2] == 'd',
        "-n1:1M:+512M"@.len() == 12 && "-n1:1M:+512M"@[8] == '5',
        "/dev/md/boot"@.len() == 12 && "/dev/md/boot"@[8] == 'b',
        "/dev/md/root"@.len() == 12 && "/dev/md/root"@[8] == 'r',
        "grub-install"@.len() == 12 && "grub-install"@[8] == 't',
        "/dev/vg0/root"@.len() == 13 && "/dev/vg0/root"@[0] == '/',
        "mkfs.bcachefs"@.len() == 13 && "mkfs.bcachefs"@[0] == 'm',
        "--action=check"@.len() == 14 && "--action=check"@[0] == '-',
        "integritysetup"@.len() == 14 && "integritysetup"@[0] == 'i',
        "luksHeaderBackup"@.len() == 16 && "luksHeaderBackup"@[0] == 'l',
        "update-initramfs"@.len() == 16 && "update-initramfs"@[0] == 'u',
        "--zero-superblock"@.len() == 17,
        "/usr/local/sbin/raiden"@.len() == 22,
{
    reveal_strlit("/");
    reveal_strlit("n");
    reveal_strlit("y");
    reveal_strlit("-D");
    reveal_strlit("-F");
    reveal_strlit("-R");
    reveal_strlit("-a");
    reveal_strlit("-c");
    reveal_strlit("-d");
    reveal_strlit("-f");
    reveal_strlit("-g");
    reveal_strlit("-m");
    reveal_strlit("-o");
    reveal_strlit("-p");
    reveal_strlit("-q");
    reveal_strlit("-t");
    reveal_strlit("-u");
    reveal_strlit("-y");
    reveal_strlit("-z");
    reveal_strlit("fs");
    reveal_strlit("sh");
    reveal_strlit("-d1");
    reveal_strlit("-d2");
    reveal_strlit("-d3");
    reveal_strlit("add");
    reveal_strlit("efi");
    reveal_strlit("env");
    reveal_strlit("zfs");
    reveal_strlit("/mnt");
    reveal_strlit("boot");
    reveal_strlit("data");
    reveal_strlit("open");
    reveal_strlit("show");
    reveal_strlit("sync");
    reveal_strlit("wait");
    reveal_strlit("--add");
    reveal_strlit("--run");
    reveal_strlit("/boot");
    reveal_strlit("btrfs");
    reveal_strlit("clear");
    reveal_strlit("close");
    reveal_strlit("mdadm");
    reveal_strlit("mkdir");
    reveal_strlit("mount");
    reveal_strlit("scrub");
    reveal_strlit("start");
    reveal_strlit("stats");
    reveal_strlit("usage");
    reveal_strlit("zpool");
    reveal_strlit("--fail");
    reveal_strlit("--stop");
    reveal_strlit("--wait");
    reveal_strlit("create");
    reveal_strlit("device");
    reveal_strlit("export");
    reveal_strlit("failed");
    reveal_strlit("format");
    reveal_strlit("import");
    reveal_strlit("passwd");
    reveal_strlit("remove");
    reveal_strlit("settle");
    reveal_strlit("sgdisk");
    reveal_strlit("status");
    reveal_strlit("umount");
    reveal_strlit("wipefs");
    reveal_strlit("--rbind");
    reveal_strlit("apt-get");
    reveal_strlit("balance");
    reveal_strlit("destroy");
    reveal_strlit("findmnt");
    reveal_strlit("install");
    reveal_strlit("missing");
    reveal_strlit("offline");
    reveal_strlit("replace");
    reveal_strlit("udevadm");
    reveal_strlit("--create");
    reveal_strlit("--detail");
    reveal_strlit("--remove");
    reveal_strlit("-t1:EF00");
    reveal_strlit("-t1:EF02");
    reveal_strlit("-t2:8301");
    reveal_strlit("/mnt/dev");
    reveal_strlit("/mnt/run");
    reveal_strlit("/mnt/sys");
    reveal_strlit("bcachefs");
    reveal_strlit("chpasswd");
    reveal_strlit("detached");
    reveal_strlit("luksOpen");
    reveal_strlit("lvcreate");
    reveal_strlit("mkfs.xfs");
    reveal_strlit("modprobe");
    reveal_strlit("pvcreate");
    reveal_strlit("vgchange");
    reveal_strlit("vgcreate");
    reveal_strlit("--zap-all");
    reveal_strlit("/mnt/proc");
    reveal_strlit("luksClose");
    reveal_strlit("mkfs.ext4");
    reveal_strlit("systemctl");
    reveal_strlit("--assemble");
    reveal_strlit("cryptsetup");
    reveal_strlit("efibootmgr");
    reveal_strlit("filesystem");
    reveal_strlit("luksFormat");
    reveal_strlit("mkfs.btrfs");
    reveal_strlit("mkfs.msdos");
    reveal_strlit("-n1:1M:+16M");
    reveal_strlit("-n2:0:+512M");
    reveal_strlit("debootstrap");
    reveal_strlit("rereplicate");
    reveal_strlit("update-grub");
    reveal_strlit("-n1:1M:+512M");
    reveal_strlit("/dev/md/boot");
    reveal_strlit("/dev/md/root");
    reveal_strlit("grub-install");
    reveal_strlit("/dev/vg0/root");
    reveal_strlit("mkfs.bcachefs");
    reveal_strlit("--action=check");
    reveal_strlit("integritysetup");
    reveal_strlit("luksHeaderBackup");
    reveal_strlit("update-initramfs");
    reveal_strlit("--zero-superblock");
    reveal_strlit("/usr/local/sbin/raiden");
}

} // verus!
