//! Brings a degraded root online from the initramfs, so that the boot can continue. It
//! looks whether the root is mounted already; if not, the stack's recovery actions are
//! carried out, each confirmed unless yes is assumed. An action is judged by whether the
//! root is mounted in the end, not by how its steps exit.
use vstd::prelude::*;
use vstd::string::*;

use crate::doctor::repair::{describe_steps, described};
use crate::stack::{actions, RecoverAction, RecoverModel};
use crate::text::{
    cmd, dec, decimal, fields, head_all, headed, lines, push_texts, same, split_fields, split_lines,
    texts, ArgList,
};

verus! {

/// Whether a line of /proc/mounts mounts something at the path, its second field.
pub open spec fn mounts_at(line: Seq<char>, path: Seq<char>) -> bool {
    fields(line).len() > 1 && fields(line)[1] == path
}

/// Whether the path is a mount point, by the text of /proc/mounts.
pub open spec fn mounted(mounts: Seq<char>, path: Seq<char>) -> bool {
    exists|i: int| 0 <= i < lines(mounts).len() && mounts_at(#[trigger] lines(mounts)[i], path)
}

/// Whether the path is a mount point, by the text of /proc/mounts (empty where it cannot
/// be read). No outside tool is needed, so this works in the bare initramfs.
pub fn is_mounted(mounts: &str, path: &str) -> (r: bool)
    ensures
        r == mounted(mounts@, path@),
{
    let all = split_lines(mounts);
    let ghost ls = texts(all@);
    let mut i: usize = 0;
    while i < all.len()
        invariant
            i <= all.len(),
            ls == texts(all@),
            ls == lines(mounts@),
            forall|k: int| 0 <= k < i ==> !mounts_at(#[trigger] ls[k], path@),
        decreases all.len() - i,
    {
        assert(ls[i as int] == all@[i as int]@);
        let f = split_fields(all[i].as_str());
        assert(texts(f@).len() == f@.len());
        if f.len() > 1 {
            assert(texts(f@)[1] == f@[1]@);
            if same(f[1].as_str(), path) {
                assert(mounts_at(lines(mounts@)[i as int], path@));
                return true;
            }
        }
        i += 1;
    }
    false
}

/// The preview of one action, under its number.
pub open spec fn action_block(n: nat, a: RecoverModel) -> Seq<Seq<char>> {
    (seq!["["@ + dec(n) + "] "@ + a.label] + headed("    "@, described(a.steps))).push(""@)
}

/// The preview of the actions, in order.
pub open spec fn action_blocks(v: Seq<RecoverModel>) -> Seq<Seq<char>>
    decreases v.len(),
{
    if v.len() == 0 {
        Seq::empty()
    } else {
        action_blocks(v.drop_last()) + action_block(v.len(), v.last())
    }
}

/// The preview of a recovery: each action and the commands that it would run.
pub fn preview(v: &Vec<RecoverAction>, at: &str) -> (r: Vec<String>)
    ensures
        texts(r@) == seq!["# recovery flow: bring the root online at "@ + at@ + "\n"@]
            + action_blocks(actions(v@)),
{
    let ghost m = actions(v@);
    let mut out = cmd(
        "# recovery flow: bring the root online at ".to_owned().concat(at).concat("\n").as_str(),
    );
    let ghost heading = texts(out@);
    let mut i: usize = 0;
    assert(heading + action_blocks(m.take(0)) =~= heading);
    while i < v.len()
        invariant
            i <= v.len(),
            m == actions(v@),
            texts(out@) == heading + action_blocks(m.take(i as int)),
        decreases v.len() - i,
    {
        assert(m.take(i + 1).drop_last() =~= m.take(i as int));
        assert(m.take(i + 1).last() == v@[i as int]@);
        let title = "[".to_owned().concat(decimal(i as u64 + 1).as_str()).concat("] ").concat(
            v[i].label.as_str(),
        );
        let block = cmd(title.as_str()).args(
            &head_all("    ", &describe_steps(&v[i].steps)),
        ).arg("");
        push_texts(&mut out, &block);
        assert(texts(out@) =~= heading + action_blocks(m.take(i + 1)));
        i += 1;
    }
    assert(m.take(m.len() as int) =~= m);
    out
}

/// How a recovery opens.
#[derive(Clone, Copy, PartialEq, Eq, Structural, Debug)]
pub enum Opening {
    /// Only the preview is printed.
    Preview,
    /// The root is mounted; there is nothing to recover.
    Mounted,
    /// The actions are carried out.
    Recover,
}

/// How a recovery opens: a preview looks at nothing, and a mounted root is left alone.
pub fn open_recovery(dry_run: bool, root_mounted: bool) -> (r: Opening)
    ensures
        r == (if dry_run {
            Opening::Preview
        } else if root_mounted {
            Opening::Mounted
        } else {
            Opening::Recover
        }),
{
    if dry_run {
        Opening::Preview
    } else if root_mounted {
        Opening::Mounted
    } else {
        Opening::Recover
    }
}

/// What a recovery comes to: the boot can continue exactly where the root is mounted.
pub fn outcome(root_mounted: bool, at: &str) -> (r: Result<String, String>)
    ensures
        match r {
            Ok(s) => root_mounted && s@ == "\nrecover: root mounted at "@ + at@
                + "; exit the shell to continue booting"@,
            Err(e) => !root_mounted && e@ == "recover: root is still not mounted at "@ + at@,
        },
{
    if root_mounted {
        Ok(
            "\nrecover: root mounted at ".to_owned().concat(at).concat(
                "; exit the shell to continue booting",
            ),
        )
    } else {
        Err("recover: root is still not mounted at ".to_owned().concat(at))
    }
}

/// The preview of a recovery shows every action, and every command of each.
pub proof fn every_action_is_previewed(v: Seq<RecoverModel>, k: int, j: int) -> (i: int)
    requires
        0 <= k < v.len(),
    ensures
        0 <= i < action_blocks(v).len(),
        action_blocks(v)[i] == "["@ + dec((k + 1) as nat) + "] "@ + v[k].label,
        0 <= j < described(v[k].steps).len() ==> i + 1 + j < action_blocks(v).len()
            && action_blocks(v)[i + 1 + j] == "    "@ + described(v[k].steps)[j],
    decreases v.len(),
{
    let rest = v.drop_last();
    let before = action_blocks(rest);
    let all = action_blocks(v);
    if k < rest.len() {
        assert(rest[k] == v[k]);
        let i = every_action_is_previewed(rest, k, j);
        assert(all[i] == before[i]);
        if 0 <= j < described(v[k].steps).len() {
            assert(all[i + 1 + j] == before[i + 1 + j]);
        }
        i
    } else {
        assert(v.last() == v[k]);
        let block = action_block(v.len(), v.last());
        let i = before.len() as int;
        assert(all[i] == block[0]);
        if 0 <= j < described(v[k].steps).len() {
            assert(all[i + 1 + j] == block[1 + j]);
        }
        i
    }
}

} // verus!
