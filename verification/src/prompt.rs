//! What the answers to interactive prompts mean: the encryption password, the
//! confirmation of a destructive operation, and menu choices.
use vstd::prelude::*;
use vstd::string::*;

use crate::text::{parse_number, parsed, same, slice_string, texts, to_chars, trim, trimmed};

verus! {

pub const ASK_PASSWORD: &'static str = "encryption password: ";

pub const ASK_AGAIN: &'static str = "encryption password (verify): ";

/// Where the password dialogue stands: at its start, or with a first entry that is
/// to be typed again.
pub enum Dialogue {
    Start,
    Verify(String),
}

/// What one more line of input leads to.
pub enum Reply {
    /// Ask again from the start: the entry was empty.
    Empty,
    /// Ask for the entry once more.
    Again(String),
    /// Ask again from the start: the entries differ.
    Mismatch,
    /// The password.
    Done(String),
}

/// What the next line of input leads to.
pub fn password_reply(verify: bool, at: Dialogue, line: String) -> (r: Reply)
    ensures
        at is Start && line@.len() == 0 ==> r is Empty,
        at is Start && line@.len() > 0 && !verify ==> r is Done && r->Done_0@ == line@,
        at is Start && line@.len() > 0 && verify ==> r is Again && r->Again_0@ == line@,
        at is Verify && at->Verify_0@ == line@ ==> r is Done && r->Done_0@ == line@,
        at is Verify && at->Verify_0@ != line@ ==> r is Mismatch,
{
    match at {
        Dialogue::Start => if line.as_str().is_empty() {
            Reply::Empty
        } else if verify {
            Reply::Again(line)
        } else {
            Reply::Done(line)
        },
        Dialogue::Verify(first) => if same(first.as_str(), line.as_str()) {
            Reply::Done(first)
        } else {
            Reply::Mismatch
        },
    }
}

/// The password that the lines of input settle on: the first entry that is not empty
/// and, where it is verified, is typed the same again. None where the input ends first.
pub open spec fn settled(verify: bool, lines: Seq<Seq<char>>) -> Option<Seq<char>>
    decreases lines.len(),
{
    if lines.len() == 0 {
        None
    } else if lines[0].len() == 0 {
        settled(verify, lines.skip(1))
    } else if !verify {
        Some(lines[0])
    } else if lines.len() == 1 {
        None
    } else if lines[0] == lines[1] {
        Some(lines[0])
    } else {
        settled(verify, lines.skip(2))
    }
}

/// The input ended before a password was settled on.
#[derive(Debug)]
pub struct EndOfInput;

/// Reads the password from lines of input: an empty entry, or (where it is verified)
/// a pair of entries that differ, starts the dialogue over.
pub fn read_password(verify: bool, lines: &Vec<String>) -> (res: Result<String, EndOfInput>)
    ensures
        res is Ok <==> settled(verify, texts(lines@)) is Some,
        res is Ok ==> Some(res->Ok_0@) == settled(verify, texts(lines@)),
{
    let ghost all = texts(lines@);
    let mut i: usize = 0;
    let mut at = Dialogue::Start;
    let ghost mut from: int = 0;
    assert(all.skip(0) =~= all);
    while i < lines.len()
        invariant
            all == texts(lines@),
            0 <= from <= i <= lines.len(),
            settled(verify, all) == settled(verify, all.skip(from)),
            at is Start ==> from == i,
            at is Verify ==> verify && from + 1 == i && at->Verify_0@ == all[from]
                && all[from].len() > 0,
        decreases lines.len() - i,
    {
        proof {
            let left = all.skip(from);
            assert(left[0] == all[from]);
            assert(left.skip(1) =~= all.skip(from + 1));
            if from + 1 == i {
                assert(left[1] == all[i as int]);
                assert(left.skip(2) =~= all.skip(from + 2));
            }
        }
        let line = lines[i].clone();
        i += 1;
        match password_reply(verify, at, line) {
            Reply::Empty => {
                at = Dialogue::Start;
                proof {
                    from = i as int;
                }
            },
            Reply::Again(first) => {
                at = Dialogue::Verify(first);
            },
            Reply::Mismatch => {
                at = Dialogue::Start;
                proof {
                    from = i as int;
                }
            },
            Reply::Done(pw) => {
                return Ok(pw);
            },
        }
    }
    Err(EndOfInput)
}

/// A password is never empty, and is one of the lines that were typed.
pub proof fn a_settled_password_was_typed(verify: bool, lines: Seq<Seq<char>>)
    ensures
        settled(verify, lines) is Some ==> settled(verify, lines)->0.len() > 0 && lines.contains(
            settled(verify, lines)->0,
        ),
    decreases lines.len(),
{
    if lines.len() > 0 && settled(verify, lines) is Some {
        let n: int = if lines[0].len() == 0 {
            1
        } else {
            2
        };
        if lines[0].len() == 0 || (verify && lines.len() > 1 && lines[0] != lines[1]) {
            let rest = lines.skip(n);
            a_settled_password_was_typed(verify, rest);
            let k = choose|k: int| 0 <= k < rest.len() && rest[k] == settled(verify, rest)->0;
            assert(lines[k + n] == rest[k]);
        } else {
            assert(lines[0] == settled(verify, lines)->0);
        }
    }
}

/// Whether an answer is yes: "y" or "yes" in any case, white space around it aside.
pub open spec fn says_yes(line: Seq<char>) -> bool {
    let a = trimmed(line);
    ||| a.len() == 1 && (a[0] == 'y' || a[0] == 'Y')
    ||| a.len() == 3 && (a[0] == 'y' || a[0] == 'Y') && (a[1] == 'e' || a[1] == 'E') && (a[2] == 's'
        || a[2] == 'S')
}

/// Whether the answer confirms.
pub fn confirm(line: &str) -> (r: bool)
    ensures
        r == says_yes(line@),
{
    let answer = trim(line);
    let a = to_chars(answer.as_str());
    if a.len() == 1 {
        a[0] == 'y' || a[0] == 'Y'
    } else if a.len() == 3 {
        (a[0] == 'y' || a[0] == 'Y') && (a[1] == 'e' || a[1] == 'E') && (a[2] == 's' || a[2] == 'S')
    } else {
        false
    }
}

/// Whether a question needs to be asked at all: not where yes is assumed.
pub fn confirm_or_yes(yes: bool, line: &str) -> (r: bool)
    ensures
        r == (yes || says_yes(line@)),
{
    yes || confirm(line)
}

/// The answer, or the default where the answer is blank.
pub fn ask(line: &str, default: &str) -> (r: String)
    ensures
        r@ == (if trimmed(line@).len() == 0 {
            default@
        } else {
            trimmed(line@)
        }),
{
    let answer = trim(line);
    if answer.as_str().is_empty() {
        default.to_owned()
    } else {
        answer
    }
}

/// The position that a menu answer picks: a number from one to the number of options.
pub fn choose_option(answer: &str, options: usize) -> (r: Option<usize>)
    ensures
        r is Some <==> parsed(answer@) is Some && 1 <= parsed(answer@)->0 <= options,
        r is Some ==> r->0 + 1 == parsed(answer@)->0,
{
    match parse_number(answer) {
        Some(n) => if 1 <= n && n <= options as u64 {
            Some((n - 1) as usize)
        } else {
            None
        },
        None => None,
    }
}

/// A line without the carriage returns and newlines at its end.
pub open spec fn without_line_end(s: Seq<char>) -> Seq<char>
    decreases s.len(),
{
    if s.len() > 0 && (s.last() == '\r' || s.last() == '\n') {
        without_line_end(s.drop_last())
    } else {
        s
    }
}

/// Strips the carriage returns and newlines at the end of a line.
pub fn strip_line_end(s: &str) -> (r: String)
    ensures
        r@ == without_line_end(s@),
{
    let v = to_chars(s);
    let mut to: usize = v.len();
    assert(v@.subrange(0, to as int) =~= v@);
    while 0 < to && (v[to - 1] == '\r' || v[to - 1] == '\n')
        invariant
            to <= v@.len(),
            without_line_end(v@.subrange(0, to as int)) == without_line_end(s@),
        decreases to,
    {
        assert(v@.subrange(0, to as int).drop_last() =~= v@.subrange(0, to - 1));
        to -= 1;
    }
    slice_string(&v, 0, to)
}

/// A password that is to be verified was typed twice in a row, and whatever was typed
/// before it was empty or did not match.
pub proof fn a_verified_password_was_typed_twice(lines: Seq<Seq<char>>) -> (k: int)
    ensures
        settled(true, lines) is Some ==> 0 <= k && k + 1 < lines.len() && lines[k] == settled(
            true,
            lines,
        )->0 && lines[k + 1] == settled(true, lines)->0,
    decreases lines.len(),
{
    if lines.len() == 0 {
        0
    } else if lines[0].len() == 0 {
        let k = a_verified_password_was_typed_twice(lines.skip(1));
        if settled(true, lines) is Some {
            assert(lines.skip(1)[k] == lines[k + 1]);
            assert(lines.skip(1)[k + 1] == lines[k + 2]);
        }
        k + 1
    } else if lines.len() == 1 || lines[0] == lines[1] {
        0
    } else {
        let k = a_verified_password_was_typed_twice(lines.skip(2));
        if settled(true, lines) is Some {
            assert(lines.skip(2)[k] == lines[k + 2]);
            assert(lines.skip(2)[k + 1] == lines[k + 3]);
        }
        k + 2
    }
}

/// A password that was typed is taken: at once where it is not verified, and where it is,
/// when it was typed again.
pub proof fn a_typed_password_is_taken(password: Seq<char>, more: Seq<Seq<char>>)
    requires
        password.len() > 0,
    ensures
        settled(false, seq![password] + more) == Some(password),
        settled(true, seq![password, password] + more) == Some(password),
        settled(false, seq![Seq::<char>::empty()] + more) == settled(false, more),
        settled(true, seq![Seq::<char>::empty()] + more) == settled(true, more),
{
    let a = seq![Seq::<char>::empty()] + more;
    assert(a[0].len() == 0);
    assert(a.skip(1) =~= more);
    let b = seq![password] + more;
    assert(b[0] == password);
    let c = seq![password, password] + more;
    assert(c[0] == password && c[1] == password);
}

} // verus!
