//! Text: lists of words, number formatting, and the small parsing vocabulary
//! (lines, fields, trimming, searching) that the rest of the crate is stated over.
//! A string is modelled by its sequence of characters.
use vstd::prelude::*;
use vstd::string::*;

verus! {

// ---------------------------------------------------------------- word lists

/// The contents of a list of strings.
pub open spec fn texts(v: Seq<String>) -> Seq<Seq<char>> {
    v.map_values(|s: String| s@)
}

/// Appending a string to a list appends its text.
pub broadcast proof fn texts_push(v: Seq<String>, s: String)
    ensures
        #[trigger] texts(v.push(s)) == texts(v).push(s@),
{
    assert(texts(v.push(s)) =~= texts(v).push(s@));
}

/// `String::push` appends one character.
pub assume_specification[ String::push ](s: &mut String, c: char)
    ensures
        final(s)@ == old(s)@.push(c),
;

/// How a text is shown in a message: in quotes.
pub uninterp spec fn shown_text(s: Seq<char>) -> Seq<char>;

/// Formats a text with `{:?}`, through std's `Debug` for `str`. The result is a function
/// of the text alone, by the name `shown_text`; how it escapes is left unsaid.
#[verifier::external_body]
pub(crate) fn show_text(s: &str) -> (r: String)
    ensures
        r@ == shown_text(s@),
{
    format!("{s:?}")
}

/// The list of words that a `&[&str]` spells.
pub open spec fn spelled(v: Seq<&str>) -> Seq<Seq<char>> {
    v.map_values(|s: &str| s@)
}

/// Appends a copy of `word` to the list.
pub fn push_text(v: &mut Vec<String>, word: &str)
    ensures
        texts(final(v)@) == texts(old(v)@).push(word@),
{
    let s = word.to_owned();
    proof {
        texts_push(v@, s);
    }
    v.push(s);
}

/// Appends copies of all of `more` to the list.
pub fn push_texts(v: &mut Vec<String>, more: &Vec<String>)
    ensures
        texts(final(v)@) == texts(old(v)@) + texts(more@),
{
    let ghost start = texts(v@);
    let mut i: usize = 0;
    while i < more.len()
        invariant
            i <= more.len(),
            texts(v@) == start + texts(more@).take(i as int),
        decreases more.len() - i,
    {
        push_text(v, more[i].as_str());
        assert(texts(more@).take(i + 1) =~= texts(more@).take(i as int).push(texts(more@)[i as int]));
        i += 1;
    }
    assert(texts(more@).take(more@.len() as int) =~= texts(more@));
}

/// A command line that so far holds one word.
pub fn cmd(word: &str) -> (r: Vec<String>)
    ensures
        texts(r@) == seq![word@],
{
    let mut v: Vec<String> = Vec::new();
    assert(texts(v@) =~= Seq::<Seq<char>>::empty());
    push_text(&mut v, word);
    v
}

/// Builds a command line word by word.
pub trait ArgList: Sized {
    /// The command line with one more word.
    fn arg(self, word: &str) -> Self;

    /// The command line with more words.
    fn args(self, more: &Vec<String>) -> Self;
}

impl ArgList for Vec<String> {
    fn arg(self, word: &str) -> (r: Self)
        ensures
            texts(r@) == texts(self@).push(word@),
    {
        let mut v = self;
        push_text(&mut v, word);
        v
    }

    fn args(self, more: &Vec<String>) -> (r: Self)
        ensures
            texts(r@) == texts(self@) + texts(more@),
    {
        let mut v = self;
        push_texts(&mut v, more);
        v
    }
}

/// An owned copy of a list of borrowed words.
pub fn strs(v: &[&str]) -> (r: Vec<String>)
    ensures
        texts(r@) == spelled(v@),
{
    let mut out: Vec<String> = Vec::new();
    let mut i: usize = 0;
    while i < v.len()
        invariant
            i <= v.len(),
            texts(out@) =~= spelled(v@).take(i as int),
        decreases v.len() - i,
    {
        push_text(&mut out, v[i]);
        i += 1;
    }
    assert(spelled(v@).take(v@.len() as int) =~= spelled(v@));
    out
}

/// An exact copy of a list of strings.
pub fn copy_texts(v: &Vec<String>) -> (r: Vec<String>)
    ensures
        r@ == v@,
{
    let mut out: Vec<String> = Vec::new();
    let mut i: usize = 0;
    while i < v.len()
        invariant
            i <= v.len(),
            out@ =~= v@.take(i as int),
        decreases v.len() - i,
    {
        out.push(v[i].clone());
        i += 1;
    }
    assert(v@.take(v@.len() as int) =~= v@);
    out
}

/// The list from its last string to its first.
pub fn reversed(v: &Vec<String>) -> (r: Vec<String>)
    ensures
        texts(r@) == texts(v@).reverse(),
{
    let mut out: Vec<String> = Vec::new();
    let mut i: usize = v.len();
    while i > 0
        invariant
            i <= v.len(),
            texts(out@) =~= texts(v@).skip(i as int).reverse(),
        decreases i,
    {
        i -= 1;
        push_text(&mut out, v[i].as_str());
    }
    assert(texts(v@).skip(0) =~= texts(v@));
    out
}

/// All but the first entry of a list.
pub open spec fn rest<T>(v: Seq<T>) -> Seq<T> {
    if v.len() > 0 {
        v.skip(1)
    } else {
        v
    }
}

/// Copies of all but the first string of a list.
pub fn rest_of(v: &Vec<String>) -> (r: Vec<String>)
    ensures
        texts(r@) == rest(texts(v@)),
{
    let mut out: Vec<String> = Vec::new();
    let mut i: usize = 1;
    while i < v.len()
        invariant
            1 <= i,
            i <= v.len() || (i == 1 && v.len() == 0),
            texts(out@) =~= (if v.len() > 0 {
                texts(v@).subrange(1, i as int)
            } else {
                Seq::empty()
            }),
        decreases v.len() - i,
    {
        push_text(&mut out, v[i].as_str());
        i += 1;
    }
    assert(texts(out@) =~= rest(texts(v@)));
    out
}

/// The content of an optional string.
pub open spec fn opt_text(s: Option<String>) -> Option<Seq<char>> {
    match s {
        Some(v) => Some(v@),
        None => None,
    }
}

/// The contents of an optional list of strings.
pub open spec fn opt_texts(s: Option<Vec<String>>) -> Option<Seq<Seq<char>>> {
    match s {
        Some(v) => Some(texts(v@)),
        None => None,
    }
}

/// The text at a position, where there is one.
pub open spec fn text_at(v: Seq<Option<String>>, i: int) -> Option<Seq<char>> {
    if 0 <= i < v.len() {
        opt_text(v[i])
    } else {
        None
    }
}

/// The text at a position, where there is one.
pub fn nth_text(v: &Vec<Option<String>>, i: usize) -> (r: Option<String>)
    ensures
        opt_text(r) == text_at(v@, i as int),
{
    if i < v.len() {
        match &v[i] {
            Some(s) => Some(s.clone()),
            None => None,
        }
    } else {
        None
    }
}

/// Whether the flag at a position is set.
pub open spec fn flag_at(v: Seq<bool>, i: int) -> bool {
    0 <= i < v.len() && v[i]
}

/// Whether the flag at a position is set.
pub fn nth_flag(v: &Vec<bool>, i: usize) -> (r: bool)
    ensures
        r == flag_at(v@, i as int),
{
    i < v.len() && v[i]
}

/// The texts that `f` finds in the items, in their order.
pub open spec fn collected<A>(v: Seq<A>, f: spec_fn(A) -> Option<Seq<char>>) -> Seq<Seq<char>>
    decreases v.len(),
{
    if v.len() == 0 {
        Seq::empty()
    } else {
        match f(v.last()) {
            Some(s) => collected(v.drop_last(), f).push(s),
            None => collected(v.drop_last(), f),
        }
    }
}

/// The first text that `f` finds in the items.
pub open spec fn found<A>(v: Seq<A>, f: spec_fn(A) -> Option<Seq<char>>) -> Option<Seq<char>>
    decreases v.len(),
{
    if v.len() == 0 {
        None
    } else if f(v[0]) is Some {
        f(v[0])
    } else {
        found(v.skip(1), f)
    }
}

/// What is found is found at the first item in which there is something to find.
pub proof fn found_at<A>(v: Seq<A>, f: spec_fn(A) -> Option<Seq<char>>, i: int)
    requires
        0 <= i <= v.len(),
        forall|k: int| 0 <= k < i ==> f(#[trigger] v[k]) is None,
        i < v.len() ==> f(v[i]) is Some,
    ensures
        found(v, f) == (if i < v.len() {
            f(v[i])
        } else {
            None
        }),
    decreases v.len(),
{
    if i > 0 {
        assert(f(v[0]) is None);
        assert forall|k: int| 0 <= k < i - 1 implies f(#[trigger] v.skip(1)[k]) is None by {
            assert(v.skip(1)[k] == v[k + 1]);
        }
        found_at(v.skip(1), f, i - 1);
    }
}

/// Whether two strings hold the same text.
pub fn same(a: &str, b: &str) -> (r: bool)
    ensures
        r == (a@ == b@),
{
    a.to_owned() == b.to_owned()
}

/// Whether `word` is one of the strings in the list.
pub fn lists(v: &Vec<String>, word: &str) -> (r: bool)
    ensures
        r == texts(v@).contains(word@),
{
    let mut i: usize = 0;
    while i < v.len()
        invariant
            i <= v.len(),
            forall|j: int| 0 <= j < i ==> texts(v@)[j] != word@,
        decreases v.len() - i,
    {
        if same(v[i].as_str(), word) {
            assert(texts(v@)[i as int] == word@);
            return true;
        }
        i += 1;
    }
    false
}

/// The parts in order, with `sep` between neighbours.
pub open spec fn joined(parts: Seq<Seq<char>>, sep: Seq<char>) -> Seq<char>
    decreases parts.len(),
{
    if parts.len() == 0 {
        Seq::empty()
    } else if parts.len() == 1 {
        parts[0]
    } else {
        joined(parts.drop_last(), sep) + sep + parts.last()
    }
}

/// Joins the strings with `sep` between neighbours.
pub fn join(parts: &Vec<String>, sep: &str) -> (r: String)
    ensures
        r@ == joined(texts(parts@), sep@),
{
    let mut out = String::new();
    let mut i: usize = 0;
    while i < parts.len()
        invariant
            i <= parts.len(),
            out@ == joined(texts(parts@).take(i as int), sep@),
        decreases parts.len() - i,
    {
        let ghost next = texts(parts@).take(i + 1);
        assert(next.drop_last() =~= texts(parts@).take(i as int));
        if i > 0 {
            out.append(sep);
        }
        out.append(parts[i].as_str());
        assert(i == 0 ==> out@ =~= next[0]);
        i += 1;
    }
    assert(texts(parts@).take(parts@.len() as int) =~= texts(parts@));
    out
}

/// Every part with `head` before it.
pub open spec fn headed(head: Seq<char>, parts: Seq<Seq<char>>) -> Seq<Seq<char>> {
    parts.map_values(|p: Seq<char>| head + p)
}

/// Every string with `head` before it.
pub fn head_all(head: &str, parts: &Vec<String>) -> (r: Vec<String>)
    ensures
        texts(r@) == headed(head@, texts(parts@)),
{
    let mut out: Vec<String> = Vec::new();
    let mut i: usize = 0;
    while i < parts.len()
        invariant
            i <= parts.len(),
            texts(out@) =~= headed(head@, texts(parts@)).take(i as int),
        decreases parts.len() - i,
    {
        let s = head.to_owned().concat(parts[i].as_str());
        push_text(&mut out, s.as_str());
        i += 1;
    }
    assert(headed(head@, texts(parts@)).take(parts@.len() as int) =~= headed(head@, texts(parts@)));
    out
}

// ------------------------------------------------------------------- numbers

/// The digit `d` of a base up to sixteen, in lower case.
pub open spec fn digit(d: nat) -> char {
    if d < 10 {
        (48 + d) as char
    } else {
        (87 + d) as char
    }
}

/// The positional notation of `n` in `base`, most significant digit first.
pub open spec fn notation(n: nat, base: nat) -> Seq<char>
    decreases n,
{
    if n < base || base < 2 {
        seq![digit(n)]
    } else {
        proof {
            assert(n / base < n) by (nonlinear_arith)
                requires
                    base >= 2,
                    n >= base,
            ;
        }
        notation(n / base, base).push(digit(n % base))
    }
}

/// The decimal notation of `n`.
pub open spec fn dec(n: nat) -> Seq<char> {
    notation(n, 10)
}

/// `s` preceded by as many `c` as bring it to `width` characters.
pub open spec fn padded(s: Seq<char>, width: nat, c: char) -> Seq<char>
    decreases width - s.len(),
{
    if s.len() >= width {
        s
    } else {
        padded(seq![c] + s, width, c)
    }
}

fn digit_char(d: u64) -> (c: char)
    requires
        d < 16,
    ensures
        c == digit(d as nat),
{
    if d < 10 {
        (48 + d as u8) as char
    } else {
        (87 + d as u8) as char
    }
}

/// The positional notation of `n` in `base`.
pub fn number(n: u64, base: u64) -> (r: String)
    requires
        2 <= base <= 16,
    ensures
        r@ == notation(n as nat, base as nat),
    decreases n,
{
    if n < base {
        let mut s = String::new();
        s.push(digit_char(n));
        assert(s@ =~= seq![digit(n as nat)]);
        s
    } else {
        assert(n / base < n) by (nonlinear_arith)
            requires
                base >= 2,
                n >= base,
        ;
        let mut s = number(n / base, base);
        s.push(digit_char(n % base));
        s
    }
}

/// The decimal notation of `n`.
pub fn decimal(n: u64) -> (r: String)
    ensures
        r@ == dec(n as nat),
{
    number(n, 10)
}

/// `s` preceded by as many `c` as bring it to `width` characters.
pub fn pad_left(s: String, width: usize, c: char) -> (r: String)
    ensures
        r@ == padded(s@, width as nat, c),
{
    let mut out = s;
    let mut n: usize = out.as_str().unicode_len();
    let ghost goal = padded(s@, width as nat, c);
    while n < width
        invariant
            n == out@.len(),
            padded(out@, width as nat, c) == goal,
        decreases width - n,
    {
        let mut longer = String::new();
        longer.push(c);
        longer.append(out.as_str());
        assert(longer@ =~= seq![c] + out@);
        out = longer;
        n += 1;
    }
    out
}

/// `s` followed by as many blanks as bring it to `width` characters.
pub open spec fn filled(s: Seq<char>, width: nat) -> Seq<char>
    decreases width - s.len(),
{
    if s.len() >= width {
        s
    } else {
        filled(s.push(' '), width)
    }
}

/// `s` followed by as many blanks as bring it to `width` characters.
pub fn pad_right(s: &str, width: usize) -> (r: String)
    ensures
        r@ == filled(s@, width as nat),
{
    let mut out = s.to_owned();
    let mut n: usize = s.unicode_len();
    while n < width
        invariant
            n == out@.len(),
            filled(out@, width as nat) == filled(s@, width as nat),
        decreases width - n,
    {
        out.push(' ');
        n += 1;
    }
    out
}

/// The value of a sequence of decimal digits.
pub open spec fn digits_value(s: Seq<char>) -> nat
    decreases s.len(),
{
    if s.len() == 0 {
        0
    } else {
        digits_value(s.drop_last()) * 10 + (s.last() as nat - 48) as nat
    }
}

/// Whether every character is a decimal digit.
pub open spec fn all_digits(s: Seq<char>) -> bool {
    forall|i: int| 0 <= i < s.len() ==> '0' <= #[trigger] s[i] <= '9'
}

/// The number that a text spells: digits, with or without a plus sign before them.
pub open spec fn parsed(s: Seq<char>) -> Option<nat> {
    let d = if s.len() > 0 && s[0] == '+' {
        s.skip(1)
    } else {
        s
    };
    if d.len() > 0 && all_digits(d) && digits_value(d) <= u64::MAX {
        Some(digits_value(d))
    } else {
        None
    }
}

/// The signed number that a text spells: digits, with or without a sign before them.
pub open spec fn parsed_int(s: Seq<char>) -> Option<int> {
    if s.len() > 0 && s[0] == '-' {
        let d = s.skip(1);
        if d.len() > 0 && all_digits(d) && digits_value(d) <= -i64::MIN {
            Some(-digits_value(d))
        } else {
            None
        }
    } else {
        match parsed(s) {
            Some(n) => if n <= i64::MAX {
                Some(n as int)
            } else {
                None
            },
            None => None,
        }
    }
}

proof fn value_grows(s: Seq<char>, n: int)
    requires
        0 <= n <= s.len(),
        all_digits(s),
    ensures
        digits_value(s.take(n)) <= digits_value(s),
    decreases s.len(),
{
    if n < s.len() {
        assert(s.drop_last().take(n) =~= s.take(n));
        value_grows(s.drop_last(), n);
    } else {
        assert(s.take(n) =~= s);
    }
}

/// The number that a text spells, where it fits in 64 bits.
pub fn parse_number(s: &str) -> (r: Option<u64>)
    ensures
        r is Some <==> parsed(s@) is Some,
        r is Some ==> r->0 as nat == parsed(s@)->0,
{
    let v = to_chars(s);
    let from: usize = if v.len() > 0 && v[0] == '+' {
        1
    } else {
        0
    };
    let ghost d = s@.skip(from as int);
    assert(from == 0 ==> d =~= s@);
    if from == v.len() {
        return None;
    }
    let mut n: u64 = 0;
    let mut i: usize = from;
    assert(d.take(0) =~= Seq::<char>::empty());
    while i < v.len()
        invariant
            v@ == s@,
            from <= i <= v.len(),
            d == s@.skip(from as int),
            parsed(s@) is Some ==> all_digits(d) && digits_value(d) <= u64::MAX,
            all_digits(d.take(i - from)),
            n == digits_value(d.take(i - from)),
        decreases v.len() - i,
    {
        let c = v[i];
        assert(d[i - from] == c);
        if !('0' <= c && c <= '9') {
            assert(!all_digits(d));
            return None;
        }
        let ghost next = d.take(i - from + 1);
        proof {
            assert(next.drop_last() =~= d.take(i - from));
            assert(next.last() == c);
            assert(all_digits(next)) by {
                assert forall|k: int| 0 <= k < next.len() implies '0' <= #[trigger] next[k]
                    <= '9' by {
                    if k < i - from {
                        assert(next[k] == d.take(i - from)[k]);
                    }
                }
            }
        }
        let digit: u64 = (c as u32 - 48) as u64;
        if n > (u64::MAX - digit) / 10 {
            proof {
                assert(digits_value(next) > u64::MAX);
                if all_digits(d) {
                    value_grows(d, i - from + 1);
                }
            }
            return None;
        }
        n = n * 10 + digit;
        i += 1;
    }
    assert(d.take(d.len() as int) =~= d);
    Some(n)
}

/// The signed number that a text spells, where it fits in 64 bits.
pub fn parse_int(s: &str) -> (r: Option<i64>)
    ensures
        r is Some <==> parsed_int(s@) is Some,
        r is Some ==> r->0 as int == parsed_int(s@)->0,
{
    let v = to_chars(s);
    if v.len() > 0 && v[0] == '-' {
        if v.len() > 1 && v[1] == '+' {
            assert(!all_digits(s@.skip(1))) by {
                assert(s@.skip(1)[0] == '+');
            }
            return None;
        }
        let rest = slice_string(&v, 1, v.len());
        assert(rest@ =~= s@.skip(1));
        match parse_number(rest.as_str()) {
            Some(n) => if n <= 9223372036854775807u64 {
                Some(-(n as i64))
            } else if n == 9223372036854775808u64 {
                Some(i64::MIN)
            } else {
                None
            },
            None => None,
        }
    } else {
        match parse_number(s) {
            Some(n) => if n <= 9223372036854775807u64 {
                Some(n as i64)
            } else {
                None
            },
            None => None,
        }
    }
}

// ------------------------------------------------------------------- parsing

/// The characters of a string.
pub fn to_chars(s: &str) -> (r: Vec<char>)
    ensures
        r@ == s@,
{
    let mut v: Vec<char> = Vec::new();
    for c in it: s.chars()
        invariant
            v@ == s@.take(it.index() as int),
            it.seq() == s@,
    {
        v.push(c);
    }
    v
}

/// The string of the characters from `from` up to `to`.
pub fn slice_string(v: &Vec<char>, from: usize, to: usize) -> (r: String)
    requires
        from <= to <= v@.len(),
    ensures
        r@ == v@.subrange(from as int, to as int),
{
    let mut s = String::new();
    let mut i: usize = from;
    while i < to
        invariant
            from <= i <= to <= v@.len(),
            s@ =~= v@.subrange(from as int, i as int),
        decreases to - i,
    {
        s.push(v[i]);
        i += 1;
    }
    s
}

/// The White_Space property of Unicode.
pub open spec fn is_white(c: char) -> bool {
    ||| '\u{9}' <= c <= '\u{d}'
    ||| c == ' '
    ||| c == '\u{85}'
    ||| c == '\u{a0}'
    ||| c == '\u{1680}'
    ||| '\u{2000}' <= c <= '\u{200a}'
    ||| c == '\u{2028}'
    ||| c == '\u{2029}'
    ||| c == '\u{202f}'
    ||| c == '\u{205f}'
    ||| c == '\u{3000}'
}

/// Whether `c` has the White_Space property.
pub fn white(c: char) -> (r: bool)
    ensures
        r == is_white(c),
{
    ('\u{9}' <= c && c <= '\u{d}') || c == ' ' || c == '\u{85}' || c == '\u{a0}' || c == '\u{1680}' || (
    '\u{2000}' <= c && c <= '\u{200a}') || c == '\u{2028}' || c == '\u{2029}' || c == '\u{202f}' || c
        == '\u{205f}' || c == '\u{3000}'
}

/// What separates the pieces of a text.
#[derive(Clone, Copy)]
pub enum Sep {
    Is(char),
    White,
}

impl Sep {
    /// Whether the character is a separator.
    pub open spec fn at(self, c: char) -> bool {
        match self {
            Sep::Is(x) => c == x,
            Sep::White => is_white(c),
        }
    }

    fn hits(self, c: char) -> (r: bool)
        ensures
            r == self.at(c),
    {
        match self {
            Sep::Is(x) => c == x,
            Sep::White => white(c),
        }
    }
}

/// The position of the first separator in `s`, or its length where there is none.
pub open spec fn first_sep(s: Seq<char>, sep: Sep) -> int
    decreases s.len(),
{
    if s.len() == 0 || sep.at(s[0]) {
        0
    } else {
        1 + first_sep(s.skip(1), sep)
    }
}

/// The pieces between separators: one more than there are separators.
pub open spec fn pieces(s: Seq<char>, sep: Sep) -> Seq<Seq<char>>
    decreases s.len(),
{
    let i = first_sep(s, sep);
    if 0 <= i < s.len() {
        seq![s.take(i)] + pieces(s.skip(i + 1), sep)
    } else {
        seq![s]
    }
}

/// The first separator stands where none stands before it.
pub proof fn first_sep_is(s: Seq<char>, sep: Sep, i: int)
    requires
        0 <= i <= s.len(),
        forall|j: int| 0 <= j < i ==> !sep.at(#[trigger] s[j]),
        i < s.len() ==> sep.at(s[i]),
    ensures
        first_sep(s, sep) == i,
    decreases i,
{
    if i > 0 {
        let t = s.skip(1);
        assert forall|j: int| 0 <= j < i - 1 implies !sep.at(#[trigger] t[j]) by {
            assert(t[j] == s[j + 1]);
        }
        first_sep_is(t, sep, i - 1);
        assert(!sep.at(s[0]));
    }
}

/// Cuts a text at every separator.
pub fn cut(s: &str, sep: Sep) -> (r: Vec<String>)
    ensures
        texts(r@) == pieces(s@, sep),
{
    let v = to_chars(s);
    let ghost text = s@;
    let mut out: Vec<String> = Vec::new();
    let mut start: usize = 0;
    let mut i: usize = 0;
    assert(text.skip(0) =~= text);
    assert(texts(out@) + pieces(text, sep) =~= pieces(text, sep));
    while i < v.len()
        invariant
            v@ == text,
            start <= i <= v@.len(),
            forall|j: int| start <= j < i ==> !sep.at(#[trigger] text[j]),
            texts(out@) + pieces(text.skip(start as int), sep) == pieces(text, sep),
        decreases v.len() - i,
    {
        if sep.hits(v[i]) {
            let piece = slice_string(&v, start, i);
            proof {
                let rest = text.skip(start as int);
                assert forall|j: int| 0 <= j < i - start implies !sep.at(#[trigger] rest[j]) by {
                    assert(rest[j] == text[start + j]);
                }
                first_sep_is(rest, sep, i - start);
                assert(rest.take(i - start) =~= piece@);
                assert(rest.skip(i - start + 1) =~= text.skip(i + 1));
                texts_push(out@, piece);
                assert(texts(out@).push(piece@) + pieces(text.skip(i + 1), sep) =~= texts(out@) + (
                seq![piece@] + pieces(text.skip(i + 1), sep)));
            }
            out.push(piece);
            start = i + 1;
        }
        i += 1;
    }
    let piece = slice_string(&v, start, v.len());
    proof {
        let rest = text.skip(start as int);
        assert forall|j: int| 0 <= j < rest.len() implies !sep.at(#[trigger] rest[j]) by {
            assert(rest[j] == text[start + j]);
        }
        first_sep_is(rest, sep, rest.len() as int);
        assert(piece@ =~= rest);
        texts_push(out@, piece);
        assert(texts(out@).push(piece@) =~= texts(out@) + seq![piece@]);
    }
    out.push(piece);
    out
}

/// The pieces of the list that are not empty.
pub open spec fn nonempty(v: Seq<Seq<char>>) -> Seq<Seq<char>>
    decreases v.len(),
{
    if v.len() == 0 {
        Seq::empty()
    } else {
        let rest = nonempty(v.drop_last());
        if v.last().len() == 0 {
            rest
        } else {
            rest.push(v.last())
        }
    }
}

/// The strings of the list that are not empty.
pub fn keep_nonempty(v: &Vec<String>) -> (r: Vec<String>)
    ensures
        texts(r@) == nonempty(texts(v@)),
{
    let mut out: Vec<String> = Vec::new();
    let mut i: usize = 0;
    while i < v.len()
        invariant
            i <= v.len(),
            texts(out@) =~= nonempty(texts(v@).take(i as int)),
        decreases v.len() - i,
    {
        assert(texts(v@).take(i + 1).drop_last() =~= texts(v@).take(i as int));
        if !v[i].as_str().is_empty() {
            push_text(&mut out, v[i].as_str());
        }
        i += 1;
    }
    assert(texts(v@).take(v@.len() as int) =~= texts(v@));
    out
}

/// The words between runs of white space.
pub open spec fn fields(s: Seq<char>) -> Seq<Seq<char>> {
    nonempty(pieces(s, Sep::White))
}

/// Splits a text into the words between runs of white space.
pub fn split_fields(s: &str) -> (r: Vec<String>)
    ensures
        texts(r@) == fields(s@),
{
    let all = cut(s, Sep::White);
    keep_nonempty(&all)
}

/// `s` without one carriage return at its end.
pub open spec fn without_cr(s: Seq<char>) -> Seq<char> {
    if s.len() > 0 && s.last() == '\r' {
        s.drop_last()
    } else {
        s
    }
}

/// The lines of a text. A line ends in a newline, with or without a carriage
/// return before it; the last one may lack its ending.
pub open spec fn lines(s: Seq<char>) -> Seq<Seq<char>> {
    let p = pieces(s, Sep::Is('\n'));
    let ended = p.drop_last().map_values(|l: Seq<char>| without_cr(l));
    if p.last().len() == 0 {
        ended
    } else {
        ended.push(p.last())
    }
}

proof fn pieces_not_empty(s: Seq<char>, sep: Sep)
    ensures
        pieces(s, sep).len() > 0,
    decreases s.len(),
{
    let i = first_sep(s, sep);
    if 0 <= i < s.len() {
        pieces_not_empty(s.skip(i + 1), sep);
    }
}

fn drop_cr(s: &str) -> (r: String)
    ensures
        r@ == without_cr(s@),
{
    let v = to_chars(s);
    if v.len() > 0 && v[v.len() - 1] == '\r' {
        let r = slice_string(&v, 0, v.len() - 1);
        assert(r@ =~= s@.drop_last());
        r
    } else {
        s.to_owned()
    }
}

/// Splits a text into its lines.
pub fn split_lines(s: &str) -> (r: Vec<String>)
    ensures
        texts(r@) == lines(s@),
{
    let all = cut(s, Sep::Is('\n'));
    proof {
        pieces_not_empty(s@, Sep::Is('\n'));
        assert(texts(all@).len() == all@.len());
    }
    let n: usize = all.len() - 1;
    let ghost p = texts(all@);
    let ghost ended = p.drop_last().map_values(|l: Seq<char>| without_cr(l));
    let mut out: Vec<String> = Vec::new();
    let mut i: usize = 0;
    while i < n
        invariant
            i <= n,
            n + 1 == all@.len(),
            p == texts(all@),
            ended == p.drop_last().map_values(|l: Seq<char>| without_cr(l)),
            texts(out@) =~= ended.take(i as int),
        decreases n - i,
    {
        let l = drop_cr(all[i].as_str());
        push_text(&mut out, l.as_str());
        i += 1;
    }
    assert(ended.take(n as int) =~= ended);
    if !all[n].as_str().is_empty() {
        push_text(&mut out, all[n].as_str());
    }
    out
}

/// `s` without the white space at its start.
pub open spec fn trimmed_start(s: Seq<char>) -> Seq<char>
    decreases s.len(),
{
    if s.len() > 0 && is_white(s[0]) {
        trimmed_start(s.skip(1))
    } else {
        s
    }
}

/// `s` without the white space at its end.
pub open spec fn trimmed_end(s: Seq<char>) -> Seq<char>
    decreases s.len(),
{
    if s.len() > 0 && is_white(s.last()) {
        trimmed_end(s.drop_last())
    } else {
        s
    }
}

/// `s` without the white space at either end.
pub open spec fn trimmed(s: Seq<char>) -> Seq<char> {
    trimmed_end(trimmed_start(s))
}

/// Strips the white space at either end.
pub fn trim(s: &str) -> (r: String)
    ensures
        r@ == trimmed(s@),
{
    let v = to_chars(s);
    let mut from: usize = 0;
    assert(v@.skip(0) =~= v@);
    while from < v.len() && white(v[from])
        invariant
            v@ == s@,
            from <= v@.len(),
            trimmed_start(v@.skip(from as int)) == trimmed_start(v@),
        decreases v.len() - from,
    {
        assert(v@.skip(from as int).skip(1) =~= v@.skip(from + 1));
        from += 1;
    }
    let mut to: usize = v.len();
    assert(v@.subrange(from as int, to as int) =~= v@.skip(from as int));
    while from < to && white(v[to - 1])
        invariant
            from <= to <= v@.len(),
            trimmed_end(v@.subrange(from as int, to as int)) == trimmed(s@),
        decreases to,
    {
        assert(v@.subrange(from as int, to as int).drop_last() =~= v@.subrange(
            from as int,
            to - 1,
        ));
        to -= 1;
    }
    slice_string(&v, from, to)
}

/// Whether a text is white space and nothing else.
pub open spec fn is_blank(s: Seq<char>) -> bool {
    forall|i: int| 0 <= i < s.len() ==> is_white(#[trigger] s[i])
}

/// Whether a text has no white space at either end.
pub open spec fn is_trimmed(s: Seq<char>) -> bool {
    s.len() > 0 ==> !is_white(s[0]) && !is_white(s.last())
}

proof fn a_trimmed_start(s: Seq<char>)
    ensures
        trimmed_start(s).len() > 0 ==> !is_white(trimmed_start(s)[0]),
        trimmed_start(s).len() <= s.len(),
        forall|c: char| #[trigger] trimmed_start(s).contains(c) ==> s.contains(c),
    decreases s.len(),
{
    if s.len() > 0 && is_white(s[0]) {
        let t = s.skip(1);
        a_trimmed_start(t);
        assert forall|c: char| #[trigger] trimmed_start(s).contains(c) implies s.contains(c) by {
            let i = choose|i: int| 0 <= i < t.len() && t[i] == c;
            assert(s[i + 1] == c);
        }
    }
}

proof fn a_trimmed_end(s: Seq<char>)
    ensures
        trimmed_end(s).len() > 0 ==> !is_white(trimmed_end(s).last()) && trimmed_end(s)[0] == s[0],
        trimmed_end(s).len() <= s.len(),
        forall|c: char| #[trigger] trimmed_end(s).contains(c) ==> s.contains(c),
    decreases s.len(),
{
    if s.len() > 0 && is_white(s.last()) {
        let t = s.drop_last();
        a_trimmed_end(t);
        assert forall|c: char| #[trigger] trimmed_end(s).contains(c) implies s.contains(c) by {
            let i = choose|i: int| 0 <= i < t.len() && t[i] == c;
            assert(s[i] == c);
        }
    }
}

/// Trimming leaves no white space at either end and adds no character; and it leaves a
/// trimmed text as it is.
pub proof fn trimming_trims(s: Seq<char>)
    ensures
        is_trimmed(trimmed(s)),
        forall|c: char| #[trigger] trimmed(s).contains(c) ==> s.contains(c),
        is_trimmed(s) ==> trimmed(s) == s,
{
    a_trimmed_start(s);
    a_trimmed_end(trimmed_start(s));
}

proof fn blanks_at_the_start(w: Seq<char>, s: Seq<char>)
    requires
        is_blank(w),
    ensures
        trimmed_start(w + s) == trimmed_start(s),
    decreases w.len(),
{
    if w.len() == 0 {
        assert(w + s =~= s);
    } else {
        assert(is_white(w[0]));
        assert((w + s)[0] == w[0]);
        assert((w + s).skip(1) =~= w.skip(1) + s);
        assert forall|i: int| 0 <= i < w.skip(1).len() implies is_white(#[trigger] w.skip(1)[i]) by {
            assert(w.skip(1)[i] == w[i + 1]);
        }
        blanks_at_the_start(w.skip(1), s);
    }
}

proof fn blanks_at_the_end(s: Seq<char>, w: Seq<char>)
    requires
        is_blank(w),
    ensures
        trimmed_end(s + w) == trimmed_end(s),
    decreases w.len(),
{
    if w.len() == 0 {
        assert(s + w =~= s);
    } else {
        assert(is_white(w[w.len() - 1]));
        assert((s + w).last() == w.last());
        assert((s + w).drop_last() =~= s + w.drop_last());
        assert forall|i: int| 0 <= i < w.drop_last().len() implies is_white(
            #[trigger] w.drop_last()[i],
        ) by {
            assert(w.drop_last()[i] == w[i]);
        }
        blanks_at_the_end(s, w.drop_last());
    }
}

proof fn start_before_blanks(s: Seq<char>, w: Seq<char>)
    requires
        is_blank(w),
    ensures
        trimmed(s + w) == trimmed(s),
    decreases s.len(),
{
    if s.len() == 0 {
        let none = Seq::<char>::empty();
        assert(s =~= none);
        assert(s + w =~= w + none);
        blanks_at_the_start(w, none);
    } else {
        assert((s + w)[0] == s[0]);
        if is_white(s[0]) {
            assert((s + w).skip(1) =~= s.skip(1) + w);
            start_before_blanks(s.skip(1), w);
        } else {
            blanks_at_the_end(s, w);
        }
    }
}

/// White space around a text makes no difference to what is left of it when trimmed.
pub proof fn blanks_are_trimmed(before: Seq<char>, s: Seq<char>, after: Seq<char>)
    requires
        is_blank(before),
        is_blank(after),
    ensures
        trimmed(before + s + after) == trimmed(s),
{
    start_before_blanks(before + s, after);
    blanks_at_the_start(before, s);
}

proof fn first_sep_bounds(s: Seq<char>, sep: Sep)
    ensures
        0 <= first_sep(s, sep) <= s.len(),
        first_sep(s, sep) < s.len() ==> sep.at(s[first_sep(s, sep)]),
        forall|j: int| 0 <= j < first_sep(s, sep) ==> !sep.at(#[trigger] s[j]),
    decreases s.len(),
{
    if s.len() > 0 && !sep.at(s[0]) {
        let t = s.skip(1);
        first_sep_bounds(t, sep);
        assert forall|j: int| 0 <= j < first_sep(s, sep) implies !sep.at(#[trigger] s[j]) by {
            if j > 0 {
                assert(t[j - 1] == s[j]);
            }
        }
    }
}

/// The pieces on both sides of a separator are the pieces of the whole.
pub proof fn pieces_of_both(a: Seq<char>, c: char, b: Seq<char>, sep: Sep)
    requires
        sep.at(c),
    ensures
        pieces(a.push(c) + b, sep) == pieces(a, sep) + pieces(b, sep),
    decreases a.len(),
{
    let s = a.push(c) + b;
    let i = first_sep(a, sep);
    first_sep_bounds(a, sep);
    assert forall|j: int| 0 <= j < i implies !sep.at(#[trigger] s[j]) by {
        assert(s[j] == a[j]);
    }
    if i < a.len() {
        assert(s[i] == a[i]);
        first_sep_is(s, sep, i);
        assert(s.take(i) =~= a.take(i));
        assert(s.skip(i + 1) =~= a.skip(i + 1).push(c) + b);
        pieces_of_both(a.skip(i + 1), c, b, sep);
        assert(pieces(s, sep) =~= pieces(a, sep) + pieces(b, sep));
    } else {
        assert(s[i] == c);
        first_sep_is(s, sep, i);
        assert(s.take(i) =~= a);
        assert(s.skip(i + 1) =~= b);
    }
}

/// A text without a separator is its own only piece.
pub proof fn a_single_piece(s: Seq<char>, sep: Sep)
    requires
        forall|i: int| 0 <= i < s.len() ==> !sep.at(#[trigger] s[i]),
    ensures
        pieces(s, sep) == seq![s],
{
    first_sep_is(s, sep, s.len() as int);
}

/// No piece holds a separator.
pub proof fn pieces_hold_no_separator(s: Seq<char>, sep: Sep, k: int, j: int)
    requires
        0 <= k < pieces(s, sep).len(),
        0 <= j < pieces(s, sep)[k].len(),
    ensures
        !sep.at(pieces(s, sep)[k][j]),
    decreases s.len(),
{
    let i = first_sep(s, sep);
    first_sep_bounds(s, sep);
    if i < s.len() {
        let rest = pieces(s.skip(i + 1), sep);
        if k > 0 {
            assert(pieces(s, sep)[k] == rest[k - 1]);
            pieces_hold_no_separator(s.skip(i + 1), sep, k - 1, j);
        } else {
            assert(pieces(s, sep)[0] == s.take(i));
            assert(s.take(i)[j] == s[j]);
        }
    }
}

/// What is not empty of two lists is what is not empty of each.
pub proof fn nonempty_of_both(a: Seq<Seq<char>>, b: Seq<Seq<char>>)
    ensures
        nonempty(a + b) == nonempty(a) + nonempty(b),
    decreases b.len(),
{
    if b.len() == 0 {
        assert(a + b =~= a);
        assert(nonempty(a) + nonempty(b) =~= nonempty(a));
    } else {
        assert((a + b).last() == b.last());
        assert((a + b).drop_last() =~= a + b.drop_last());
        nonempty_of_both(a, b.drop_last());
        assert(nonempty(a + b) =~= nonempty(a) + nonempty(b));
    }
}

/// What is kept of a list is not empty, and stands in the list.
pub proof fn nonempty_keeps(v: Seq<Seq<char>>, k: int) -> (i: int)
    requires
        0 <= k < nonempty(v).len(),
    ensures
        0 <= i < v.len(),
        nonempty(v)[k] == v[i],
        v[i].len() > 0,
    decreases v.len(),
{
    let rest = nonempty(v.drop_last());
    if k < rest.len() {
        let i = nonempty_keeps(v.drop_last(), k);
        assert(v.drop_last()[i] == v[i]);
        i
    } else {
        v.len() - 1
    }
}

/// `s` without the newlines at its end.
pub open spec fn without_newlines(s: Seq<char>) -> Seq<char>
    decreases s.len(),
{
    if s.len() > 0 && s.last() == '\n' {
        without_newlines(s.drop_last())
    } else {
        s
    }
}

/// Strips the newlines at the end.
pub fn trim_newlines(s: &str) -> (r: String)
    ensures
        r@ == without_newlines(s@),
{
    let v = to_chars(s);
    let mut to: usize = v.len();
    assert(v@.subrange(0, to as int) =~= v@);
    while 0 < to && v[to - 1] == '\n'
        invariant
            to <= v@.len(),
            without_newlines(v@.subrange(0, to as int)) == without_newlines(s@),
        decreases to,
    {
        assert(v@.subrange(0, to as int).drop_last() =~= v@.subrange(0, to - 1));
        to -= 1;
    }
    slice_string(&v, 0, to)
}

/// Whether `s` starts with `p`.
pub open spec fn has_prefix(s: Seq<char>, p: Seq<char>) -> bool {
    p.len() <= s.len() && s.take(p.len() as int) == p
}

/// Whether `s` ends with `p`.
pub open spec fn has_suffix(s: Seq<char>, p: Seq<char>) -> bool {
    p.len() <= s.len() && s.skip(s.len() - p.len()) == p
}

/// Whether `p` stands in `s` at position `i`.
pub open spec fn stands_at(s: Seq<char>, p: Seq<char>, i: int) -> bool {
    0 <= i && i + p.len() <= s.len() && s.subrange(i, i + p.len()) == p
}

/// Whether `p` stands anywhere in `s`.
pub open spec fn holds(s: Seq<char>, p: Seq<char>) -> bool {
    exists|i: int| stands_at(s, p, i)
}

fn stands(v: &Vec<char>, p: &Vec<char>, i: usize) -> (r: bool)
    requires
        i <= v@.len(),
    ensures
        r == stands_at(v@, p@, i as int),
{
    if p.len() > v.len() - i {
        return false;
    }
    let mut k: usize = 0;
    while k < p.len()
        invariant
            k <= p@.len(),
            i + p.len() <= v.len(),
            forall|j: int| 0 <= j < k ==> v@[i + j] == p@[j],
        decreases p.len() - k,
    {
        if v[i + k] != p[k] {
            assert(v@.subrange(i as int, i + p@.len())[k as int] != p@[k as int]);
            return false;
        }
        k += 1;
    }
    assert(v@.subrange(i as int, i + p@.len()) =~= p@);
    true
}

/// Whether `s` starts with `p`.
pub fn starts_with(s: &str, p: &str) -> (r: bool)
    ensures
        r == has_prefix(s@, p@),
{
    let v = to_chars(s);
    let w = to_chars(p);
    assert(w@.len() <= v@.len() ==> v@.subrange(0, w@.len() as int) =~= v@.take(w@.len() as int));
    stands(&v, &w, 0)
}

/// Whether `s` ends with `p`.
pub fn ends_with(s: &str, p: &str) -> (r: bool)
    ensures
        r == has_suffix(s@, p@),
{
    let v = to_chars(s);
    let w = to_chars(p);
    if w.len() > v.len() {
        return false;
    }
    assert(v@.subrange(v@.len() - w@.len(), v@.len() as int) =~= v@.skip(v@.len() - w@.len()));
    stands(&v, &w, v.len() - w.len())
}

/// Whether `p` stands anywhere in `s`.
pub fn contains(s: &str, p: &str) -> (r: bool)
    ensures
        r == holds(s@, p@),
{
    let v = to_chars(s);
    let w = to_chars(p);
    let mut i: usize = 0;
    while i <= v.len()
        invariant
            i <= v@.len() + 1,
            v@ == s@,
            w@ == p@,
            forall|j: int| 0 <= j < i ==> !#[trigger] stands_at(s@, p@, j),
        decreases v@.len() + 1 - i,
    {
        if stands(&v, &w, i) {
            return true;
        }
        if i == v.len() {
            assert forall|j: int| !#[trigger] stands_at(s@, p@, j) by {}
            return false;
        }
        i += 1;
    }
    false
}

/// What follows the prefix `p` in `s`, if it has it.
pub fn after_prefix(s: &str, p: &str) -> (r: Option<String>)
    ensures
        r is Some <==> has_prefix(s@, p@),
        r is Some ==> r->0@ == s@.skip(p@.len() as int),
{
    if !starts_with(s, p) {
        return None;
    }
    let v = to_chars(s);
    let r = slice_string(&v, p.unicode_len(), v.len());
    assert(r@ =~= s@.skip(p@.len() as int));
    Some(r)
}

} // verus!
