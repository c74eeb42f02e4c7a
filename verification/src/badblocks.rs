//! Maps the read errors that md reports to the files they affect. The integrity layer
//! sits below md and only knows sectors; ext4 sits above md and never sees the error
//! while redundancy holds. Md bridges the two: it logs the failing member device and
//! sector, which are mapped back through the raid stripe and the linear dmsetup
//! offsets to ext4 blocks, and from there to paths by debugfs.
use vstd::prelude::*;
use vstd::string::*;

use crate::sorted::{ascending, insert_sorted};
use crate::text::{
    all_digits, cmd, contains, dec, decimal, fields, has_prefix, has_suffix, head_all, headed,
    holds, join, joined, lines, opt_text, opt_texts, parse_int, parsed_int, push_text, rest_of,
    same, split_fields, split_lines, texts, to_chars, ArgList,
};

verus! {

pub const ROOT_MD_DEVICE: &'static str = "/dev/md/root";

pub const ROOT_LV_DEVICE: &'static str = "/dev/vg0/root";

/// A read error as md logs it. The kernel logs two shapes: a correctable error as
/// "(N sectors at S on dev)", and an uncorrectable one as "(sector S on dev)".
pub const READ_ERROR: &'static str =
    "md/raid[0-9]*:[^:]+: read error (NOT corrected|not correctable|corrected)[^(]*\\((?:([0-9]+) sectors at )?(?:sector )?([0-9]+) on ([a-z0-9-]+)\\)";

// -------------------------------------------------------------------- events

/// A read error of a member device.
pub struct Event {
    pub uncorrected: bool,
    pub nsectors: i64,
    pub sector: i64,
    pub dev: String,
}

#[verifier::ext_equal]
pub struct EventModel {
    pub uncorrected: bool,
    pub nsectors: int,
    pub sector: int,
    pub dev: Seq<char>,
}

impl View for Event {
    type V = EventModel;

    open spec fn view(&self) -> EventModel {
        EventModel {
            uncorrected: self.uncorrected,
            nsectors: self.nsectors as int,
            sector: self.sector as int,
            dev: self.dev@,
        }
    }
}

/// The models of a list of events.
pub open spec fn events(v: Seq<Event>) -> Seq<EventModel> {
    v.map_values(|e: Event| e@)
}

/// What the groups of a regular expression matched: the whole match, then each group
/// in the order of its opening parenthesis, or nothing for a group that took no part.
pub open spec fn groups(v: Seq<Option<String>>) -> Seq<Option<Seq<char>>> {
    v.map_values(|g: Option<String>| opt_text(g))
}

/// The groups of the leftmost match of a pattern in a text; None where the pattern
/// does not match, or is no valid pattern.
pub uninterp spec fn regex_groups(pattern: Seq<char>, text: Seq<char>) -> Option<Seq<Option<Seq<char>>>>;

/// Calls `regex::Regex::new` and `Regex::captures`. Its result is a function of the
/// pattern and the text alone, by the name `regex_groups`; which groups match what is
/// left unsaid.
#[verifier::external_body]
fn captures(pattern: &str, text: &str) -> (r: Option<Vec<Option<String>>>)
    ensures
        match r {
            Some(v) => regex_groups(pattern@, text@) == Some(groups(v@)),
            None => regex_groups(pattern@, text@) is None,
        },
{
    let re = regex::Regex::new(pattern).ok()?;
    let caps = re.captures(text)?;
    Some(caps.iter().map(|m| m.map(|m| m.as_str().to_string())).collect())
}

/// The number that a text spells, or the default where it spells none.
pub open spec fn int_or(s: Option<Seq<char>>, default: int) -> int {
    match s {
        Some(t) => match parsed_int(t) {
            Some(n) => n,
            None => default,
        },
        None => default,
    }
}

/// The event that the groups of a match describe: the kind of error, the number of
/// sectors (one where none is given), the sector and the device.
pub open spec fn event_of(g: Seq<Option<Seq<char>>>) -> Option<EventModel> {
    if g.len() == 5 && g[1] is Some && g[3] is Some && g[4] is Some {
        Some(
            EventModel {
                uncorrected: g[1]->0 != "corrected"@,
                nsectors: int_or(g[2], 1),
                sector: int_or(g[3], 0),
                dev: g[4]->0,
            },
        )
    } else {
        None
    }
}

/// The event that the groups of a match describe.
pub fn event_from(g: &Vec<Option<String>>) -> (r: Option<Event>)
    ensures
        r is Some <==> event_of(groups(g@)) is Some,
        r is Some ==> Some(r->0@) == event_of(groups(g@)),
{
    if g.len() != 5 {
        return None;
    }
    assert(groups(g@)[1] == opt_text(g@[1]));
    assert(groups(g@)[2] == opt_text(g@[2]));
    assert(groups(g@)[3] == opt_text(g@[3]));
    assert(groups(g@)[4] == opt_text(g@[4]));
    match (&g[1], &g[3], &g[4]) {
        (Some(kind), Some(sector), Some(dev)) => {
            let nsectors: i64 = match &g[2] {
                Some(n) => match parse_int(n.as_str()) {
                    Some(n) => n,
                    None => 1,
                },
                None => 1,
            };
            let sector: i64 = match parse_int(sector.as_str()) {
                Some(n) => n,
                None => 0,
            };
            Some(
                Event {
                    uncorrected: !same(kind.as_str(), "corrected"),
                    nsectors,
                    sector,
                    dev: dev.clone(),
                },
            )
        },
        _ => None,
    }
}

/// Whether two events are one: the ring buffer repeats the same error many times.
pub open spec fn same_event(a: EventModel, b: EventModel) -> bool {
    a.uncorrected == b.uncorrected && a.sector == b.sector && a.dev == b.dev
}

/// Whether the list holds the event.
pub open spec fn recorded(v: Seq<EventModel>, e: EventModel) -> bool {
    exists|i: int| 0 <= i < v.len() && same_event(#[trigger] v[i], e)
}

/// The list with the event behind it, unless it holds the event already.
pub open spec fn noted(v: Seq<EventModel>, e: Option<EventModel>) -> Seq<EventModel> {
    match e {
        Some(e) => if recorded(v, e) {
            v
        } else {
            v.push(e)
        },
        None => v,
    }
}

/// Adds an event to the list, unless the list holds it already.
pub fn note_event(v: &mut Vec<Event>, found: Option<Event>)
    ensures
        events(final(v)@) == noted(
            events(old(v)@),
            match found {
                Some(e) => Some(e@),
                None => None,
            },
        ),
{
    let e = match found {
        Some(e) => e,
        None => {
            return;
        },
    };
    let ghost all = events(v@);
    let mut i: usize = 0;
    while i < v.len()
        invariant
            i <= v.len(),
            v@ == old(v)@,
            found == Some(e),
            all == events(v@),
            forall|k: int| 0 <= k < i ==> !same_event(#[trigger] all[k], e@),
        decreases v.len() - i,
    {
        assert(all[i as int] == v@[i as int]@);
        if v[i].uncorrected == e.uncorrected && v[i].sector == e.sector && same(
            v[i].dev.as_str(),
            e.dev.as_str(),
        ) {
            assert(same_event(all[i as int], e@));
            return;
        }
        i += 1;
    }
    assert(!recorded(all, e@));
    v.push(e);
    assert(events(v@) =~= all.push(e@));
}

/// The event that a line of the ring buffer reports.
pub open spec fn line_event(line: Seq<char>) -> Option<EventModel> {
    match regex_groups(READ_ERROR@, line) {
        Some(g) => event_of(g),
        None => None,
    }
}

/// The distinct events of the lines, in the order in which they first come.
pub open spec fn lines_events(v: Seq<Seq<char>>) -> Seq<EventModel>
    decreases v.len(),
{
    if v.len() == 0 {
        Seq::empty()
    } else {
        noted(lines_events(v.drop_last()), line_event(v.last()))
    }
}

/// Parses md's read errors out of the text of the kernel's ring buffer.
pub fn parse_read_errors(text: &str) -> (r: Vec<Event>)
    ensures
        events(r@) == lines_events(lines(text@)),
{
    let all = split_lines(text);
    let ghost ls = texts(all@);
    let mut out: Vec<Event> = Vec::new();
    assert(events(out@) =~= Seq::<EventModel>::empty());
    let mut i: usize = 0;
    while i < all.len()
        invariant
            i <= all.len(),
            ls == texts(all@),
            events(out@) == lines_events(ls.take(i as int)),
        decreases all.len() - i,
    {
        assert(ls.take(i + 1).drop_last() =~= ls.take(i as int));
        assert(ls.take(i + 1).last() == all@[i as int]@);
        let line = all[i].as_str();
        let event = match captures(READ_ERROR, line) {
            Some(g) => event_from(&g),
            None => None,
        };
        note_event(&mut out, event);
        i += 1;
    }
    assert(ls.take(ls.len() as int) =~= ls);
    out
}

/// No event is listed twice, whatever the ring buffer repeats.
pub proof fn events_are_distinct(v: Seq<Seq<char>>, i: int, j: int)
    requires
        0 <= i < j < lines_events(v).len(),
    ensures
        !same_event(lines_events(v)[i], lines_events(v)[j]),
    decreases v.len(),
{
    let before = lines_events(v.drop_last());
    if j < before.len() {
        events_are_distinct(v.drop_last(), i, j);
    } else {
        assert(lines_events(v)[i] == before[i]);
    }
}

/// Every event that a line reports is listed.
pub proof fn every_event_is_listed(v: Seq<Seq<char>>, i: int)
    requires
        0 <= i < v.len(),
        line_event(v[i]) is Some,
    ensures
        recorded(lines_events(v), line_event(v[i])->0),
    decreases v.len(),
{
    let e = line_event(v[i])->0;
    let before = lines_events(v.drop_last());
    let all = lines_events(v);
    if i < v.len() - 1 {
        assert(v.drop_last()[i] == v[i]);
        every_event_is_listed(v.drop_last(), i);
        let k = choose|k: int| 0 <= k < before.len() && same_event(#[trigger] before[k], e);
        assert(all[k] == before[k]);
    } else if !recorded(before, e) {
        assert(all[all.len() - 1] == e);
        assert(same_event(all[all.len() - 1], e));
    }
}

/// Every listed event was reported by a line.
pub proof fn a_listed_event_was_reported(v: Seq<Seq<char>>, k: int) -> (i: int)
    requires
        0 <= k < lines_events(v).len(),
    ensures
        0 <= i < v.len(),
        line_event(v[i]) == Some(lines_events(v)[k]),
    decreases v.len(),
{
    let before = lines_events(v.drop_last());
    if k < before.len() {
        let i = a_listed_event_was_reported(v.drop_last(), k);
        assert(v.drop_last()[i] == v[i]);
        i
    } else {
        v.len() - 1
    }
}

/// The pattern of a read error that md logs, at any raid level, corrected or not: with
/// the kind, the number of sectors, the sector and the device as its groups.
pub open spec fn logged_error() -> Seq<char> {
    "md/raid[0-9]*:[^:]+: read error (NOT corrected|not correctable|corrected)[^(]*\\((?:([0-9]+) sectors at )?(?:sector )?([0-9]+) on ([a-z0-9-]+)\\)"@
}

/// Whether an event says what the groups of a match say.
pub open spec fn tells(e: EventModel, g: Seq<Option<Seq<char>>>) -> bool {
    &&& e.uncorrected == (g[1] != Some("corrected"@))
    &&& Some(e.dev) == g[4]
    &&& g[3] is Some && parsed_int(g[3]->0) is Some ==> Some(e.sector) == parsed_int(g[3]->0)
}

/// Every line that the pattern of a read error matches has its event listed, whatever
/// else stands on the line: its kind, sector and device are those of the match.
pub proof fn every_logged_error_is_listed(v: Seq<Seq<char>>, i: int)
    requires
        0 <= i < v.len(),
        regex_groups(logged_error(), v[i]) is Some,
        regex_groups(logged_error(), v[i])->0.len() == 5,
        regex_groups(logged_error(), v[i])->0[1] is Some,
        regex_groups(logged_error(), v[i])->0[3] is Some,
        regex_groups(logged_error(), v[i])->0[4] is Some,
    ensures
        exists|k: int|
            0 <= k < lines_events(v).len() && tells(
                #[trigger] lines_events(v)[k],
                regex_groups(logged_error(), v[i])->0,
            ),
{
    every_event_is_listed(v, i);
    let e = line_event(v[i])->0;
    let all = lines_events(v);
    let k = choose|k: int| 0 <= k < all.len() && same_event(#[trigger] all[k], e);
    assert(tells(all[k], regex_groups(logged_error(), v[i])->0));
}

/// A listed event was logged: the pattern of a read error matches a line, and the event
/// says what the groups of that match say, the number of sectors where it is given.
pub proof fn a_listed_event_was_logged(v: Seq<Seq<char>>, k: int) -> (i: int)
    requires
        0 <= k < lines_events(v).len(),
    ensures
        0 <= i < v.len(),
        regex_groups(logged_error(), v[i]) is Some,
        tells(lines_events(v)[k], regex_groups(logged_error(), v[i])->0),
        ({
            let n = regex_groups(logged_error(), v[i])->0[2];
            lines_events(v)[k].nsectors == (if n is Some && parsed_int(n->0) is Some {
                parsed_int(n->0)->0
            } else {
                1
            })
        }),
{
    a_listed_event_was_reported(v, k)
}

// ------------------------------------------------------------------ geometry

/// The shape of the array: the chunk size in sectors, and how many disks hold data.
pub struct Geometry {
    pub chunk_sectors: i64,
    pub data_disks: i64,
}

/// The linear mapping from the ext4 volume down to the md array.
pub struct Affine {
    pub offset: i64,
    pub lv_sectors: i64,
}

/// How many of the array's disks hold data at a raid level.
pub open spec fn data_disks_of(level: Seq<char>, disks: int) -> int {
    if level == "raid0"@ {
        disks
    } else if level == "raid5"@ {
        disks - 1
    } else if level == "raid6"@ {
        disks - 2
    } else if level == "raid10"@ {
        quotient(disks, 2)
    } else if level == "raid1"@ {
        1
    } else {
        0
    }
}

/// The quotient, rounded towards zero.
pub open spec fn quotient(a: int, b: int) -> int {
    if a >= 0 {
        a / b
    } else {
        -((-a) / b)
    }
}

/// The sectors of a chunk at a raid level. A mirror has no stripes, so no chunks.
pub open spec fn chunk_sectors_of(level: Seq<char>, chunk_size: int) -> int {
    if level == "raid1"@ {
        0
    } else {
        quotient(chunk_size, 512)
    }
}

/// A quotient of a signed number, rounded towards zero.
fn divided(n: i64, by: i64) -> (r: i64)
    requires
        by > 1,
    ensures
        r == quotient(n as int, by as int),
{
    let m: i128 = if n >= 0 {
        n as i128
    } else {
        -(n as i128)
    };
    let q: i128 = m / (by as i128);
    proof {
        assert(0 <= q <= m / 2) by (nonlinear_arith)
            requires
                by > 1,
                m >= 0,
                q == (m as int) / (by as int),
        ;
    }
    if n >= 0 {
        q as i64
    } else {
        (-q) as i64
    }
}

/// The geometry that the array's attributes spell. None where one of them is no
/// number, or where the machine cannot hold the count of data disks.
pub fn md_geometry(level: &str, raid_disks: &str, chunk_size: &str) -> (r: Option<Geometry>)
    ensures
        r is Some <==> parsed_int(raid_disks@) is Some && parsed_int(chunk_size@) is Some
            && in_i64(data_disks_of(level@, parsed_int(raid_disks@)->0)),
        r is Some ==> r->0.data_disks == data_disks_of(level@, parsed_int(raid_disks@)->0),
        r is Some ==> r->0.chunk_sectors == chunk_sectors_of(
            level@,
            parsed_int(chunk_size@)->0,
        ),
{
    let disks: i64 = match parse_int(raid_disks) {
        Some(n) => n,
        None => {
            return None;
        },
    };
    let chunk: i64 = match parse_int(chunk_size) {
        Some(n) => n,
        None => {
            return None;
        },
    };
    proof {
        reveal_strlit("raid0");
        reveal_strlit("raid1");
        reveal_strlit("raid5");
        reveal_strlit("raid6");
        reveal_strlit("raid10");
        assert("raid1"@[4] == '1');
        assert("raid0"@[4] == '0' && "raid5"@[4] == '5' && "raid6"@[4] == '6');
        assert("raid10"@.len() == 6 && "raid1"@.len() == 5);
    }
    if same(level, "raid1") {
        return Some(Geometry { chunk_sectors: 0, data_disks: 1 });
    }
    let wide: i128 = disks as i128;
    let data: i128 = if same(level, "raid0") {
        wide
    } else if same(level, "raid5") {
        wide - 1
    } else if same(level, "raid6") {
        wide - 2
    } else if same(level, "raid10") {
        divided(disks, 2) as i128
    } else {
        0
    };
    if data < -9223372036854775808i128 {
        return None;
    }
    Some(Geometry { chunk_sectors: divided(chunk, 512), data_disks: data as i64 })
}

/// Where a member's data starts: its own offset, where it can be read, or else that of
/// the first member whose can; zero where none spells a number.
pub fn member_data_offset(own: &Option<String>, others: &Vec<String>) -> (r: i64)
    ensures
        r == (match opt_text(*own) {
            Some(s) => int_or(Some(s), 0),
            None => if others@.len() > 0 {
                int_or(Some(texts(others@)[0]), 0)
            } else {
                0
            },
        }),
{
    let text = match own {
        Some(s) => s,
        None => if others.len() > 0 {
            &others[0]
        } else {
            return 0;
        },
    };
    match parse_int(text.as_str()) {
        Some(n) => n,
        None => 0,
    }
}

/// The array sectors of the stripe that a member sector belongs to: from the first one
/// up to the one past the last.
pub open spec fn stripe_of(sector: int, data_offset: int, chunk: int, disks: int) -> (int, int) {
    let shifted = if sector - data_offset > 0 {
        sector - data_offset
    } else {
        0
    };
    let lo = quotient(shifted, chunk) * disks * chunk;
    (lo, lo + disks * chunk)
}

/// Whether a number is a 64-bit one.
pub open spec fn in_i64(n: int) -> bool {
    i64::MIN <= n <= i64::MAX
}

/// Whether the stripe's bounds can be told: the array has stripes, and their sectors
/// are numbers that the machine holds.
pub open spec fn has_stripe(sector: int, data_offset: int, g: Geometry) -> bool {
    let (lo, hi) = stripe_of(sector, data_offset, g.chunk_sectors as int, g.data_disks as int);
    &&& g.chunk_sectors != 0
    &&& g.data_disks != 0
    &&& in_i64(lo)
    &&& in_i64(hi)
}

/// The bounds of a stripe, where they can be told.
pub open spec fn bounds(r: Option<(i64, i64)>) -> Option<(int, int)> {
    match r {
        Some((lo, hi)) => Some((lo as int, hi as int)),
        None => None,
    }
}

/// The array sectors of the stripe that a member sector belongs to. None where the
/// array has no stripes.
pub fn stripe_range(sector: i64, data_offset: i64, g: &Geometry) -> (r: Option<(i64, i64)>)
    ensures
        bounds(r) == (if has_stripe(sector as int, data_offset as int, *g) {
            Some(
                stripe_of(
                    sector as int,
                    data_offset as int,
                    g.chunk_sectors as int,
                    g.data_disks as int,
                ),
            )
        } else {
            None
        }),
{
    if g.chunk_sectors == 0 || g.data_disks == 0 {
        return None;
    }
    let diff: i128 = sector as i128 - data_offset as i128;
    let shifted: i128 = if diff > 0 {
        diff
    } else {
        0
    };
    let chunk: i128 = g.chunk_sectors as i128;
    let disks: i128 = g.data_disks as i128;
    let width: i128 = product(g.data_disks, g.chunk_sectors);
    let stripe: i128 = if chunk > 0 {
        shifted / chunk
    } else {
        -(shifted / (-chunk))
    };
    let ghost lo = stripe * width;
    proof {
        if chunk > 0 {
            assert(0 <= stripe <= shifted) by (nonlinear_arith)
                requires
                    chunk > 0,
                    shifted >= 0,
                    stripe == shifted / chunk,
            ;
        } else {
            assert(0 <= -stripe <= shifted && -((shifted as int) / (-chunk)) == (shifted as int) / (chunk as int))
                by (nonlinear_arith)
                requires
                    chunk < 0,
                    shifted >= 0,
                    stripe == -((shifted as int) / (-chunk)),
            ;
        }
        assert(quotient(shifted as int, chunk as int) == stripe);
        assert(width != 0) by (nonlinear_arith)
            requires
                width == disks * chunk,
                disks != 0,
                chunk != 0,
        ;
        assert(stripe * disks * chunk == stripe * width) by (nonlinear_arith)
            requires
                width == disks * chunk,
        ;
        assert(stripe_of(sector as int, data_offset as int, chunk as int, disks as int) == (
            lo,
            lo + width,
        ));
    }
    if stripe > 9223372036854775808i128 || stripe < -9223372036854775808i128 {
        proof {
            assert(lo > 9223372036854775808 || lo < -9223372036854775808) by (nonlinear_arith)
                requires
                    lo == stripe * width,
                    width != 0,
                    stripe > 9223372036854775808 || stripe < -9223372036854775808,
            ;
        }
        return None;
    }
    if width > 18446744073709551615i128 || width < -18446744073709551615i128 {
        return None;
    }
    proof {
        assert(-0x7fff_ffff_ffff_ffff_8000_0000_0000_0000 <= lo
            <= 0x7fff_ffff_ffff_ffff_8000_0000_0000_0000) by (nonlinear_arith)
            requires
                lo == stripe * width,
                -9223372036854775808 <= stripe <= 9223372036854775808,
                -18446744073709551615 <= width <= 18446744073709551615,
        ;
    }
    let from: i128 = stripe * width;
    if from > 9223372036854775807i128 || from < -9223372036854775808i128 {
        return None;
    }
    let to: i128 = from + width;
    if to > 9223372036854775807i128 || to < -9223372036854775808i128 {
        return None;
    }
    Some((from as i64, to as i64))
}

fn product(a: i64, b: i64) -> (r: i128)
    ensures
        r == a * b,
{
    proof {
        assert(-0x4000_0000_0000_0000_0000_0000_0000_0000 <= a * b
            <= 0x4000_0000_0000_0000_0000_0000_0000_0000) by (nonlinear_arith)
            requires
                -0x8000_0000_0000_0000 <= a <= 0x7fff_ffff_ffff_ffff,
                -0x8000_0000_0000_0000 <= b <= 0x7fff_ffff_ffff_ffff,
        ;
    }
    (a as i128) * (b as i128)
}

/// The volume's sectors that an array range covers: from the first to the last, both
/// within the volume.
pub open spec fn volume_range(lo: int, hi: int, a: Affine) -> (int, int) {
    let first = if lo - a.offset > 0 {
        lo - a.offset
    } else {
        0
    };
    let last = if hi - 1 - a.offset < a.lv_sectors - 1 {
        hi - 1 - a.offset
    } else {
        a.lv_sectors - 1
    };
    (first, last)
}

/// The ext4 blocks that hold the sectors from `first` to `last`. A block spans eight
/// sectors.
pub open spec fn blocks_of(first: int, last: int) -> Seq<int> {
    if first > last {
        Seq::empty()
    } else {
        Seq::new((last / 8 - first / 8 + 1) as nat, |i: int| first / 8 + i)
    }
}

/// The ext4 block numbers that cover an array sector range, clamped to the volume.
pub fn array_range_to_blocks(lo: i64, hi: i64, a: &Affine) -> (r: Vec<i64>)
    ensures
        r@.map_values(|b: i64| b as int) == blocks_of(
            volume_range(lo as int, hi as int, *a).0,
            volume_range(lo as int, hi as int, *a).1,
        ),
{
    let from: i128 = lo as i128 - a.offset as i128;
    let first: i128 = if from > 0 {
        from
    } else {
        0
    };
    let upto: i128 = hi as i128 - 1 - a.offset as i128;
    let end: i128 = a.lv_sectors as i128 - 1;
    let last: i128 = if upto < end {
        upto
    } else {
        end
    };
    let mut out: Vec<i64> = Vec::new();
    let ghost want = blocks_of(first as int, last as int);
    if first > last {
        assert(out@.map_values(|b: i64| b as int) =~= want);
        return out;
    }
    let start: i64 = (first / 8) as i64;
    let stop: i64 = (last / 8) as i64;
    let mut b: i64 = start;
    while b < stop
        invariant
            start <= b <= stop,
            start == first / 8,
            stop == last / 8,
            first <= last,
            want == blocks_of(first as int, last as int),
            out@.len() == b - start,
            forall|k: int| 0 <= k < out@.len() ==> #[trigger] out@[k] == start + k,
        decreases stop - b,
    {
        out.push(b);
        b += 1;
    }
    out.push(b);
    assert(want.len() == stop - start + 1);
    assert(out@.map_values(|b: i64| b as int) =~= want);
    out
}

/// The ext4 blocks of the volume that hold the stripe of a member sector.
pub open spec fn lost_blocks(sector: int, data_offset: int, g: Geometry, a: Affine) -> Seq<int> {
    let (lo, hi) = stripe_of(sector, data_offset, g.chunk_sectors as int, g.data_disks as int);
    let (first, last) = volume_range(lo, hi, a);
    blocks_of(first, last)
}

/// The ext4 block numbers to look up for a member sector: those that hold its stripe.
/// None where the stripe's bounds cannot be told.
pub fn stripe_blocks(sector: i64, data_offset: i64, g: &Geometry, a: &Affine) -> (r: Option<
    Vec<i64>,
>)
    ensures
        r is Some <==> has_stripe(sector as int, data_offset as int, *g),
        r is Some ==> r->0@.map_values(|b: i64| b as int) == lost_blocks(
            sector as int,
            data_offset as int,
            *g,
            *a,
        ),
{
    match stripe_range(sector, data_offset, g) {
        Some((lo, hi)) => Some(array_range_to_blocks(lo, hi, a)),
        None => None,
    }
}

/// Every sector of the volume that lies in the stripe of a lost sector has its block
/// looked up, and no other block is.
pub proof fn a_stripe_is_looked_up_whole(
    sector: int,
    data_offset: int,
    g: Geometry,
    a: Affine,
    b: int,
)
    ensures
        ({
            let (lo, hi) = stripe_of(
                sector,
                data_offset,
                g.chunk_sectors as int,
                g.data_disks as int,
            );
            lost_blocks(sector, data_offset, g, a).contains(b) <==> exists|s: int|
                0 <= s < a.lv_sectors && lo <= s + a.offset < hi && #[trigger] (s / 8) == b
        }),
{
    let (lo, hi) = stripe_of(sector, data_offset, g.chunk_sectors as int, g.data_disks as int);
    let (first, last) = volume_range(lo, hi, a);
    a_block_is_listed_for_its_sectors(first, last, b);
    assert(forall|s: int|
        #![trigger (s / 8)]
        first <= s <= last <==> 0 <= s < a.lv_sectors && lo <= s + a.offset < hi);
}

/// A block is listed exactly where one of the sectors lies in it.
pub proof fn a_block_is_listed_for_its_sectors(first: int, last: int, b: int)
    requires
        0 <= first,
    ensures
        blocks_of(first, last).contains(b) <==> exists|s: int|
            first <= s <= last && #[trigger] (s / 8) == b,
{
    let v = blocks_of(first, last);
    if v.contains(b) {
        let i = choose|i: int| 0 <= i < v.len() && v[i] == b;
        assert(first / 8 <= b <= last / 8);
        let s = if b * 8 < first {
            first
        } else {
            b * 8
        };
        assert(first <= s <= last && s / 8 == b);
    }
    if exists|s: int| first <= s <= last && #[trigger] (s / 8) == b {
        let s = choose|s: int| first <= s <= last && #[trigger] (s / 8) == b;
        assert(first / 8 <= s / 8 <= last / 8);
        assert(v[b - first / 8] == b);
    }
}

/// A member sector behind the data offset lies in its own stripe: its chunk is the
/// stripe's, and the stripe spans one chunk of each data disk.
pub proof fn a_stripe_holds_its_sector(sector: int, data_offset: int, chunk: int, disks: int)
    requires
        chunk > 0,
        disks > 0,
        sector >= data_offset,
    ensures
        ({
            let (lo, hi) = stripe_of(sector, data_offset, chunk, disks);
            &&& hi - lo == disks * chunk
            &&& lo <= (sector - data_offset) / chunk * chunk * disks < hi
        }),
{
    let s = (sector - data_offset) / chunk;
    assert(s * disks * chunk == s * chunk * disks) by (nonlinear_arith);
    assert(disks * chunk > 0) by (nonlinear_arith)
        requires
            disks > 0,
            chunk > 0,
    ;
}

// ------------------------------------------------------------ the dmsetup chain

/// How far the walk from the volume down to the array has come.
pub struct Walk {
    pub offset: i64,
    pub lv_sectors: i64,
}

/// Where one table of the chain leads.
pub enum Next {
    /// The array is reached.
    Reached(Affine),
    /// The device below, by its major and minor number.
    Below(String, Walk),
    /// The volume is not a single-segment one.
    Unknown,
}

pub enum NextModel {
    Reached { offset: int, lv_sectors: int },
    Below { under: Seq<char>, offset: int, lv_sectors: int },
    Unknown,
}

impl View for Next {
    type V = NextModel;

    open spec fn view(&self) -> NextModel {
        match self {
            Next::Reached(a) => NextModel::Reached {
                offset: a.offset as int,
                lv_sectors: a.lv_sectors as int,
            },
            Next::Below(u, w) => NextModel::Below {
                under: u@,
                offset: w.offset as int,
                lv_sectors: w.lv_sectors as int,
            },
            Next::Unknown => NextModel::Unknown,
        }
    }
}

/// Where the device below and its offset stand among a table's fields.
pub open spec fn under_at(kind: Seq<char>) -> Option<int> {
    if kind == "linear"@ {
        Some(3)
    } else if kind == "crypt"@ {
        Some(6)
    } else {
        None
    }
}

/// Where a table leads: "0 <len> linear <dev> <offset>", or a crypt table, with the
/// device and offset behind the cipher, the key and the iv offset. The volume's length
/// is that of the first table; the offsets add up.
pub open spec fn next_of(offset: int, lv_sectors: int, table: Seq<char>, md: Seq<char>) -> NextModel {
    let f = fields(table);
    if lines(table).len() != 1 || f.len() < 3 || f[0] != "0"@ || under_at(f[2]) is None {
        NextModel::Unknown
    } else {
        let k = under_at(f[2])->0;
        let size = if lv_sectors == 0 {
            parsed_int(f[1])
        } else {
            Some(lv_sectors)
        };
        if f.len() <= k + 1 || size is None || parsed_int(f[k + 1]) is None || !in_i64(
            offset + parsed_int(f[k + 1])->0,
        ) {
            NextModel::Unknown
        } else if f[k] == md {
            NextModel::Reached { offset: offset + parsed_int(f[k + 1])->0, lv_sectors: size->0 }
        } else {
            NextModel::Below {
                under: f[k],
                offset: offset + parsed_int(f[k + 1])->0,
                lv_sectors: size->0,
            }
        }
    }
}

/// One step of the walk from the ext4 volume down to the md device: adds the table's
/// offset. An offset that the machine cannot hold is as unknown as one that is missing.
pub fn lv_affine(walk: &Walk, table: &str, md_majmin: &str) -> (r: Next)
    ensures
        r@ == next_of(walk.offset as int, walk.lv_sectors as int, table@, md_majmin@),
{
    let rows = split_lines(table);
    let f = split_fields(table);
    assert(texts(rows@).len() == rows@.len());
    assert(texts(f@).len() == f@.len());
    if rows.len() != 1 || f.len() < 3 {
        return Next::Unknown;
    }
    assert(texts(f@)[0] == f@[0]@ && texts(f@)[1] == f@[1]@ && texts(f@)[2] == f@[2]@);
    if !same(f[0].as_str(), "0") {
        return Next::Unknown;
    }
    let k: usize = if same(f[2].as_str(), "linear") {
        3
    } else if same(f[2].as_str(), "crypt") {
        6
    } else {
        return Next::Unknown;
    };
    if f.len() <= k + 1 {
        return Next::Unknown;
    }
    assert(texts(f@)[k as int] == f@[k as int]@ && texts(f@)[k + 1] == f@[k + 1]@);
    let lv_sectors: i64 = if walk.lv_sectors == 0 {
        match parse_int(f[1].as_str()) {
            Some(n) => n,
            None => {
                return Next::Unknown;
            },
        }
    } else {
        walk.lv_sectors
    };
    let more: i64 = match parse_int(f[k + 1].as_str()) {
        Some(n) => n,
        None => {
            return Next::Unknown;
        },
    };
    let sum: i128 = walk.offset as i128 + more as i128;
    if sum < -9223372036854775808i128 || sum > 9223372036854775807i128 {
        return Next::Unknown;
    }
    let offset: i64 = sum as i64;
    if same(f[k].as_str(), md_majmin) {
        Next::Reached(Affine { offset, lv_sectors })
    } else {
        Next::Below(f[k].clone(), Walk { offset, lv_sectors })
    }
}

// ------------------------------------------------------------------- debugfs

/// A number in decimal, with its sign where it is negative.
pub open spec fn signed_dec(n: int) -> Seq<char> {
    if n < 0 {
        "-"@ + dec((-n) as nat)
    } else {
        dec(n as nat)
    }
}

fn signed_decimal(n: i64) -> (r: String)
    ensures
        r@ == signed_dec(n as int),
{
    if n < 0 {
        let size: i128 = -(n as i128);
        "-".to_owned().concat(decimal(size as u64).as_str())
    } else {
        decimal(n as u64)
    }
}

/// The command that asks debugfs for the inodes of the blocks.
pub open spec fn icheck_words(blocks: Seq<i64>) -> Seq<Seq<char>> {
    let numbers = blocks.map_values(|b: i64| signed_dec(b as int));
    seq!["debugfs"@].push("-R"@).push("icheck "@ + joined(numbers, " "@)).push(ROOT_LV_DEVICE@)
}

/// The command that asks debugfs for the inodes of the blocks; None where there is no
/// block to ask for.
pub fn icheck_argv(blocks: &Vec<i64>) -> (r: Option<Vec<String>>)
    ensures
        opt_texts(r) == (if blocks@.len() == 0 {
            None
        } else {
            Some(icheck_words(blocks@))
        }),
{
    if blocks.len() == 0 {
        return None;
    }
    let ghost want = blocks@.map_values(|b: i64| signed_dec(b as int));
    let mut numbers: Vec<String> = Vec::new();
    let mut i: usize = 0;
    while i < blocks.len()
        invariant
            i <= blocks.len(),
            want == blocks@.map_values(|b: i64| signed_dec(b as int)),
            texts(numbers@) =~= want.take(i as int),
        decreases blocks.len() - i,
    {
        push_text(&mut numbers, signed_decimal(blocks[i]).as_str());
        i += 1;
    }
    assert(want.take(want.len() as int) =~= want);
    let request = "icheck ".to_owned().concat(join(&numbers, " ").as_str());
    Some(cmd("debugfs").arg("-R").arg(request.as_str()).arg(ROOT_LV_DEVICE))
}

/// The command that asks debugfs for the paths of the inodes.
pub open spec fn ncheck_words(inodes: Seq<Seq<char>>) -> Seq<Seq<char>> {
    seq!["debugfs"@].push("-R"@).push("ncheck "@ + joined(inodes, " "@)).push(ROOT_LV_DEVICE@)
}

/// The command that asks debugfs for the paths of the inodes; None where there is no
/// inode to ask for.
pub fn ncheck_argv(inodes: &Vec<String>) -> (r: Option<Vec<String>>)
    ensures
        opt_texts(r) == (if inodes@.len() == 0 {
            None
        } else {
            Some(ncheck_words(texts(inodes@)))
        }),
{
    if inodes.len() == 0 {
        return None;
    }
    let request = "ncheck ".to_owned().concat(join(inodes, " ").as_str());
    Some(cmd("debugfs").arg("-R").arg(request.as_str()).arg(ROOT_LV_DEVICE))
}

/// Whether a field is a number.
pub open spec fn is_number(s: Seq<char>) -> bool {
    s.len() > 0 && all_digits(s)
}

fn numeric(s: &str) -> (r: bool)
    ensures
        r == is_number(s@),
{
    let v = to_chars(s);
    let mut i: usize = 0;
    while i < v.len()
        invariant
            i <= v.len(),
            v@ == s@,
            forall|k: int| 0 <= k < i ==> '0' <= #[trigger] s@[k] <= '9',
        decreases v.len() - i,
    {
        if !('0' <= v[i] && v[i] <= '9') {
            assert(!all_digits(s@));
            return false;
        }
        i += 1;
    }
    v.len() > 0
}

/// The inode that a line of icheck's answer names, in its second column.
pub open spec fn line_inode(line: Seq<char>) -> Option<Seq<char>> {
    let f = fields(line);
    if f.len() > 1 && is_number(f[1]) {
        Some(f[1])
    } else {
        None
    }
}

/// The path that a line of ncheck's answer names, behind the inode.
pub open spec fn line_path(line: Seq<char>) -> Option<Seq<char>> {
    let f = fields(line);
    if f.len() > 0 && is_number(f[0]) && joined(f.skip(1), " "@).len() > 0 {
        Some(joined(f.skip(1), " "@))
    } else {
        None
    }
}

/// Whether one of the lines behind the heading names the inode.
pub open spec fn names_inode(answer: Seq<char>, x: Seq<char>) -> bool {
    exists|i: int|
        1 <= i < lines(answer).len() && line_inode(#[trigger] lines(answer)[i]) == Some(x)
}

/// Whether one of the lines behind the heading names the path.
pub open spec fn names_path(answer: Seq<char>, x: Seq<char>) -> bool {
    exists|i: int|
        1 <= i < lines(answer).len() && line_path(#[trigger] lines(answer)[i]) == Some(x)
}

/// The inodes that icheck's answer names, in ascending order and each once.
pub fn icheck_inodes(answer: &str) -> (r: Vec<String>)
    ensures
        ascending(texts(r@)),
        forall|x: Seq<char>| texts(r@).contains(x) <==> names_inode(answer@, x),
{
    let all = split_lines(answer);
    let ghost ls = texts(all@);
    let mut out: Vec<String> = Vec::new();
    assert(texts(out@) =~= Seq::<Seq<char>>::empty());
    let mut i: usize = 1;
    while i < all.len()
        invariant
            1 <= i,
            ls == texts(all@),
            ascending(texts(out@)),
            forall|x: Seq<char>|
                texts(out@).contains(x) <==> exists|k: int|
                    1 <= k < i && k < ls.len() && line_inode(#[trigger] ls[k]) == Some(x),
        decreases all.len() - i,
    {
        let ghost before = texts(out@);
        let f = split_fields(all[i].as_str());
        assert(ls[i as int] == all@[i as int]@);
        assert(texts(f@).len() == f@.len());
        let ghost found = line_inode(ls[i as int]);
        if f.len() > 1 && numeric(f[1].as_str()) {
            assert(texts(f@)[1] == f@[1]@);
            insert_sorted(&mut out, f[1].as_str());
        } else {
            assert(f.len() > 1 ==> texts(f@)[1] == f@[1]@);
        }
        proof {
            assert forall|x: Seq<char>| texts(out@).contains(x) <==> exists|k: int|
                1 <= k < i + 1 && k < ls.len() && line_inode(#[trigger] ls[k]) == Some(x) by {
                if found == Some(x) {
                    assert(line_inode(ls[i as int]) == Some(x));
                }
                if before.contains(x) {
                    let k = choose|k: int|
                        1 <= k < i && k < ls.len() && line_inode(#[trigger] ls[k]) == Some(x);
                    assert(line_inode(ls[k]) == Some(x));
                }
            }
        }
        i += 1;
    }
    out
}

/// The paths that ncheck's answer names, in ascending order and each once.
pub fn ncheck_paths(answer: &str) -> (r: Vec<String>)
    ensures
        ascending(texts(r@)),
        forall|x: Seq<char>| texts(r@).contains(x) <==> names_path(answer@, x),
{
    let all = split_lines(answer);
    let ghost ls = texts(all@);
    let mut out: Vec<String> = Vec::new();
    assert(texts(out@) =~= Seq::<Seq<char>>::empty());
    let mut i: usize = 1;
    while i < all.len()
        invariant
            1 <= i,
            ls == texts(all@),
            ascending(texts(out@)),
            forall|x: Seq<char>|
                texts(out@).contains(x) <==> exists|k: int|
                    1 <= k < i && k < ls.len() && line_path(#[trigger] ls[k]) == Some(x),
        decreases all.len() - i,
    {
        let ghost before = texts(out@);
        let f = split_fields(all[i].as_str());
        assert(ls[i as int] == all@[i as int]@);
        assert(texts(f@).len() == f@.len());
        let ghost found = line_path(ls[i as int]);
        if f.len() > 0 && numeric(f[0].as_str()) {
            assert(texts(f@)[0] == f@[0]@);
            let path = join(&rest_of(&f), " ");
            if !path.as_str().is_empty() {
                insert_sorted(&mut out, path.as_str());
            }
        } else {
            assert(f.len() > 0 ==> texts(f@)[0] == f@[0]@);
        }
        proof {
            assert forall|x: Seq<char>| texts(out@).contains(x) <==> exists|k: int|
                1 <= k < i + 1 && k < ls.len() && line_path(#[trigger] ls[k]) == Some(x) by {
                if found == Some(x) {
                    assert(line_path(ls[i as int]) == Some(x));
                }
                if before.contains(x) {
                    let k = choose|k: int|
                        1 <= k < i && k < ls.len() && line_path(#[trigger] ls[k]) == Some(x);
                    assert(line_path(ls[k]) == Some(x));
                }
            }
        }
        i += 1;
    }
    out
}

// -------------------------------------------------------------------- report

/// Whether a line of the ring buffer comes from the integrity layer.
pub open spec fn from_integrity(line: Seq<char>) -> bool {
    holds(line, "device-mapper: integrity:"@) || holds(line, "device-mapper: crypt:"@)
}

/// The lines that come from the integrity layer.
pub open spec fn integrity_lines(v: Seq<Seq<char>>) -> Seq<Seq<char>>
    decreases v.len(),
{
    if v.len() == 0 {
        Seq::empty()
    } else if from_integrity(v.last()) {
        integrity_lines(v.drop_last()).push("  "@ + v.last())
    } else {
        integrity_lines(v.drop_last())
    }
}

/// The first part of the report: the integrity layer's messages.
pub open spec fn integrity_report(ring: Seq<char>) -> Seq<Seq<char>> {
    let found = integrity_lines(lines(ring));
    if found.len() == 0 {
        seq!["integrity layer messages:"@].push("  none"@)
    } else {
        seq!["integrity layer messages:"@] + found
    }
}

/// The first part of the report: the integrity layer's messages.
pub fn integrity_messages(ring: &str) -> (r: Vec<String>)
    ensures
        texts(r@) == integrity_report(ring@),
{
    let all = split_lines(ring);
    let ghost ls = texts(all@);
    let mut found: Vec<String> = Vec::new();
    assert(texts(found@) =~= Seq::<Seq<char>>::empty());
    let mut i: usize = 0;
    while i < all.len()
        invariant
            i <= all.len(),
            ls == texts(all@),
            texts(found@) == integrity_lines(ls.take(i as int)),
        decreases all.len() - i,
    {
        assert(ls.take(i + 1).drop_last() =~= ls.take(i as int));
        assert(ls.take(i + 1).last() == all@[i as int]@);
        let line = all[i].as_str();
        if contains(line, "device-mapper: integrity:") || contains(line, "device-mapper: crypt:") {
            push_text(&mut found, "  ".to_owned().concat(line).as_str());
        }
        i += 1;
    }
    assert(ls.take(ls.len() as int) =~= ls);
    assert(texts(found@).len() == found@.len());
    if found.len() == 0 {
        cmd("integrity layer messages:").arg("  none")
    } else {
        cmd("integrity layer messages:").args(&found)
    }
}

/// The line of one event: an unrecoverable one lost data, a corrected one was repaired
/// from redundancy.
pub open spec fn event_line(e: EventModel) -> Seq<char> {
    if e.uncorrected {
        "  member "@ + e.dev + " sector "@ + signed_dec(e.sector)
            + ": unrecoverable -- restore from backup"@
    } else {
        "  member "@ + e.dev + " sector "@ + signed_dec(e.sector) + " ("@ + signed_dec(e.nsectors)
            + " sectors): repaired by md from redundancy -- data intact"@
    }
}

/// The line of one event.
pub fn describe_event(e: &Event) -> (r: String)
    ensures
        r@ == event_line(e@),
{
    let head = "  member ".to_owned().concat(e.dev.as_str()).concat(" sector ").concat(
        signed_decimal(e.sector).as_str(),
    );
    if e.uncorrected {
        head.concat(": unrecoverable -- restore from backup")
    } else {
        head.concat(" (").concat(signed_decimal(e.nsectors).as_str()).concat(
            " sectors): repaired by md from redundancy -- data intact",
        )
    }
}

/// The lines of the files in an event's stripe.
pub open spec fn path_lines(paths: Seq<Seq<char>>) -> Seq<Seq<char>> {
    if paths.len() == 0 {
        seq!["      (no file in this stripe -- filesystem metadata or free space)"@]
    } else {
        headed("      "@, paths)
    }
}

/// The lines of the files in an event's stripe.
pub fn describe_paths(paths: &Vec<String>) -> (r: Vec<String>)
    ensures
        texts(r@) == path_lines(texts(paths@)),
{
    assert(texts(paths@).len() == paths@.len());
    if paths.len() == 0 {
        cmd("      (no file in this stripe -- filesystem metadata or free space)")
    } else {
        head_all("      ", paths)
    }
}

/// What is to be printed or looked up for the report, in order.
pub enum ReportItem {
    Line(String),
    /// Print the files in the stripe of this member sector.
    Files { sector: i64, dev: String },
}

pub enum ReportModel {
    Line(Seq<char>),
    Files { sector: int, dev: Seq<char> },
}

impl View for ReportItem {
    type V = ReportModel;

    open spec fn view(&self) -> ReportModel {
        match self {
            ReportItem::Line(s) => ReportModel::Line(s@),
            ReportItem::Files { sector, dev } => ReportModel::Files {
                sector: *sector as int,
                dev: dev@,
            },
        }
    }
}

/// The models of a list of report items.
pub open spec fn items(v: Seq<ReportItem>) -> Seq<ReportModel> {
    v.map_values(|i: ReportItem| i@)
}

/// The items of the events: a line each, and the files of those that lost data, where
/// the volume's mapping is known.
pub open spec fn event_items(v: Seq<EventModel>, mapped: bool) -> Seq<ReportModel>
    decreases v.len(),
{
    if v.len() == 0 {
        Seq::empty()
    } else {
        let before = event_items(v.drop_last(), mapped);
        let e = v.last();
        let shown = before.push(ReportModel::Line(event_line(e)));
        if e.uncorrected && mapped {
            shown.push(ReportModel::Files { sector: e.sector, dev: e.dev })
        } else {
            shown
        }
    }
}

/// Whether one of the events lost data.
pub open spec fn any_lost(v: Seq<EventModel>) -> bool {
    exists|i: int| 0 <= i < v.len() && (#[trigger] v[i]).uncorrected
}

/// The second part of the report: the read errors and their files.
pub open spec fn error_report(v: Seq<EventModel>, mapped: bool) -> Seq<ReportModel> {
    let heading = seq![ReportModel::Line("\nraid read errors mapped to files:"@)];
    if v.len() == 0 {
        heading.push(ReportModel::Line("  none recorded in the kernel ring buffer"@))
    } else {
        let shown = heading + event_items(v, mapped);
        if any_lost(v) && !mapped {
            shown.push(
                ReportModel::Line(
                    "  (file mapping unavailable: "@ + ROOT_LV_DEVICE@
                        + " is not a single-segment lvm volume)"@,
                ),
            )
        } else {
            shown
        }
    }
}

/// Whether a line of the report tells of an event: the member and the sector, and whether
/// the data is lost.
pub open spec fn line_tells(l: Seq<char>, e: EventModel) -> bool {
    &&& has_prefix(l, "  member "@ + e.dev + " sector "@ + signed_dec(e.sector))
    &&& e.uncorrected ==> has_suffix(l, ": unrecoverable -- restore from backup"@)
    &&& !e.uncorrected ==> has_suffix(
        l,
        " sectors): repaired by md from redundancy -- data intact"@,
    )
}

proof fn an_event_has_a_line(v: Seq<EventModel>, mapped: bool, k: int) -> (i: int)
    requires
        0 <= k < v.len(),
    ensures
        0 <= i < event_items(v, mapped).len(),
        event_items(v, mapped)[i] == ReportModel::Line(event_line(v[k])),
    decreases v.len(),
{
    let rest = v.drop_last();
    let before = event_items(rest, mapped);
    let all = event_items(v, mapped);
    if k < rest.len() {
        assert(rest[k] == v[k]);
        let i = an_event_has_a_line(rest, mapped, k);
        assert(all[i] == before[i]);
        i
    } else {
        assert(v.last() == v[k]);
        let i = before.len() as int;
        assert(all[i] == ReportModel::Line(event_line(v[k])));
        i
    }
}

/// Every event that was logged has a line in the report, which tells the member, the
/// sector, and whether the data is lost.
pub proof fn every_event_is_reported(v: Seq<EventModel>, mapped: bool, k: int) -> (i: int)
    requires
        0 <= k < v.len(),
    ensures
        0 <= i < error_report(v, mapped).len(),
        error_report(v, mapped)[i] matches ReportModel::Line(l) && line_tells(l, v[k]),
{
    let i = an_event_has_a_line(v, mapped, k);
    let e = v[k];
    let l = event_line(e);
    let head = "  member "@ + e.dev + " sector "@ + signed_dec(e.sector);
    assert(l.take(head.len() as int) =~= head);
    if e.uncorrected {
        let end = ": unrecoverable -- restore from backup"@;
        assert(l.skip(l.len() - end.len()) =~= end);
    } else {
        let end = " sectors): repaired by md from redundancy -- data intact"@;
        assert(l.skip(l.len() - end.len()) =~= end);
    }
    assert(error_report(v, mapped)[i + 1] == event_items(v, mapped)[i]);
    i + 1
}

/// Every message of the integrity layers is shown, and nothing else is.
pub proof fn every_integrity_message_is_shown(ring: Seq<char>, x: Seq<char>)
    ensures
        integrity_lines(lines(ring)).contains(x) <==> exists|i: int|
            0 <= i < lines(ring).len() && x == "  "@ + #[trigger] lines(ring)[i] && (holds(
                lines(ring)[i],
                "device-mapper: integrity:"@,
            ) || holds(lines(ring)[i], "device-mapper: crypt:"@)),
        integrity_lines(lines(ring)).contains(x) ==> integrity_report(ring).contains(x),
{
    messages_are_kept(lines(ring), x);
    let found = integrity_lines(lines(ring));
    if found.contains(x) {
        let k = choose|k: int| 0 <= k < found.len() && found[k] == x;
        assert(integrity_report(ring)[k + 1] == x);
    }
}

proof fn messages_are_kept(v: Seq<Seq<char>>, x: Seq<char>)
    ensures
        integrity_lines(v).contains(x) <==> exists|i: int|
            0 <= i < v.len() && x == "  "@ + #[trigger] v[i] && (holds(
                v[i],
                "device-mapper: integrity:"@,
            ) || holds(v[i], "device-mapper: crypt:"@)),
    decreases v.len(),
{
    if v.len() > 0 {
        let rest = v.drop_last();
        messages_are_kept(rest, x);
        let before = integrity_lines(rest);
        let all = integrity_lines(v);
        assert(v[v.len() - 1] == v.last());
        if before.contains(x) {
            let k = choose|k: int| 0 <= k < before.len() && before[k] == x;
            assert(all[k] == x);
            let i = choose|i: int|
                0 <= i < rest.len() && x == "  "@ + #[trigger] rest[i] && (holds(
                    rest[i],
                    "device-mapper: integrity:"@,
                ) || holds(rest[i], "device-mapper: crypt:"@));
            assert(v[i] == rest[i]);
        }
        if from_integrity(v.last()) {
            assert(all[all.len() - 1] == "  "@ + v.last());
        }
        if all.contains(x) && !before.contains(x) {
            let k = choose|k: int| 0 <= k < all.len() && all[k] == x;
            if k < before.len() {
                assert(before[k] == x);
            }
        }
        if exists|i: int|
            0 <= i < v.len() && x == "  "@ + #[trigger] v[i] && (holds(
                v[i],
                "device-mapper: integrity:"@,
            ) || holds(v[i], "device-mapper: crypt:"@)) {
            let i = choose|i: int|
                0 <= i < v.len() && x == "  "@ + #[trigger] v[i] && (holds(
                    v[i],
                    "device-mapper: integrity:"@,
                ) || holds(v[i], "device-mapper: crypt:"@));
            if i < rest.len() {
                assert(rest[i] == v[i]);
            }
        }
    }
}

/// How many disks of a stripe hold data: all but those that hold parity, or the second
/// copies.
pub proof fn the_rest_of_a_stripe_is_redundant(disks: int)
    requires
        disks >= 0,
    ensures
        data_disks_of("raid0"@, disks) == disks,
        data_disks_of("raid5"@, disks) + 1 == disks,
        data_disks_of("raid6"@, disks) + 2 == disks,
        0 <= disks - 2 * data_disks_of("raid10"@, disks) <= 1,
        data_disks_of("raid1"@, disks) == 1,
{
    reveal_strlit("raid0");
    reveal_strlit("raid5");
    reveal_strlit("raid6");
    reveal_strlit("raid10");
    reveal_strlit("raid1");
    assert("raid0"@[4] == '0' && "raid5"@[4] == '5' && "raid6"@[4] == '6' && "raid1"@[4] == '1');
    assert("raid1"@.len() == 5 && "raid10"@.len() == 6);
}

/// A table of one linear or crypt target leads to the device below it, with its offset
/// added; the size is that of the topmost volume.
pub proof fn a_table_leads_one_layer_down(
    offset: int,
    lv_sectors: int,
    table: Seq<char>,
    md: Seq<char>,
    k: int,
)
    requires
        lines(table).len() == 1,
        fields(table).len() > k + 1,
        fields(table)[0] == "0"@,
        fields(table)[2] == "linear"@ && k == 3 || fields(table)[2] == "crypt"@ && k == 6,
        parsed_int(fields(table)[1]) is Some,
        parsed_int(fields(table)[k + 1]) is Some,
        in_i64(offset + parsed_int(fields(table)[k + 1])->0),
    ensures
        ({
            let f = fields(table);
            let down = offset + parsed_int(f[k + 1])->0;
            let size = if lv_sectors == 0 {
                parsed_int(f[1])->0
            } else {
                lv_sectors
            };
            next_of(offset, lv_sectors, table, md) == if f[k] == md {
                NextModel::Reached { offset: down, lv_sectors: size }
            } else {
                NextModel::Below { under: f[k], offset: down, lv_sectors: size }
            }
        }),
{
    reveal_strlit("linear");
    reveal_strlit("crypt");
    assert("linear"@.len() == 6 && "crypt"@.len() == 5);
    let f = fields(table);
    assert(under_at(f[2]) == Some(k));
}

/// Files are looked up for data that was lost, and for nothing else.
pub proof fn only_lost_data_is_looked_up(
    v: Seq<EventModel>,
    mapped: bool,
    sector: int,
    dev: Seq<char>,
)
    ensures
        event_items(v, mapped).contains(ReportModel::Files { sector, dev }) <==> mapped
            && exists|i: int|
            0 <= i < v.len() && (#[trigger] v[i]).uncorrected && v[i].sector == sector && v[i].dev
                == dev,
    decreases v.len(),
{
    let want = ReportModel::Files { sector, dev };
    if v.len() > 0 {
        let rest = v.drop_last();
        only_lost_data_is_looked_up(rest, mapped, sector, dev);
        let before = event_items(rest, mapped);
        let all = event_items(v, mapped);
        let e = v.last();
        if before.contains(want) {
            let k = choose|k: int| 0 <= k < before.len() && before[k] == want;
            assert(all[k] == want);
            let i = choose|i: int|
                0 <= i < rest.len() && (#[trigger] rest[i]).uncorrected && rest[i].sector == sector
                    && rest[i].dev == dev;
            assert(v[i] == rest[i]);
        }
        if mapped && e.uncorrected && e.sector == sector && e.dev == dev {
            assert(all[all.len() - 1] == want);
            assert(v[v.len() - 1] == e);
        }
        if all.contains(want) && !before.contains(want) {
            let k = choose|k: int| 0 <= k < all.len() && all[k] == want;
            if k < before.len() {
                assert(before[k] == want);
            }
            assert(v[v.len() - 1] == e);
        }
        if mapped && exists|i: int|
            0 <= i < v.len() && (#[trigger] v[i]).uncorrected && v[i].sector == sector && v[i].dev
                == dev {
            let i = choose|i: int|
                0 <= i < v.len() && (#[trigger] v[i]).uncorrected && v[i].sector == sector
                    && v[i].dev == dev;
            if i < rest.len() {
                assert(rest[i] == v[i]);
            }
        }
    }
}

fn add_item(v: &mut Vec<ReportItem>, i: ReportItem)
    ensures
        items(final(v)@) == items(old(v)@).push(i@),
{
    let ghost before = v@;
    v.push(i);
    assert(items(v@) =~= items(before).push(i@));
}

/// The second part of the report: the read errors, and where files are to be looked
/// up. `mapped` says whether the volume's mapping down to the array is known.
pub fn report(found: &Vec<Event>, mapped: bool) -> (r: Vec<ReportItem>)
    ensures
        items(r@) == error_report(events(found@), mapped),
{
    let ghost all = events(found@);
    let mut out: Vec<ReportItem> = Vec::new();
    assert(items(out@) =~= Seq::<ReportModel>::empty());
    add_item(&mut out, ReportItem::Line("\nraid read errors mapped to files:".to_owned()));
    if found.len() == 0 {
        add_item(&mut out, ReportItem::Line("  none recorded in the kernel ring buffer".to_owned()));
        return out;
    }
    let ghost heading = items(out@);
    let mut lost = false;
    let mut i: usize = 0;
    assert(heading + event_items(all.take(0), mapped) =~= heading);
    while i < found.len()
        invariant
            i <= found.len(),
            all == events(found@),
            items(out@) == heading + event_items(all.take(i as int), mapped),
            lost == any_lost(all.take(i as int)),
        decreases found.len() - i,
    {
        let e = &found[i];
        let ghost next = all.take(i + 1);
        proof {
            assert(next.drop_last() =~= all.take(i as int));
            assert(next.last() == e@);
            assert(any_lost(next) == (any_lost(all.take(i as int)) || e.uncorrected)) by {
                if any_lost(all.take(i as int)) {
                    let k = choose|k: int|
                        0 <= k < i && (#[trigger] all.take(i as int)[k]).uncorrected;
                    assert(next[k].uncorrected);
                }
                if e.uncorrected {
                    assert(next[i as int].uncorrected);
                }
                if any_lost(next) {
                    let k = choose|k: int| 0 <= k < next.len() && (#[trigger] next[k]).uncorrected;
                    if k < i {
                        assert(all.take(i as int)[k].uncorrected);
                    }
                }
            }
        }
        add_item(&mut out, ReportItem::Line(describe_event(e)));
        if e.uncorrected {
            lost = true;
            if mapped {
                add_item(&mut out, ReportItem::Files { sector: e.sector, dev: e.dev.clone() });
            }
        }
        assert(items(out@) =~= heading + event_items(next, mapped));
        i += 1;
    }
    assert(all.take(all.len() as int) =~= all);
    if lost && !mapped {
        add_item(
            &mut out,
            ReportItem::Line(
                "  (file mapping unavailable: ".to_owned().concat(ROOT_LV_DEVICE).concat(
                    " is not a single-segment lvm volume)",
                ),
            ),
        );
    }
    out
}

} // verus!
