//! The fsync-bound sysbench fileio benchmark, run on the mounted root filesystem (the
//! array). Every write is followed by an fsync, so the number is durable write latency,
//! the metric that matters for crash-consistent raid. Lower is better.
use vstd::prelude::*;
use vstd::string::*;

use crate::cli::BenchmarkArgs;
use crate::config::{Benchmark, BenchmarkModel};
use crate::step::{
    add_step, models, no_steps, one_phase, phases, run_step, sh_step, Phase, PhaseModel, Step,
    StepModel,
};
use crate::text::{
    after_prefix, cmd, cut, dec, decimal, filled, has_prefix, join, joined, lines, opt_text,
    pad_left, pad_right, padded, pieces, push_text, same, show_text, shown_text, slice_string,
    split_lines, starts_with, texts, to_chars, trim, trimmed, ArgList, Sep,
};

verus! {

/// The scratch directory on the root filesystem. /tmp is a tmpfs, which would measure
/// ram and cannot hold the working set.
pub const WORKDIR: &'static str = "/var/tmp/raiden-benchmark";

/// The resolved parameters: the configured defaults, overlaid by flags.
pub struct Bench {
    pub size: String,
    pub passes: u32,
    pub rndwr_events: u64,
    pub seqwr_events: u64,
}

impl View for Bench {
    type V = BenchmarkModel;

    open spec fn view(&self) -> BenchmarkModel {
        BenchmarkModel {
            size: self.size@,
            passes: self.passes,
            rndwr_events: self.rndwr_events,
            seqwr_events: self.seqwr_events,
        }
    }
}

/// The parameters with those that the flags give in place of their own.
pub open spec fn overlaid(b: BenchmarkModel, args: BenchmarkArgs) -> BenchmarkModel {
    BenchmarkModel {
        size: match opt_text(args.size) {
            Some(v) => v,
            None => b.size,
        },
        passes: match args.passes {
            Some(v) => v,
            None => b.passes,
        },
        rndwr_events: match args.rndwr_events {
            Some(v) => v,
            None => b.rndwr_events,
        },
        seqwr_events: match args.seqwr_events {
            Some(v) => v,
            None => b.seqwr_events,
        },
    }
}

/// The shell line that prepares the working set.
pub open spec fn prepare_text(b: BenchmarkModel) -> Seq<char> {
    "cd "@ + WORKDIR@ + " && sysbench fileio prepare --file-total-size="@ + b.size
}

/// The shell line of one pass.
pub open spec fn run_text(b: BenchmarkModel, mode: Seq<char>, events: u64) -> Seq<char> {
    "cd "@ + WORKDIR@ + " && sysbench fileio run --file-total-size="@ + b.size
        + " --file-test-mode="@ + mode + " --file-fsync-all=on --time=0 --events="@ + dec(
        events as nat,
    )
}

impl Bench {
    pub fn from_cfg(c: &Benchmark) -> (r: Self)
        ensures
            r@ == (BenchmarkModel {
                size: c.size@,
                passes: c.passes,
                rndwr_events: c.rndwr_events,
                seqwr_events: c.seqwr_events,
            }),
    {
        Self {
            size: c.size.clone(),
            passes: c.passes,
            rndwr_events: c.rndwr_events,
            seqwr_events: c.seqwr_events,
        }
    }

    /// The parameters with those that the flags give in place of their own.
    pub fn overlay(self, args: &BenchmarkArgs) -> (r: Self)
        ensures
            r@ == overlaid(self@, *args),
    {
        Bench {
            size: match &args.size {
                Some(v) => v.clone(),
                None => self.size,
            },
            passes: match args.passes {
                Some(v) => v,
                None => self.passes,
            },
            rndwr_events: match args.rndwr_events {
                Some(v) => v,
                None => self.rndwr_events,
            },
            seqwr_events: match args.seqwr_events {
                Some(v) => v,
                None => self.seqwr_events,
            },
        }
    }

    /// The write modes and their events per pass. Random writes churn more per event
    /// than sequential ones, so they need fewer.
    pub fn modes(&self) -> (r: [(&'static str, u64); 2])
        ensures
            r@[0].0@ == "rndwr"@ && r@[0].1 == self@.rndwr_events,
            r@[1].0@ == "seqwr"@ && r@[1].1 == self@.seqwr_events,
    {
        [("rndwr", self.rndwr_events), ("seqwr", self.seqwr_events)]
    }

    /// The shell line that prepares the working set.
    pub fn prepare_cmd(&self) -> (r: String)
        ensures
            r@ == prepare_text(self@),
    {
        "cd ".to_owned().concat(WORKDIR).concat(
            " && sysbench fileio prepare --file-total-size=",
        ).concat(self.size.as_str())
    }

    /// The shell line of one pass.
    pub fn run_cmd(&self, mode: &str, events: u64) -> (r: String)
        ensures
            r@ == run_text(self@, mode@, events),
    {
        "cd ".to_owned().concat(WORKDIR).concat(
            " && sysbench fileio run --file-total-size=",
        ).concat(self.size.as_str()).concat(" --file-test-mode=").concat(mode).concat(
            " --file-fsync-all=on --time=0 --events=",
        ).concat(decimal(events).as_str())
    }
}

// ---------------------------------------------------------------------- plan

/// The step of pass `i`.
pub open spec fn pass_step(b: BenchmarkModel, mode: Seq<char>, events: u64, i: nat) -> StepModel {
    sh_step(
        mode + " pass "@ + dec(i) + "/"@ + dec(b.passes as nat),
        run_text(b, mode, events),
    )
}

/// The steps of all passes of a mode, counted from one.
pub open spec fn pass_steps(b: BenchmarkModel, mode: Seq<char>, events: u64) -> Seq<StepModel> {
    Seq::new(b.passes as nat, |i: int| pass_step(b, mode, events, (i + 1) as nat))
}

/// The steps before the passes.
pub open spec fn setup_steps(b: BenchmarkModel) -> Seq<StepModel> {
    seq![
        run_step(
            "ensure sysbench is installed"@,
            seq!["apt-get"@, "install"@, "-y"@, "sysbench"@],
        ).best_effort(),
        run_step("create the scratch dir on the root fs"@, seq!["mkdir"@, "-p"@, WORKDIR@]),
        sh_step("prepare the fileio working set"@, prepare_text(b)),
    ]
}

/// The step that removes the scratch directory.
pub open spec fn cleanup_step() -> StepModel {
    run_step("remove the scratch dir"@, seq!["rm"@, "-rf"@, WORKDIR@])
}

/// The benchmark as a plan: the setup, every pass of every mode, the cleanup.
pub open spec fn bench_plan(b: BenchmarkModel) -> Seq<PhaseModel> {
    seq![
        PhaseModel {
            name: "benchmark"@,
            steps: (setup_steps(b) + pass_steps(b, "rndwr"@, b.rndwr_events) + pass_steps(
                b,
                "seqwr"@,
                b.seqwr_events,
            )).push(cleanup_step()),
        },
    ]
}

fn add_passes(v: &mut Vec<Step>, b: &Bench, mode: &str, events: u64)
    ensures
        models(final(v)@) == models(old(v)@) + pass_steps(b@, mode@, events),
{
    let ghost done = models(v@);
    let ghost want = pass_steps(b@, mode@, events);
    let mut i: u32 = 0;
    while i < b.passes
        invariant
            i <= b.passes,
            want == pass_steps(b@, mode@, events),
            models(v@) =~= done + want.take(i as int),
        decreases b.passes - i,
    {
        i += 1;
        let note = mode.to_owned().concat(" pass ").concat(decimal(i as u64).as_str()).concat(
            "/",
        ).concat(decimal(b.passes as u64).as_str());
        add_step(v, Step::sh(note.as_str(), b.run_cmd(mode, events).as_str()));
        assert(want[i - 1] == pass_step(b@, mode@, events, i as nat));
    }
    assert(want.take(want.len() as int) =~= want);
}

/// The benchmark as an ordered plan, which shows the exact sysbench invocations.
pub fn plan(b: &Bench) -> (r: Vec<Phase>)
    ensures
        phases(r@) == bench_plan(b@),
{
    let mut s = no_steps();
    add_step(
        &mut s,
        Step::run_owned(
            "ensure sysbench is installed",
            cmd("apt-get").arg("install").arg("-y").arg("sysbench"),
        ).best_effort(),
    );
    add_step(
        &mut s,
        Step::run_owned(
            "create the scratch dir on the root fs",
            cmd("mkdir").arg("-p").arg(WORKDIR),
        ),
    );
    add_step(
        &mut s,
        Step::sh("prepare the fileio working set", b.prepare_cmd().as_str()),
    );
    proof {
        assert(models(s@)[0].action->Run_0.argv =~= setup_steps(b@)[0].action->Run_0.argv);
        assert(models(s@)[1].action->Run_0.argv =~= setup_steps(b@)[1].action->Run_0.argv);
        assert(models(s@) =~= setup_steps(b@));
    }
    add_passes(&mut s, b, "rndwr", b.rndwr_events);
    add_passes(&mut s, b, "seqwr", b.seqwr_events);
    let last = Step::run_owned("remove the scratch dir", cmd("rm").arg("-rf").arg(WORKDIR));
    proof {
        assert(last@.action->Run_0.argv =~= cleanup_step().action->Run_0.argv);
        assert(last@ =~= cleanup_step());
    }
    add_step(&mut s, last);
    one_phase(Phase::new("benchmark", s))
}

/// Every pass of every mode has its step in the plan.
pub proof fn every_pass_is_planned(b: BenchmarkModel, i: nat)
    requires
        1 <= i <= b.passes,
    ensures
        bench_plan(b)[0].steps.contains(pass_step(b, "rndwr"@, b.rndwr_events, i)),
        bench_plan(b)[0].steps.contains(pass_step(b, "seqwr"@, b.seqwr_events, i)),
        bench_plan(b)[0].steps.len() == 2 * b.passes + 4,
{
    let s = bench_plan(b)[0].steps;
    let n = b.passes as int;
    assert(s[3 + i - 1] == pass_steps(b, "rndwr"@, b.rndwr_events)[i - 1]);
    assert(s[3 + n + i - 1] == pass_steps(b, "seqwr"@, b.seqwr_events)[i - 1]);
}

// ------------------------------------------------------------------- results

/// A format that is neither "text" nor "json".
pub struct UnknownFormat {
    pub format: String,
}

impl UnknownFormat {
    /// What is printed of the error.
    pub fn message(&self) -> (r: String)
        ensures
            r@ == "--format must be \"text\" or \"json\", got "@ + shown_text(self.format@),
    {
        "--format must be \"text\" or \"json\", got ".to_owned().concat(
            show_text(self.format.as_str()).as_str(),
        )
    }
}

/// Whether the results are to be printed as json.
pub fn wants_json(format: &str) -> (r: Result<bool, UnknownFormat>)
    ensures
        r is Ok <==> format@ == "text"@ || format@ == "json"@,
        r is Ok ==> r->Ok_0 == (format@ == "json"@),
        r is Err ==> r->Err_0.format@ == format@,
{
    if same(format, "json") {
        Ok(true)
    } else if same(format, "text") {
        proof {
            reveal_strlit("json");
            reveal_strlit("text");
            assert("json"@[0] == 'j' && "text"@[0] == 't');
        }
        Ok(false)
    } else {
        Err(UnknownFormat { format: format.to_owned() })
    }
}

/// A text without the letters `s` at its end.
pub open spec fn without_unit(s: Seq<char>) -> Seq<char>
    decreases s.len(),
{
    if s.len() > 0 && s.last() == 's' {
        without_unit(s.drop_last())
    } else {
        s
    }
}

fn strip_unit(s: &str) -> (r: String)
    ensures
        r@ == without_unit(s@),
{
    let v = to_chars(s);
    let mut to: usize = v.len();
    assert(v@.subrange(0, to as int) =~= v@);
    while 0 < to && v[to - 1] == 's'
        invariant
            to <= v@.len(),
            without_unit(v@.subrange(0, to as int)) == without_unit(s@),
        decreases to,
    {
        assert(v@.subrange(0, to as int).drop_last() =~= v@.subrange(0, to - 1));
        to -= 1;
    }
    slice_string(&v, 0, to)
}

/// The total time that a line gives, in seconds.
pub open spec fn total_in(line: Seq<char>) -> Option<Seq<char>> {
    let l = trimmed(line);
    if has_prefix(l, "total time:"@) {
        Some(without_unit(trimmed(l.skip("total time:"@.len() as int))))
    } else {
        None
    }
}

/// The 95th percentile that a line gives, in milliseconds: what stands behind its last
/// colon.
pub open spec fn p95_in(line: Seq<char>) -> Option<Seq<char>> {
    let l = trimmed(line);
    if !has_prefix(l, "total time:"@) && has_prefix(l, "95th percentile:"@) {
        Some(trimmed(pieces(l, Sep::Is(':')).last()))
    } else {
        None
    }
}

/// The last of the values that `f` finds in the lines.
pub open spec fn last_found(
    v: Seq<Seq<char>>,
    f: spec_fn(Seq<char>) -> Option<Seq<char>>,
) -> Option<Seq<char>>
    decreases v.len(),
{
    if v.len() == 0 {
        None
    } else if f(v.last()) is Some {
        f(v.last())
    } else {
        last_found(v.drop_last(), f)
    }
}

/// The metrics of one pass, as they are spelled.
pub struct PassText {
    /// Total time, in seconds.
    pub total: String,
    /// 95th percentile latency, in milliseconds.
    pub p95: String,
}

/// Pulls the durable-write metrics out of one sysbench fileio run. None where either
/// line is missing.
pub fn parse_pass(out: &str) -> (r: Option<PassText>)
    ensures
        r is Some <==> last_found(lines(out@), |l: Seq<char>| total_in(l)) is Some && last_found(
            lines(out@),
            |l: Seq<char>| p95_in(l),
        ) is Some,
        r is Some ==> Some(r->0.total@) == last_found(lines(out@), |l: Seq<char>| total_in(l)),
        r is Some ==> Some(r->0.p95@) == last_found(lines(out@), |l: Seq<char>| p95_in(l)),
{
    let all = split_lines(out);
    let ghost ls = texts(all@);
    let ghost ft = |l: Seq<char>| total_in(l);
    let ghost fp = |l: Seq<char>| p95_in(l);
    let mut total: Option<String> = None;
    let mut p95: Option<String> = None;
    let mut i: usize = 0;
    while i < all.len()
        invariant
            i <= all.len(),
            ls == texts(all@),
            ft == (|l: Seq<char>| total_in(l)),
            fp == (|l: Seq<char>| p95_in(l)),
            opt_text(total) == last_found(ls.take(i as int), ft),
            opt_text(p95) == last_found(ls.take(i as int), fp),
        decreases all.len() - i,
    {
        assert(ls.take(i + 1).drop_last() =~= ls.take(i as int));
        assert(ls.take(i + 1).last() == all@[i as int]@);
        let l = trim(all[i].as_str());
        match after_prefix(l.as_str(), "total time:") {
            Some(rest) => {
                total = Some(strip_unit(trim(rest.as_str()).as_str()));
            },
            None => {
                if starts_with(l.as_str(), "95th percentile:") {
                    let parts = cut(l.as_str(), Sep::Is(':'));
                    assert(texts(parts@).len() == parts@.len());
                    if parts.len() > 0 {
                        assert(texts(parts@).last() == parts@[parts@.len() - 1]@);
                        p95 = Some(trim(parts[parts.len() - 1].as_str()));
                    }
                }
            },
        }
        i += 1;
    }
    assert(ls.take(ls.len() as int) =~= ls);
    match (total, p95) {
        (Some(total), Some(p95)) => Some(PassText { total, p95 }),
        _ => None,
    }
}

/// One mode's averages, as they are to be printed.
pub struct ModeText {
    pub mode: String,
    pub total: String,
    pub p95: String,
}

/// The line that is printed of a pass while the benchmark runs.
pub fn pass_line(b: &Bench, mode: &str, i: u32, total: &str, p95: &str) -> (r: String)
    ensures
        r@ == "  "@ + mode@ + " pass "@ + dec(i as nat) + "/"@ + dec(b@.passes as nat)
            + ": total "@ + total@ + "s  p95 "@ + p95@ + "ms"@,
{
    "  ".to_owned().concat(mode).concat(" pass ").concat(decimal(i as u64).as_str()).concat(
        "/",
    ).concat(decimal(b.passes as u64).as_str()).concat(": total ").concat(total).concat(
        "s  p95 ",
    ).concat(p95).concat("ms")
}

/// A row of the table: the mode, then both averages in columns.
pub open spec fn row_text(m: ModeText) -> Seq<char> {
    "  "@ + filled(m.mode@, 6) + " "@ + padded(m.total@, 11, ' ') + "s "@ + padded(
        m.p95@,
        8,
        ' ',
    ) + "ms"@
}

/// The summary as a table.
pub open spec fn table_text(b: BenchmarkModel, results: Seq<ModeText>) -> Seq<Seq<char>> {
    seq![
        "\nbenchmark (sysbench fileio, fsync-all, "@ + b.size + ", "@ + dec(b.passes as nat)
            + " passes)"@,
    ].push("  mode      avg total    avg p95"@) + results.map_values(|m: ModeText| row_text(m))
}

/// The summary as a table.
pub fn table_lines(b: &Bench, results: &Vec<ModeText>) -> (r: Vec<String>)
    ensures
        texts(r@) == table_text(b@, results@),
{
    let heading = "\nbenchmark (sysbench fileio, fsync-all, ".to_owned().concat(
        b.size.as_str(),
    ).concat(", ").concat(decimal(b.passes as u64).as_str()).concat(" passes)");
    let mut out = cmd(heading.as_str()).arg("  mode      avg total    avg p95");
    let ghost done = texts(out@);
    let ghost want = results@.map_values(|m: ModeText| row_text(m));
    let mut i: usize = 0;
    while i < results.len()
        invariant
            i <= results.len(),
            want == results@.map_values(|m: ModeText| row_text(m)),
            texts(out@) =~= done + want.take(i as int),
        decreases results.len() - i,
    {
        let m = &results[i];
        let row = "  ".to_owned().concat(pad_right(m.mode.as_str(), 6).as_str()).concat(
            " ",
        ).concat(pad_left(m.total.clone(), 11, ' ').as_str()).concat("s ").concat(
            pad_left(m.p95.clone(), 8, ' ').as_str(),
        ).concat("ms");
        push_text(&mut out, row.as_str());
        assert(want[i as int] == row@);
        i += 1;
    }
    assert(want.take(want.len() as int) =~= want);
    out
}

/// A mode's entry in the json summary.
pub open spec fn json_entry(m: ModeText) -> Seq<char> {
    "\""@ + m.mode@ + "\":{\"total_s\":"@ + m.total@ + ",\"p95_ms\":"@ + m.p95@ + "}"@
}

/// The machine-readable summary.
pub open spec fn json_text(b: BenchmarkModel, results: Seq<ModeText>) -> Seq<char> {
    "{\"size\":\""@ + b.size + "\",\"passes\":"@ + dec(b.passes as nat) + ","@ + joined(
        results.map_values(|m: ModeText| json_entry(m)),
        ","@,
    ) + "}"@
}

/// The machine-readable summary.
pub fn json_line(b: &Bench, results: &Vec<ModeText>) -> (r: String)
    ensures
        r@ == json_text(b@, results@),
{
    let mut body: Vec<String> = Vec::new();
    let ghost want = results@.map_values(|m: ModeText| json_entry(m));
    let mut i: usize = 0;
    while i < results.len()
        invariant
            i <= results.len(),
            want == results@.map_values(|m: ModeText| json_entry(m)),
            texts(body@) =~= want.take(i as int),
        decreases results.len() - i,
    {
        let m = &results[i];
        let entry = "\"".to_owned().concat(m.mode.as_str()).concat("\":{\"total_s\":").concat(
            m.total.as_str(),
        ).concat(",\"p95_ms\":").concat(m.p95.as_str()).concat("}");
        push_text(&mut body, entry.as_str());
        assert(want[i as int] == entry@);
        i += 1;
    }
    assert(want.take(want.len() as int) =~= want);
    "{\"size\":\"".to_owned().concat(b.size.as_str()).concat("\",\"passes\":").concat(
        decimal(b.passes as u64).as_str(),
    ).concat(",").concat(join(&body, ",").as_str()).concat("}")
}

} // verus!
