//! A step is one action: run a command, write a file, or append to a file. A plan
//! is an ordered list of phases, each a named group of steps. A plan is printed, or
//! carried out step by step from a cursor. The encryption password is fed to secret
//! steps on stdin and is never part of a step or of what is printed of it.
use vstd::prelude::*;
use vstd::string::*;

use crate::text::{
    cmd, copy_texts, has_prefix, head_all, headed, join, joined, lines, notation, number, pad_left,
    padded, push_text, push_texts, spelled, split_lines, strs, texts, trim_newlines,
    without_newlines, ArgList,
};

verus! {

/// A command to run.
pub struct RunSpec {
    pub argv: Vec<String>,
    pub chroot: bool,
    pub secret_stdin: bool,
    /// Text before the password on stdin (eg. "root:" for chpasswd).
    pub secret_prefix: String,
    pub best_effort: bool,
}

pub enum Action {
    Run(RunSpec),
    Write { path: String, content: String, mode: Option<u32> },
    Append { path: String, content: String },
}

pub struct Step {
    pub note: String,
    pub action: Action,
}

pub struct Phase {
    pub name: String,
    pub steps: Vec<Step>,
}

// --------------------------------------------------------------------- model

#[verifier::ext_equal]
pub struct RunModel {
    pub argv: Seq<Seq<char>>,
    pub chroot: bool,
    pub secret_stdin: bool,
    pub secret_prefix: Seq<char>,
    pub best_effort: bool,
}

#[verifier::ext_equal]
pub enum ActionModel {
    Run(RunModel),
    Write { path: Seq<char>, content: Seq<char>, mode: Option<u32> },
    Append { path: Seq<char>, content: Seq<char> },
}

#[verifier::ext_equal]
pub struct StepModel {
    pub note: Seq<char>,
    pub action: ActionModel,
}

#[verifier::ext_equal]
pub struct PhaseModel {
    pub name: Seq<char>,
    pub steps: Seq<StepModel>,
}

impl View for RunSpec {
    type V = RunModel;

    open spec fn view(&self) -> RunModel {
        RunModel {
            argv: texts(self.argv@),
            chroot: self.chroot,
            secret_stdin: self.secret_stdin,
            secret_prefix: self.secret_prefix@,
            best_effort: self.best_effort,
        }
    }
}

impl View for Action {
    type V = ActionModel;

    open spec fn view(&self) -> ActionModel {
        match self {
            Action::Run(r) => ActionModel::Run(r@),
            Action::Write { path, content, mode } => ActionModel::Write {
                path: path@,
                content: content@,
                mode: *mode,
            },
            Action::Append { path, content } => ActionModel::Append {
                path: path@,
                content: content@,
            },
        }
    }
}

impl View for Step {
    type V = StepModel;

    open spec fn view(&self) -> StepModel {
        StepModel { note: self.note@, action: self.action@ }
    }
}

impl View for Phase {
    type V = PhaseModel;

    open spec fn view(&self) -> PhaseModel {
        PhaseModel { name: self.name@, steps: models(self.steps@) }
    }
}

/// The models of a list of steps.
pub open spec fn models(v: Seq<Step>) -> Seq<StepModel> {
    v.map_values(|s: Step| s@)
}

/// The models of a list of phases.
pub open spec fn phases(v: Seq<Phase>) -> Seq<PhaseModel> {
    v.map_values(|p: Phase| p@)
}

/// A step that runs `argv`.
pub open spec fn run_step(note: Seq<char>, argv: Seq<Seq<char>>) -> StepModel {
    StepModel {
        note,
        action: ActionModel::Run(
            RunModel {
                argv,
                chroot: false,
                secret_stdin: false,
                secret_prefix: Seq::empty(),
                best_effort: false,
            },
        ),
    }
}

/// A step that hands `script` to the shell.
pub open spec fn sh_step(note: Seq<char>, script: Seq<char>) -> StepModel {
    run_step(note, seq!["sh"@, "-c"@, script])
}

/// A step that writes a file, leaving its mode alone.
pub open spec fn write_step(note: Seq<char>, path: Seq<char>, content: Seq<char>) -> StepModel {
    StepModel { note, action: ActionModel::Write { path, content, mode: None } }
}

/// A step that writes a file and sets its mode.
pub open spec fn write_mode_step(
    note: Seq<char>,
    path: Seq<char>,
    content: Seq<char>,
    mode: u32,
) -> StepModel {
    StepModel { note, action: ActionModel::Write { path, content, mode: Some(mode) } }
}

/// A step that appends to a file.
pub open spec fn append_step(note: Seq<char>, path: Seq<char>, content: Seq<char>) -> StepModel {
    StepModel { note, action: ActionModel::Append { path, content } }
}

impl StepModel {
    /// The step inside the target's chroot, where it is a command.
    pub open spec fn chroot(self) -> StepModel {
        match self.action {
            ActionModel::Run(r) => StepModel {
                action: ActionModel::Run(RunModel { chroot: true, ..r }),
                ..self
            },
            _ => self,
        }
    }

    /// The step with the password on stdin, where it is a command.
    pub open spec fn secret(self) -> StepModel {
        match self.action {
            ActionModel::Run(r) => StepModel {
                action: ActionModel::Run(RunModel { secret_stdin: true, ..r }),
                ..self
            },
            _ => self,
        }
    }

    /// The step with `prefix` and the password on stdin, where it is a command.
    pub open spec fn secret_prefixed(self, prefix: Seq<char>) -> StepModel {
        match self.action {
            ActionModel::Run(r) => StepModel {
                action: ActionModel::Run(
                    RunModel { secret_stdin: true, secret_prefix: prefix, ..r },
                ),
                ..self
            },
            _ => self,
        }
    }

    /// The step with its failure ignored, where it is a command.
    pub open spec fn best_effort(self) -> StepModel {
        match self.action {
            ActionModel::Run(r) => StepModel {
                action: ActionModel::Run(RunModel { best_effort: true, ..r }),
                ..self
            },
            _ => self,
        }
    }

    /// Whether the step needs the password.
    pub open spec fn is_secret(self) -> bool {
        self.action is Run && self.action->Run_0.secret_stdin
    }

    /// What is printed of the step, with the password masked.
    pub open spec fn description(self) -> Seq<Seq<char>> {
        match self.action {
            ActionModel::Run(r) => seq![shown_command(r)],
            ActionModel::Write { path, content, mode } => seq![
                "write "@ + path + shown_mode(mode) + ":"@,
            ] + headed("  | "@, lines(content)),
            ActionModel::Append { path, content } => headed(
                "append "@ + path + ": "@,
                lines(without_newlines(content)),
            ),
        }
    }
}

/// The command as a shell line: where the password is fed, a placeholder.
pub open spec fn shown_command(r: RunModel) -> Seq<char> {
    let fed = if r.secret_stdin {
        "echo "@ + r.secret_prefix + "<password> | "@
    } else {
        Seq::empty()
    };
    let inside = if r.chroot {
        fed + "chroot /mnt "@
    } else {
        fed
    };
    let line = inside + joined(r.argv, " "@);
    if r.best_effort {
        line + "    # best-effort"@
    } else {
        line
    }
}

/// The mode in octal, at least four digits, where there is one.
pub open spec fn shown_mode(mode: Option<u32>) -> Seq<char> {
    match mode {
        Some(m) => " (mode "@ + padded(notation(m as nat, 8), 4, '0') + ")"@,
        None => Seq::empty(),
    }
}

// --------------------------------------------------------------------- steps

impl Step {
    pub fn run(note: &str, argv: &[&str]) -> (r: Self)
        ensures
            r@ == run_step(note@, spelled(argv@)),
    {
        Self::run_owned(note, strs(argv))
    }

    pub fn run_owned(note: &str, argv: Vec<String>) -> (r: Self)
        ensures
            r@ == run_step(note@, texts(argv@)),
    {
        Step {
            note: note.to_owned(),
            action: Action::Run(
                RunSpec {
                    argv,
                    chroot: false,
                    secret_stdin: false,
                    secret_prefix: String::new(),
                    best_effort: false,
                },
            ),
        }
    }

    /// A command run through `sh -c`, for the few cases that need runtime values
    /// (eg. a uuid from blkid) or shell redirection.
    pub fn sh(note: &str, script: &str) -> (r: Self)
        ensures
            r@ == sh_step(note@, script@),
    {
        Self::run_owned(note, cmd("sh").arg("-c").arg(script))
    }

    pub fn write(note: &str, path: &str, content: &str) -> (r: Self)
        ensures
            r@ == write_step(note@, path@, content@),
    {
        Step {
            note: note.to_owned(),
            action: Action::Write { path: path.to_owned(), content: content.to_owned(), mode: None },
        }
    }

    pub fn write_mode(note: &str, path: &str, content: &str, mode: u32) -> (r: Self)
        ensures
            r@ == write_mode_step(note@, path@, content@, mode),
    {
        Step {
            note: note.to_owned(),
            action: Action::Write {
                path: path.to_owned(),
                content: content.to_owned(),
                mode: Some(mode),
            },
        }
    }

    pub fn append(note: &str, path: &str, content: &str) -> (r: Self)
        ensures
            r@ == append_step(note@, path@, content@),
    {
        Step {
            note: note.to_owned(),
            action: Action::Append { path: path.to_owned(), content: content.to_owned() },
        }
    }

    pub fn chroot(self) -> (r: Self)
        ensures
            r@ == self@.chroot(),
    {
        match self.action {
            Action::Run(r) => Step {
                note: self.note,
                action: Action::Run(RunSpec { chroot: true, ..r }),
            },
            other => Step { note: self.note, action: other },
        }
    }

    pub fn secret(self) -> (r: Self)
        ensures
            r@ == self@.secret(),
    {
        match self.action {
            Action::Run(r) => Step {
                note: self.note,
                action: Action::Run(RunSpec { secret_stdin: true, ..r }),
            },
            other => Step { note: self.note, action: other },
        }
    }

    /// Feeds `prefix` and the password on stdin (eg. "root:" so chpasswd sets the
    /// root account non-interactively).
    pub fn secret_prefixed(self, prefix: &str) -> (r: Self)
        ensures
            r@ == self@.secret_prefixed(prefix@),
    {
        match self.action {
            Action::Run(r) => Step {
                note: self.note,
                action: Action::Run(
                    RunSpec { secret_stdin: true, secret_prefix: prefix.to_owned(), ..r },
                ),
            },
            other => Step { note: self.note, action: other },
        }
    }

    pub fn best_effort(self) -> (r: Self)
        ensures
            r@ == self@.best_effort(),
    {
        match self.action {
            Action::Run(r) => Step {
                note: self.note,
                action: Action::Run(RunSpec { best_effort: true, ..r }),
            },
            other => Step { note: self.note, action: other },
        }
    }

    /// Whether the step needs the password.
    pub fn is_secret(&self) -> (r: bool)
        ensures
            r == self@.is_secret(),
    {
        match &self.action {
            Action::Run(r) => r.secret_stdin,
            _ => false,
        }
    }

    /// Human-readable lines, with the password masked.
    pub fn describe(&self) -> (r: Vec<String>)
        ensures
            texts(r@) == self@.description(),
    {
        match &self.action {
            Action::Run(r) => {
                let mut line = String::new();
                if r.secret_stdin {
                    let fed = "echo ".to_owned().concat(r.secret_prefix.as_str()).concat(
                        "<password> | ",
                    );
                    line = fed;
                }
                if r.chroot {
                    line.append("chroot /mnt ");
                }
                line.append(join(&r.argv, " ").as_str());
                if r.best_effort {
                    line.append("    # best-effort");
                }
                cmd(line.as_str())
            },
            Action::Write { path, content, mode } => {
                let m = match mode {
                    Some(m) => " (mode ".to_owned().concat(
                        pad_left(number(*m as u64, 8), 4, '0').as_str(),
                    ).concat(")"),
                    None => String::new(),
                };
                let first = "write ".to_owned().concat(path.as_str()).concat(m.as_str()).concat(":");
                let body = head_all("  | ", &split_lines(content.as_str()));
                cmd(first.as_str()).args(&body)
            },
            Action::Append { path, content } => {
                let head = "append ".to_owned().concat(path.as_str()).concat(": ");
                let kept = trim_newlines(content.as_str());
                head_all(head.as_str(), &split_lines(kept.as_str()))
            },
        }
    }
}

impl Phase {
    pub fn new(name: &str, steps: Vec<Step>) -> (r: Self)
        ensures
            r@ == (PhaseModel { name: name@, steps: models(steps@) }),
    {
        Self { name: name.to_owned(), steps }
    }
}

/// Appends a step to a list.
pub fn add_step(v: &mut Vec<Step>, s: Step)
    ensures
        models(final(v)@) == models(old(v)@).push(s@),
{
    let ghost before = v@;
    v.push(s);
    assert(models(v@) =~= models(before).push(s@));
}

/// Appends all the steps of `more` to a list.
pub fn add_steps(v: &mut Vec<Step>, more: Vec<Step>)
    ensures
        models(final(v)@) == models(old(v)@) + models(more@),
{
    let ghost before = v@;
    let mut m = more;
    v.append(&mut m);
    assert(models(v@) =~= models(before) + models(more@));
}

/// An empty list of steps.
pub fn no_steps() -> (r: Vec<Step>)
    ensures
        models(r@) == Seq::<StepModel>::empty(),
{
    let v: Vec<Step> = Vec::new();
    assert(models(v@) =~= Seq::<StepModel>::empty());
    v
}

/// A list of one step.
pub fn one_step(s: Step) -> (r: Vec<Step>)
    ensures
        models(r@) == seq![s@],
{
    let mut v = no_steps();
    add_step(&mut v, s);
    v
}

/// Appends a phase to a plan.
pub fn add_phase(v: &mut Vec<Phase>, p: Phase)
    ensures
        phases(final(v)@) == phases(old(v)@).push(p@),
{
    let ghost before = v@;
    v.push(p);
    assert(phases(v@) =~= phases(before).push(p@));
}

/// A plan of one phase.
pub fn one_phase(p: Phase) -> (r: Vec<Phase>)
    ensures
        phases(r@) == seq![p@],
{
    let mut v: Vec<Phase> = Vec::new();
    assert(phases(v@) =~= Seq::<PhaseModel>::empty());
    add_phase(&mut v, p);
    v
}

/// The steps that `f` gives for each disk, in the order of the disks.
pub open spec fn each(disks: Seq<Seq<char>>, f: spec_fn(Seq<char>) -> Seq<StepModel>) -> Seq<
    StepModel,
>
    decreases disks.len(),
{
    if disks.len() == 0 {
        Seq::empty()
    } else {
        each(disks.drop_last(), f) + f(disks.last())
    }
}

/// Collects the steps that `f` gives for each disk. `g` says what those are.
pub(crate) fn each_disk<F: Fn(&str) -> Vec<Step>>(
    disks: &Vec<String>,
    f: F,
    Ghost(g): Ghost<spec_fn(Seq<char>) -> Seq<StepModel>>,
) -> (r: Vec<Step>)
    requires
        forall|d: &str| #[trigger] call_requires(f, (d,)),
        forall|d: &str, s: Vec<Step>| #[trigger] call_ensures(f, (d,), s) ==> models(s@) == g(d@),
    ensures
        models(r@) == each(texts(disks@), g),
{
    let ghost all = texts(disks@);
    let mut out = no_steps();
    let mut i: usize = 0;
    while i < disks.len()
        invariant
            i <= disks.len(),
            all == texts(disks@),
            forall|d: &str| #[trigger] call_requires(f, (d,)),
            forall|d: &str, s: Vec<Step>| #[trigger] call_ensures(f, (d,), s) ==> models(s@) == g(
                d@,
            ),
            models(out@) == each(all.take(i as int), g),
        decreases disks.len() - i,
    {
        assert(all.take(i + 1).drop_last() =~= all.take(i as int));
        add_steps(&mut out, f(disks[i].as_str()));
        i += 1;
    }
    assert(all.take(all.len() as int) =~= all);
    out
}

// --------------------------------------------------------------------- plans

/// Whether any step of the plan needs the password.
pub open spec fn plan_is_secret(plan: Seq<PhaseModel>) -> bool {
    exists|p: int, s: int|
        0 <= p < plan.len() && 0 <= s < plan[p].steps.len()
            && #[trigger] plan[p].steps[s].is_secret()
}

/// Whether any step of the plan needs the encryption password.
pub fn needs_password(plan: &[Phase]) -> (r: bool)
    ensures
        r == plan_is_secret(phases(plan@)),
{
    let ghost m = phases(plan@);
    let mut p: usize = 0;
    while p < plan.len()
        invariant
            p <= plan.len(),
            m == phases(plan@),
            forall|i: int, j: int|
                0 <= i < p && 0 <= j < m[i].steps.len() ==> !#[trigger] m[i].steps[j].is_secret(),
        decreases plan.len() - p,
    {
        let steps = &plan[p].steps;
        let mut s: usize = 0;
        while s < steps.len()
            invariant
                p < plan.len(),
                s <= steps.len(),
                m == phases(plan@),
                steps@ == plan@[p as int].steps@,
                forall|j: int| 0 <= j < s ==> !#[trigger] m[p as int].steps[j].is_secret(),
            decreases steps.len() - s,
        {
            assert(m[p as int].steps[s as int] == steps@[s as int]@);
            if steps[s].is_secret() {
                return true;
            }
            s += 1;
        }
        p += 1;
    }
    false
}

/// The lines printed of one step: its note, then what it does.
pub open spec fn step_lines(m: StepModel) -> Seq<Seq<char>> {
    seq!["  # "@ + m.note] + headed("  "@, m.description())
}

/// The lines printed of a list of steps.
pub open spec fn steps_lines(v: Seq<StepModel>) -> Seq<Seq<char>>
    decreases v.len(),
{
    if v.len() == 0 {
        Seq::empty()
    } else {
        steps_lines(v.drop_last()) + step_lines(v.last())
    }
}

/// The lines printed of a phase: a heading, its steps, and a blank line.
pub open spec fn phase_lines(p: PhaseModel) -> Seq<Seq<char>> {
    let heading = seq!["=== phase: "@ + p.name + " ==="@];
    let opened = if p.steps.len() == 0 {
        heading.push("  (no steps)"@)
    } else {
        heading
    };
    (opened + steps_lines(p.steps)).push(""@)
}

/// The lines printed of a plan.
pub open spec fn all_lines(plan: Seq<PhaseModel>) -> Seq<Seq<char>>
    decreases plan.len(),
{
    if plan.len() == 0 {
        Seq::empty()
    } else {
        all_lines(plan.drop_last()) + phase_lines(plan.last())
    }
}

fn lines_of_steps(steps: &Vec<Step>) -> (r: Vec<String>)
    ensures
        texts(r@) == steps_lines(models(steps@)),
{
    let ghost m = models(steps@);
    let mut out: Vec<String> = Vec::new();
    assert(texts(out@) =~= Seq::<Seq<char>>::empty());
    let mut i: usize = 0;
    while i < steps.len()
        invariant
            i <= steps.len(),
            m == models(steps@),
            texts(out@) == steps_lines(m.take(i as int)),
        decreases steps.len() - i,
    {
        assert(m.take(i + 1).drop_last() =~= m.take(i as int));
        let note = "  # ".to_owned().concat(steps[i].note.as_str());
        let body = head_all("  ", &steps[i].describe());
        let block = cmd(note.as_str()).args(&body);
        push_texts(&mut out, &block);
        i += 1;
    }
    assert(m.take(m.len() as int) =~= m);
    out
}

/// The lines that show every phase and its actions.
pub fn plan_lines(plan: &[Phase]) -> (r: Vec<String>)
    ensures
        texts(r@) == all_lines(phases(plan@)),
{
    let ghost m = phases(plan@);
    let mut out: Vec<String> = Vec::new();
    assert(texts(out@) =~= Seq::<Seq<char>>::empty());
    let mut i: usize = 0;
    while i < plan.len()
        invariant
            i <= plan.len(),
            m == phases(plan@),
            texts(out@) == all_lines(m.take(i as int)),
        decreases plan.len() - i,
    {
        assert(m.take(i + 1).drop_last() =~= m.take(i as int));
        let phase = &plan[i];
        let mut block = cmd(
            "=== phase: ".to_owned().concat(phase.name.as_str()).concat(" ===").as_str(),
        );
        if phase.steps.len() == 0 {
            push_text(&mut block, "  (no steps)");
        }
        push_texts(&mut block, &lines_of_steps(&phase.steps));
        push_text(&mut block, "");
        push_texts(&mut out, &block);
        i += 1;
    }
    assert(m.take(m.len() as int) =~= m);
    out
}

// ----------------------------------------------------------------- execution

/// Why a step could not be carried out.
pub enum StepError {
    /// The command needs the password and none was provided.
    NoPassword,
    /// The command, shown by its words, failed.
    Failed(String),
}

impl StepError {
    /// What is printed of the error.
    pub open spec fn text(self) -> Seq<char> {
        match self {
            StepError::NoPassword => "a password is required but none was provided"@,
            StepError::Failed(words) => "command failed: "@ + words@,
        }
    }

    /// What is printed of the error.
    pub fn message(&self) -> (r: String)
        ensures
            r@ == self.text(),
    {
        match self {
            StepError::NoPassword => "a password is required but none was provided".to_owned(),
            StepError::Failed(words) => "command failed: ".to_owned().concat(words.as_str()),
        }
    }
}

/// The words that start the command: in the target's chroot, or as they stand.
pub open spec fn started(r: RunModel) -> Seq<Seq<char>> {
    if r.chroot {
        seq!["chroot"@, "/mnt"@] + r.argv
    } else {
        r.argv
    }
}

proof fn joined_behind(a: Seq<Seq<char>>, b: Seq<Seq<char>>, sep: Seq<char>)
    requires
        a.len() > 0,
        b.len() > 0,
    ensures
        joined(a + b, sep) == joined(a, sep) + sep + joined(b, sep),
    decreases b.len(),
{
    let all = a + b;
    assert(all.last() == b.last());
    if b.len() == 1 {
        assert(all.drop_last() =~= a);
    } else {
        joined_behind(a, b.drop_last(), sep);
        assert(all.drop_last() =~= a + b.drop_last());
        assert(joined(a, sep) + sep + joined(b.drop_last(), sep) + sep + b.last() =~= joined(a, sep)
            + sep + (joined(b.drop_last(), sep) + sep + b.last()));
    }
}

/// What a dry run shows of a command are the very words that start it, behind the
/// masked password where one is fed to it, and before the remark where its failure is
/// ignored.
pub proof fn a_dry_run_shows_what_runs(r: RunModel)
    requires
        r.argv.len() > 0,
    ensures
        shown_command(r) == (if r.secret_stdin {
            "echo "@ + r.secret_prefix + "<password> | "@
        } else {
            Seq::empty()
        }) + joined(started(r), " "@) + (if r.best_effort {
            "    # best-effort"@
        } else {
            Seq::empty()
        }),
{
    let fed = if r.secret_stdin {
        "echo "@ + r.secret_prefix + "<password> | "@
    } else {
        Seq::empty()
    };
    let words = joined(r.argv, " "@);
    if r.chroot {
        let inside = seq!["chroot"@, "/mnt"@];
        joined_behind(inside, r.argv, " "@);
        assert(inside.drop_last() =~= seq!["chroot"@]);
        reveal_strlit("chroot");
        reveal_strlit(" ");
        reveal_strlit("/mnt");
        reveal_strlit("chroot /mnt ");
        assert(joined(seq!["chroot"@], " "@) == "chroot"@);
        assert(joined(inside, " "@) == "chroot"@ + " "@ + "/mnt"@);
        assert("chroot"@ + " "@ + "/mnt"@ + " "@ =~= "chroot /mnt "@);
        assert(fed + "chroot /mnt "@ + words =~= fed + ("chroot /mnt "@ + words));
    }
    assert(fed + joined(started(r), " "@) + Seq::<char>::empty() =~= fed + joined(
        started(r),
        " "@,
    ));
}

/// What the command reads on stdin, where anything is fed to it.
pub open spec fn fed(r: RunModel, password: Seq<char>) -> Option<Seq<char>> {
    if r.secret_stdin {
        Some(r.secret_prefix + password)
    } else {
        None
    }
}

/// The words that start the command.
pub fn command_line(r: &RunSpec) -> (words: Vec<String>)
    ensures
        texts(words@) == started(r@),
{
    if r.chroot {
        cmd("chroot").arg("/mnt").args(&r.argv)
    } else {
        let words = copy_texts(&r.argv);
        words
    }
}

/// What to feed the command on stdin: nothing, or the prefix and the password.
pub fn stdin_data(r: &RunSpec, password: Option<&str>) -> (res: Result<Option<String>, StepError>)
    ensures
        res is Err <==> r.secret_stdin && password is None,
        res is Err ==> res->Err_0 is NoPassword,
        res is Ok && !r.secret_stdin ==> res->Ok_0 is None,
        res is Ok && r.secret_stdin ==> res->Ok_0 is Some && Some(res->Ok_0->0@) == fed(
            r@,
            password->0@,
        ),
{
    if !r.secret_stdin {
        return Ok(None);
    }
    match password {
        Some(p) => Ok(Some(r.secret_prefix.clone().concat(p))),
        None => Err(StepError::NoPassword),
    }
}

/// What a finished command means for the plan: a failure stops it, unless the
/// command was only worth trying.
pub fn check(ok: bool, r: &RunSpec) -> (res: Result<(), StepError>)
    ensures
        res is Ok <==> ok || r.best_effort,
        res is Err ==> res->Err_0 is Failed && res->Err_0->Failed_0@ == joined(r@.argv, " "@),
{
    if ok || r.best_effort {
        Ok(())
    } else {
        Err(StepError::Failed(join(&r.argv, " ")))
    }
}

/// One thing that happens when a plan is carried out.
#[derive(Clone, Copy, PartialEq, Eq, Structural, Debug)]
pub enum PlanEvent {
    /// The phase at this position begins.
    Enter(usize),
    /// The step at this position in its phase is already applied.
    Skip(usize, usize),
    /// The step at this position in its phase runs.
    Run(usize, usize),
}

/// Whether step `s` of phase `p` comes before the cursor.
pub open spec fn before(p: int, s: int, start: (usize, usize)) -> bool {
    p < start.0 || (p == start.0 && s < start.1)
}

/// What happens to step `s` of phase `p`.
pub open spec fn step_event(p: int, s: int, start: (usize, usize)) -> PlanEvent {
    if before(p, s, start) {
        PlanEvent::Skip(p as usize, s as usize)
    } else {
        PlanEvent::Run(p as usize, s as usize)
    }
}

/// What happens in phase `p` of `n` steps.
pub open spec fn phase_events(p: int, n: nat, start: (usize, usize)) -> Seq<PlanEvent> {
    seq![PlanEvent::Enter(p as usize)] + Seq::new(n, |s: int| step_event(p, s, start))
}

/// What happens in a plan, carried out from the cursor `start`.
pub open spec fn plan_events(plan: Seq<PhaseModel>, start: (usize, usize)) -> Seq<PlanEvent>
    decreases plan.len(),
{
    if plan.len() == 0 {
        Seq::empty()
    } else {
        plan_events(plan.drop_last(), start) + phase_events(
            plan.len() - 1,
            plan.last().steps.len(),
            start,
        )
    }
}

/// The events of carrying out a plan, in order. `start` is the cursor of the first
/// step to run; everything before it is skipped as already applied.
pub fn schedule(plan: &[Phase], start: (usize, usize)) -> (r: Vec<PlanEvent>)
    ensures
        r@ == plan_events(phases(plan@), start),
{
    let ghost m = phases(plan@);
    let mut out: Vec<PlanEvent> = Vec::new();
    let mut p: usize = 0;
    while p < plan.len()
        invariant
            p <= plan.len(),
            m == phases(plan@),
            out@ == plan_events(m.take(p as int), start),
        decreases plan.len() - p,
    {
        let ghost done = out@;
        let n: usize = plan[p].steps.len();
        out.push(PlanEvent::Enter(p));
        let mut s: usize = 0;
        while s < n
            invariant
                s <= n,
                out@ =~= done.push(PlanEvent::Enter(p)) + Seq::new(
                    s as nat,
                    |s: int| step_event(p as int, s, start),
                ),
            decreases n - s,
        {
            if p < start.0 || (p == start.0 && s < start.1) {
                out.push(PlanEvent::Skip(p, s));
            } else {
                out.push(PlanEvent::Run(p, s));
            }
            s += 1;
        }
        proof {
            assert(m.take(p + 1).drop_last() =~= m.take(p as int));
            assert(m[p as int].steps.len() == n);
            assert(out@ =~= done + phase_events(p as int, n as nat, start));
        }
        p += 1;
    }
    assert(m.take(m.len() as int) =~= m);
    out
}

/// Whether the plan has a step `s` in a phase `p`.
pub open spec fn has_step(plan: Seq<PhaseModel>, p: int, s: int) -> bool {
    0 <= p < plan.len() && 0 <= s < plan[p].steps.len()
}

/// Where a plan that runs from `start` runs a step: it is a step of the plan, and
/// it does not come before the cursor. A resumed plan never repeats a completed step.
pub proof fn only_remaining_steps_run(plan: Seq<PhaseModel>, start: (usize, usize), i: int)
    requires
        plan.len() <= usize::MAX,
        forall|p: int| 0 <= p < plan.len() ==> (#[trigger] plan[p]).steps.len() <= usize::MAX,
        0 <= i < plan_events(plan, start).len(),
        plan_events(plan, start)[i] is Run,
    ensures
        has_step(
            plan,
            plan_events(plan, start)[i]->Run_0 as int,
            plan_events(plan, start)[i]->Run_1 as int,
        ),
        !before(
            plan_events(plan, start)[i]->Run_0 as int,
            plan_events(plan, start)[i]->Run_1 as int,
            start,
        ),
    decreases plan.len(),
{
    let rest = plan.drop_last();
    let n = plan_events(rest, start).len();
    if i < n {
        assert forall|p: int| 0 <= p < rest.len() implies (#[trigger] rest[p]).steps.len()
            <= usize::MAX by {
            assert(rest[p] == plan[p]);
        }
        only_remaining_steps_run(rest, start, i);
    } else {
        let tail = phase_events(plan.len() - 1, plan.last().steps.len(), start);
        assert(plan_events(plan, start)[i] == tail[i - n]);
        assert(plan.last() == plan[plan.len() - 1]);
    }
}

/// Every step that does not come before the cursor runs.
pub proof fn every_remaining_step_runs(
    plan: Seq<PhaseModel>,
    start: (usize, usize),
    p: int,
    s: int,
)
    requires
        has_step(plan, p, s),
        !before(p, s, start),
    ensures
        plan_events(plan, start).contains(PlanEvent::Run(p as usize, s as usize)),
    decreases plan.len(),
{
    let rest = plan.drop_last();
    let head = plan_events(rest, start);
    let tail = phase_events(plan.len() - 1, plan.last().steps.len(), start);
    let want = PlanEvent::Run(p as usize, s as usize);
    if p < plan.len() - 1 {
        every_remaining_step_runs(rest, start, p, s);
        let k = choose|k: int| 0 <= k < head.len() && head[k] == want;
        assert((head + tail)[k] == want);
    } else {
        assert(tail[s + 1] == step_event(p, s, start));
        assert((head + tail)[head.len() + s + 1] == want);
    }
}

/// The steps that run, run in the order of the plan, each of them once.
pub proof fn steps_run_in_order(plan: Seq<PhaseModel>, start: (usize, usize), i: int, j: int)
    requires
        plan.len() <= usize::MAX,
        forall|p: int| 0 <= p < plan.len() ==> (#[trigger] plan[p]).steps.len() <= usize::MAX,
        0 <= i < j < plan_events(plan, start).len(),
        plan_events(plan, start)[i] is Run,
        plan_events(plan, start)[j] is Run,
    ensures
        before(
            plan_events(plan, start)[i]->Run_0 as int,
            plan_events(plan, start)[i]->Run_1 as int,
            (plan_events(plan, start)[j]->Run_0, plan_events(plan, start)[j]->Run_1),
        ),
    decreases plan.len(),
{
    let rest = plan.drop_last();
    let n = plan_events(rest, start).len();
    let tail = phase_events(plan.len() - 1, plan.last().steps.len(), start);
    assert forall|p: int| 0 <= p < rest.len() implies (#[trigger] rest[p]).steps.len()
        <= usize::MAX by {
        assert(rest[p] == plan[p]);
    }
    assert(plan.last() == plan[plan.len() - 1]);
    if j < n {
        steps_run_in_order(rest, start, i, j);
    } else {
        assert(plan_events(plan, start)[j] == tail[j - n]);
        if i < n {
            only_remaining_steps_run(rest, start, i);
        } else {
            assert(plan_events(plan, start)[i] == tail[i - n]);
        }
    }
}

/// The cursor past a finished step covers that step and all the steps before it,
/// and no others.
pub proof fn cursor_past_a_step_covers_it(p: int, s: int, done: (usize, usize))
    requires
        done.1 < usize::MAX,
    ensures
        before(p, s, (done.0, (done.1 + 1) as usize)) <==> before(p, s, done) || (p == done.0 && s
            == done.1),
{
}

/// A command of the target is started through a chroot, any other as it is. The password
/// is fed to the commands that are to get it, behind the prefix that they ask for.
pub proof fn what_a_command_is_started_with(r: RunModel, password: Seq<char>)
    ensures
        !r.chroot ==> started(r) == r.argv,
        r.chroot ==> started(r).len() == r.argv.len() + 2 && started(r)[0] == "chroot"@ && started(
            r,
        )[1] == "/mnt"@ && started(r).skip(2) == r.argv,
        !r.secret_stdin ==> fed(r, password) is None,
        r.secret_stdin ==> fed(r, password) == Some(r.secret_prefix + password),
{
    if r.chroot {
        assert(started(r).skip(2) =~= r.argv);
    }
}

/// What is shown of a step never depends on the password: a command that is fed one shows
/// a mask in its place.
pub proof fn a_dry_run_masks_the_password(r: RunModel)
    requires
        r.secret_stdin,
    ensures
        has_prefix(shown_command(r), "echo "@ + r.secret_prefix + "<password> | "@),
{
    let head = "echo "@ + r.secret_prefix + "<password> | "@;
    let t = shown_command(r);
    assert(t.take(head.len() as int) =~= head);
}

} // verus!
