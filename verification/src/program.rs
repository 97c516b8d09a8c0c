//! Running the wrapped program: resolving it before scheduling (so a typo
//! fails at once instead of after a long wait), when to start it, how to
//! supervise it, and what the run records and propagates.

use vstd::prelude::*;

use crate::decision::SchedulingDecision;
use crate::instant::{valid_duration, valid_instant};
use crate::run_report::RunReport;
use crate::text::{chars_of, push_char, push_str, views};
use vstd::string::StrSliceExecFns;
use vstd::string::StringExecFns;

verus! {

/// Why the program cannot be run.
#[derive(Debug, Clone, PartialEq, Eq)]
pub enum ProgramError {
    /// The command is empty.
    Empty,
    /// A path-like program that is not an executable file.
    NotExecutable(String),
    /// A bare name with no `PATH` to search.
    PathUnset(String),
    /// A bare name found in no `PATH` directory.
    NotFound(String),
}

/// The message of a program error.
pub open spec fn program_message(e: ProgramError) -> Seq<char> {
    match e {
        ProgramError::Empty => "empty command"@,
        ProgramError::NotExecutable(p) => "`"@ + p@ + "` is not an executable file"@,
        ProgramError::PathUnset(p) => "`"@ + p@
            + "` is not a path and PATH is unset, so it cannot be resolved"@,
        ProgramError::NotFound(p) => "`"@ + p@ + "` was not found on PATH"@,
    }
}

impl ProgramError {
    /// The message of this error.
    pub fn message(&self) -> (s: String)
        ensures
            s@ == program_message(*self),
    {
        match self {
            ProgramError::Empty => String::from_str("empty command"),
            ProgramError::NotExecutable(p) => {
                let mut s = String::from_str("`");
                push_str(&mut s, p.as_str());
                push_str(&mut s, "` is not an executable file");
                s
            },
            ProgramError::PathUnset(p) => {
                let mut s = String::from_str("`");
                push_str(&mut s, p.as_str());
                push_str(&mut s, "` is not a path and PATH is unset, so it cannot be resolved");
                s
            },
            ProgramError::NotFound(p) => {
                let mut s = String::from_str("`");
                push_str(&mut s, p.as_str());
                push_str(&mut s, "` was not found on PATH");
                s
            },
        }
    }
}

/// The `:`-separated fields of a `PATH` value (empty fields included).
pub open spec fn colon_fields(s: Seq<char>) -> Seq<Seq<char>>
    decreases s.len(),
{
    if s.len() == 0 {
        seq![Seq::empty()]
    } else {
        let f = colon_fields(s.drop_last());
        if s.last() == ':' {
            f.push(Seq::empty())
        } else {
            f.update(f.len() - 1, f.last().push(s.last()))
        }
    }
}

proof fn lemma_colon_fields_len(s: Seq<char>)
    ensures
        colon_fields(s).len() >= 1,
    decreases s.len(),
{
    if s.len() > 0 {
        lemma_colon_fields_len(s.drop_last());
    }
}

/// A directory joined with a relative name, as `Path::join` does: the name
/// alone under an empty directory, otherwise one `/` between them unless
/// the directory ends in one.
pub open spec fn joined_path(dir: Seq<char>, name: Seq<char>) -> Seq<char> {
    if dir.len() == 0 {
        name
    } else if dir.last() == '/' {
        dir + name
    } else {
        dir + seq!['/'] + name
    }
}

/// The non-empty `PATH` fields, in order.
pub open spec fn path_dirs(path: Seq<char>) -> Seq<Seq<char>> {
    colon_fields(path).filter(|d: Seq<char>| d.len() > 0)
}

/// The files searched for a bare program name, in order.
pub open spec fn search_candidates(program: Seq<char>, path: Seq<char>) -> Seq<Seq<char>> {
    path_dirs(path).map_values(|d: Seq<char>| joined_path(d, program))
}

/// Split a `PATH` value into its fields.
fn split_colons(path: &str) -> (fields: Vec<String>)
    ensures
        views(fields@) == colon_fields(path@),
{
    let cs = chars_of(path);
    let mut done: Vec<String> = Vec::new();
    let mut cur = String::new();
    let mut i: usize = 0;
    while i < cs.len()
        invariant
            i <= cs@.len(),
            cs@ == path@,
            views(done@).push(cur@) == colon_fields(cs@.take(i as int)),
        decreases cs@.len() - i,
    {
        let c = cs[i];
        let ghost f = colon_fields(cs@.take(i as int));
        proof {
            assert(cs@.take(i + 1).drop_last() =~= cs@.take(i as int));
            lemma_colon_fields_len(cs@.take(i as int));
        }
        if c == ':' {
            let finished = cur;
            done.push(finished);
            cur = String::new();
            assert(views(done@).push(cur@) =~= f.push(Seq::empty()));
        } else {
            let ghost before = views(done@);
            push_char(&mut cur, c);
            assert(views(done@).push(cur@) =~= f.update(f.len() - 1, f.last().push(c)));
        }
        i = i + 1;
    }
    assert(cs@.take(i as int) =~= cs@);
    done.push(cur);
    done
}

/// A directory joined with a file name.
pub(crate) fn join_path(dir: &str, name: &str) -> (p: String)
    ensures
        p@ == joined_path(dir@, name@),
{
    let cs = chars_of(dir);
    if cs.len() == 0 {
        return String::from_str(name);
    }
    let mut p = String::from_str(dir);
    if cs[cs.len() - 1] != '/' {
        push_char(&mut p, '/');
    }
    push_str(&mut p, name);
    assert(p@ =~= joined_path(dir@, name@));
    p
}

/// The files searched for a bare program name on `path`, in order.
pub fn candidates_on_path(program: &str, path: &str) -> (c: Vec<String>)
    ensures
        views(c@) == search_candidates(program@, path@),
{
    let fields = split_colons(path);
    let ghost fs = views(fields@);
    let mut c: Vec<String> = Vec::new();
    let mut i: usize = 0;
    while i < fields.len()
        invariant
            i <= fields@.len(),
            fs == views(fields@),
            c@.len() == fs.take(i as int).filter(|d: Seq<char>| d.len() > 0).len(),
            forall|j: int|
                0 <= j < c@.len() ==> (#[trigger] c@[j])@ == joined_path(
                    fs.take(i as int).filter(|d: Seq<char>| d.len() > 0)[j],
                    program@,
                ),
        decreases fields@.len() - i,
    {
        let ghost pred = |d: Seq<char>| d.len() > 0;
        proof {
            reveal_with_fuel(Seq::<_>::filter, 1);
            assert(fs.take(i + 1).drop_last() =~= fs.take(i as int));
            assert(fs[i as int] == fields@[i as int]@);
        }
        let nonempty = fields[i].as_str().unicode_len() > 0;
        if nonempty {
            let j = join_path(fields[i].as_str(), program);
            c.push(j);
        }
        proof {
            let prev = fs.take(i as int).filter(pred);
            let now = fs.take(i + 1).filter(pred);
            if nonempty {
                assert(now == prev.push(fs[i as int]));
            } else {
                assert(now == prev);
            }
        }
        i = i + 1;
    }
    assert(fs.take(i as int) =~= fs);
    assert(views(c@) =~= search_candidates(program@, path@));
    c
}

/// The program names a path (it contains `/`).
pub open spec fn path_like(program: Seq<char>) -> bool {
    program.contains('/')
}

fn contains_slash(program: &str) -> (b: bool)
    ensures
        b == path_like(program@),
{
    let cs = chars_of(program);
    let mut i: usize = 0;
    while i < cs.len()
        invariant
            i <= cs@.len(),
            cs@ == program@,
            forall|j: int| 0 <= j < i ==> cs@[j] != '/',
        decreases cs@.len() - i,
    {
        if cs[i] == '/' {
            assert(program@[i as int] == '/');
            return true;
        }
        i = i + 1;
    }
    false
}

/// The probe answered `answer` for some string slice holding `path`.
pub open spec fn probed<F: Fn(&str) -> bool>(probe: F, path: Seq<char>, answer: bool) -> bool {
    exists|c: &str| c@ == path && #[trigger] probe.ensures((c,), answer)
}

/// Check that `program` can be run: a path-like program must itself be an
/// executable file; a bare name must be one in some directory of
/// `path_env` (the `PATH` value), searched in order. `is_executable`
/// answers whether a path names a regular file with an execute bit.
pub fn resolve_program<F: Fn(&str) -> bool>(
    program: &str,
    path_env: Option<&str>,
    is_executable: F,
) -> (r: Result<(), ProgramError>)
    requires
        forall|p: &str| #[trigger] is_executable.requires((p,)),
    ensures
        program@.len() == 0 ==> r == Err::<(), ProgramError>(ProgramError::Empty),
        program@.len() > 0 && path_like(program@) ==> (match r {
            Ok(()) => is_executable.ensures((program,), true),
            Err(e) => e matches ProgramError::NotExecutable(p) && p@ == program@
                && is_executable.ensures((program,), false),
        }),
        program@.len() > 0 && !path_like(program@) && path_env is None ==> (r matches Err(
            ProgramError::PathUnset(p),
        ) && p@ == program@),
        program@.len() > 0 && !path_like(program@) && path_env is Some ==> (match r {
            Ok(()) => exists|k: int|
                0 <= k < search_candidates(program@, path_env->0@).len() && probed(
                    is_executable,
                    #[trigger] search_candidates(program@, path_env->0@)[k],
                    true,
                ),
            Err(e) => e matches ProgramError::NotFound(p) && p@ == program@ && forall|k: int|
                0 <= k < search_candidates(program@, path_env->0@).len() ==> probed(
                    is_executable,
                    #[trigger] search_candidates(program@, path_env->0@)[k],
                    false,
                ),
        }),
{
    if program.unicode_len() == 0 {
        return Err(ProgramError::Empty);
    }
    if contains_slash(program) {
        if is_executable(program) {
            return Ok(());
        } else {
            return Err(ProgramError::NotExecutable(String::from_str(program)));
        }
    }
    let path = match path_env {
        Some(p) => p,
        None => {
            return Err(ProgramError::PathUnset(String::from_str(program)));
        },
    };
    let cands = candidates_on_path(program, path);
    let ghost cs = search_candidates(program@, path@);
    let mut i: usize = 0;
    while i < cands.len()
        invariant
            i <= cands@.len(),
            views(cands@) == cs,
            program@.len() > 0,
            !path_like(program@),
            path_env == Some(path),
            cs == search_candidates(program@, path@),
            forall|p: &str| #[trigger] is_executable.requires((p,)),
            forall|k: int| 0 <= k < i ==> probed(is_executable, #[trigger] cs[k], false),
        decreases cands@.len() - i,
    {
        let c = cands[i].as_str();
        let ok = is_executable(c);
        assert(c@ == cs[i as int]);
        assert(probed(is_executable, cs[i as int], ok));
        if ok {
            assert(search_candidates(program@, path_env->0@)[i as int] == c@);
            assert(probed(is_executable, search_candidates(program@, path_env->0@)[i as int], true));
            return Ok(());
        }
        i = i + 1;
    }
    assert forall|k: int| 0 <= k < search_candidates(program@, path_env->0@).len() implies probed(
        is_executable,
        #[trigger] search_candidates(program@, path_env->0@)[k],
        false,
    ) by {
        assert(cs[k] == search_candidates(program@, path_env->0@)[k]);
    }
    let e = ProgramError::NotFound(String::from_str(program));
    Err(e)
}

/// The exit code `nami run` propagates: the child's own code, or, for a
/// child killed by a signal, 128 plus the signal number (0 if unknown).
pub open spec fn exit_code_spec(code: Option<i32>, signal: Option<i32>) -> int {
    match code {
        Some(c) => c as int,
        None => 128 + match signal {
            Some(s) => s as int,
            None => 0,
        },
    }
}

/// The exit code `nami run` propagates.
pub fn exit_code(code: Option<i32>, signal: Option<i32>) -> (c: i32)
    requires
        signal matches Some(s) ==> s <= i32::MAX - 128,
    ensures
        c == exit_code_spec(code, signal),
{
    match code {
        Some(c) => c,
        None => 128 + match signal {
            Some(s) => s,
            None => 0,
        },
    }
}

/// What the supervisor of a running child reacts to.
#[derive(Debug, Clone, Copy, PartialEq, Eq, Structural)]
pub enum SupervisorEvent {
    /// A terminating signal (its number) reached `nami`.
    Signal(i32),
    /// The grace period after the first forwarded signal ran out.
    GraceElapsed,
    /// The child exited.
    ChildExited,
}

/// What the supervisor does in response.
#[derive(Debug, Clone, Copy, PartialEq, Eq, Structural)]
pub enum SupervisorAction {
    /// Forward the signal to the child, and start the grace period when
    /// `start_grace`.
    Forward { signal: i32, start_grace: bool },
    /// Kill the child outright; the grace period is over.
    Kill,
    /// Stop supervising: the child is gone.
    Finish,
}

/// One step of supervising the child: given whether the grace period is
/// running, the event gives whether it runs afterwards and the action.
/// Every terminating signal is forwarded, and only the first one starts
/// the grace period; when it runs out the child is killed.
pub fn supervise_step(grace_running: bool, event: SupervisorEvent) -> (r: (bool, SupervisorAction))
    ensures
        r == match event {
            SupervisorEvent::Signal(s) => (
                true,
                SupervisorAction::Forward { signal: s, start_grace: !grace_running },
            ),
            SupervisorEvent::GraceElapsed => (false, SupervisorAction::Kill),
            SupervisorEvent::ChildExited => (grace_running, SupervisorAction::Finish),
        },
{
    match event {
        SupervisorEvent::Signal(s) => (true, SupervisorAction::Forward { signal: s, start_grace: !grace_running }),
        SupervisorEvent::GraceElapsed => (false, SupervisorAction::Kill),
        SupervisorEvent::ChildExited => (grace_running, SupervisorAction::Finish),
    }
}

/// When to start the program after the decision.
#[derive(Debug, Clone, Copy, PartialEq, Eq, Structural)]
pub enum Launch {
    /// Start it at this instant (now, for an immediate start).
    At(i128),
    /// Do not start it; exit with this code.
    Exit(i32),
}

/// A refusal starts nothing and exits with 1; an immediate start starts
/// at `now`; a deferral starts at its chosen time.
pub open spec fn launch_spec(d: SchedulingDecision, now: i128) -> Launch {
    match d {
        SchedulingDecision::Refuse { .. } => Launch::Exit(1),
        SchedulingDecision::StartImmediately { .. } => Launch::At(now),
        SchedulingDecision::StartAt { start_time, .. } => Launch::At(start_time),
    }
}

/// When to start the program after the decision.
pub fn launch(d: &SchedulingDecision, now: i128) -> (l: Launch)
    ensures
        l == launch_spec(*d, now),
{
    match d {
        SchedulingDecision::Refuse { .. } => Launch::Exit(1),
        SchedulingDecision::StartImmediately { .. } => Launch::At(now),
        SchedulingDecision::StartAt { start_time, .. } => Launch::At(*start_time),
    }
}

/// The warning a report carries when the wait was cancelled.
pub open spec fn cancelled_note() -> Seq<char> {
    "Schedule cancelled by SIGINT during the wait phase; the command was not started."@
}

/// Record that the wait for the start was cancelled: the report says the
/// command was not started, and `nami` exits with 0.
pub fn record_cancelled(report: &mut RunReport) -> (code: i32)
    ensures
        code == 0,
        views(final(report).warnings@) == views(old(report).warnings@).push(cancelled_note()),
        final(report).started_at == old(report).started_at,
        final(report).exit_code == old(report).exit_code,
        final(report).decision == old(report).decision,
{
    report.warnings.push(String::from_str("Schedule cancelled by SIGINT during the wait phase; the command was not started."));
    proof {
        assert(views(report.warnings@) =~= views(old(report).warnings@).push(cancelled_note()));
    }
    0
}

/// Record a finished run: when it started and finished, its wall time,
/// and the exit code propagated (which is returned).
pub fn record_outcome(
    report: &mut RunReport,
    started_at: i128,
    finished_at: i128,
    code: Option<i32>,
    signal: Option<i32>,
) -> (c: i32)
    requires
        valid_instant(started_at as int),
        valid_instant(finished_at as int),
        code is None ==> (signal matches Some(s) ==> s <= i32::MAX - 128),
    ensures
        c == exit_code_spec(code, signal),
        final(report).started_at == Some(started_at),
        final(report).finished_at == Some(finished_at),
        final(report).wall_duration == Some((finished_at - started_at) as i128),
        final(report).exit_code == Some(c),
        valid_duration(finished_at - started_at),
        final(report).warnings == old(report).warnings,
        final(report).decision == old(report).decision,
{
    let c = match code {
        Some(x) => x,
        None => exit_code(None, signal),
    };
    report.started_at = Some(started_at);
    report.finished_at = Some(finished_at);
    report.wall_duration = Some(finished_at - started_at);
    report.exit_code = Some(c);
    c
}

} // verus!
