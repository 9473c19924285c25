//! The launch state machine.
//!
//! One startup run resolves the script once, then tries the interpreter
//! candidates in order until a spawn succeeds, logging every step.  The
//! machine here makes all the decisions; the caller performs each requested
//! spawn and feeds the outcome back in.  A ghost model gives the whole
//! transition system as spec functions, every executable step is proved to
//! follow it exactly, and the run-level laws — no spawn without a script,
//! stop at the first success, one failure line per failed candidate plus a
//! final exhaustion line — are proved of the model.

use vstd::prelude::*;
use crate::log_format::{
    exhausted_line,
    exhausted_line_text,
    failure_line,
    failure_line_text,
    resolved_line,
    resolved_line_text,
    skip_line,
    skip_line_text,
    success_line,
    success_line_text,
};

verus! {

/// The phase a launch run is in.
#[derive(Clone, Copy, PartialEq, Eq, Structural, Debug)]
pub enum LaunchStatus {
    /// A script was resolved and an interpreter candidate is waiting to be
    /// tried.
    Searching,
    /// No candidate script exists on disk; nothing was or will be spawned.
    NotFound,
    /// A spawn succeeded; holds the child's process id.
    Started(u32),
    /// Every interpreter candidate failed to spawn.
    Exhausted,
}

/// The launch run, as the proofs see it.
pub ghost struct LaunchModel {
    /// The resolved script path, or nothing when no candidate existed.
    pub script: Option<Seq<char>>,
    /// The interpreter candidates, in the order they are tried.
    pub interpreters: Seq<Seq<char>>,
    /// How many spawn attempts have been made.
    pub attempted: int,
    /// The phase the run is in.
    pub status: LaunchStatus,
    /// Every log line of the run so far, in order.
    pub log: Seq<Seq<char>>,
}

/// The state a run starts in.  Without a script the run is over before any
/// spawn, with the single skip line in the log; with a script the resolved
/// path is logged and the search begins — or is already exhausted when
/// there is no candidate to try.
pub open spec fn model_init(script: Option<Seq<char>>, interpreters: Seq<Seq<char>>) -> LaunchModel {
    match script {
        None => LaunchModel {
            script: None,
            interpreters: interpreters,
            attempted: 0,
            status: LaunchStatus::NotFound,
            log: seq![skip_line()],
        },
        Some(path) => if interpreters.len() == 0 {
            LaunchModel {
                script: Some(path),
                interpreters: interpreters,
                attempted: 0,
                status: LaunchStatus::Exhausted,
                log: seq![resolved_line(path), exhausted_line()],
            }
        } else {
            LaunchModel {
                script: Some(path),
                interpreters: interpreters,
                attempted: 0,
                status: LaunchStatus::Searching,
                log: seq![resolved_line(path)],
            }
        },
    }
}

/// One spawn outcome applied to a searching run: success logs the child's
/// process id and ends the run; failure logs the candidate's error and
/// moves on, appending the final exhaustion line when it was the last
/// candidate.
pub open spec fn model_step(m: LaunchModel, outcome: Result<u32, Seq<char>>) -> LaunchModel {
    match outcome {
        Ok(pid) => LaunchModel {
            script: m.script,
            interpreters: m.interpreters,
            attempted: m.attempted + 1,
            status: LaunchStatus::Started(pid),
            log: m.log + seq![success_line(m.interpreters[m.attempted], pid)],
        },
        Err(error) => if m.attempted + 1 == m.interpreters.len() {
            LaunchModel {
                script: m.script,
                interpreters: m.interpreters,
                attempted: m.attempted + 1,
                status: LaunchStatus::Exhausted,
                log: m.log + seq![failure_line(m.interpreters[m.attempted], error), exhausted_line()],
            }
        } else {
            LaunchModel {
                script: m.script,
                interpreters: m.interpreters,
                attempted: m.attempted + 1,
                status: LaunchStatus::Searching,
                log: m.log + seq![failure_line(m.interpreters[m.attempted], error)],
            }
        },
    }
}

/// The spawn outcome as the model sees it: the process id on success, the
/// error text on failure.
pub open spec fn outcome_view(outcome: Result<u32, String>) -> Result<u32, Seq<char>> {
    match outcome {
        Ok(pid) => Ok(pid),
        Err(error) => Err(error@),
    }
}

/// Drives one launch run.  Construct it with the resolved script (if any)
/// and the interpreter candidates, then repeat: while `next_request`
/// returns a candidate, attempt that spawn and report the outcome through
/// `on_spawn_result`.  Both report the log lines to append; `status` says
/// how the run ended.
pub struct Orchestrator {
    script: Option<String>,
    interpreters: Vec<String>,
    attempted: usize,
    status: LaunchStatus,
    log: Vec<String>,
}

/// The interpreter and script of one requested spawn attempt.
pub struct SpawnRequest {
    pub interpreter: String,
    pub script: String,
}

impl View for Orchestrator {
    type V = LaunchModel;

    closed spec fn view(&self) -> LaunchModel {
        LaunchModel {
            script: self.script.deep_view(),
            interpreters: self.interpreters.deep_view(),
            attempted: self.attempted as int,
            status: self.status,
            log: self.log.deep_view(),
        }
    }
}

fn clone_lines(v: &Vec<String>) -> (r: Vec<String>)
    ensures
        r.deep_view() == v.deep_view(),
{
    let mut r: Vec<String> = Vec::new();
    let mut i: usize = 0;
    while i < v.len()
        invariant
            i <= v@.len(),
            r@.len() == i,
            forall|j: int| 0 <= j < i ==> r.deep_view()[j] == v.deep_view()[j],
        decreases v@.len() - i,
    {
        r.push(v[i].clone());
        i += 1;
    }
    proof {
        assert(r.deep_view() =~= v.deep_view());
    }
    r
}

impl Orchestrator {
    /// The state is consistent: a searching run has a script and a
    /// candidate left to try.
    pub closed spec fn inv(&self) -> bool {
        &&& self@.attempted <= self@.interpreters.len()
        &&& (self@.status is Searching ==> self@.script is Some && self@.attempted
            < self@.interpreters.len())
    }

    /// How the run stands.
    pub fn status(&self) -> (r: LaunchStatus)
        ensures
            r == self@.status,
    {
        self.status
    }

    /// Every log line of the run so far, in order.
    pub fn log_lines(&self) -> (r: &Vec<String>)
        ensures
            r.deep_view() == self@.log,
    {
        &self.log
    }

    /// Starts a run from the Script Locator's existence-filtered result and
    /// the interpreter candidates.  Also returns the initial log lines.
    pub fn new(script: Option<String>, interpreters: Vec<String>) -> (r: (Self, Vec<String>))
        ensures
            r.0.inv(),
            r.0@ == model_init(script.deep_view(), interpreters.deep_view()),
            r.1.deep_view() == r.0@.log,
    {
        let mut log: Vec<String> = Vec::new();
        let status: LaunchStatus;
        match &script {
            None => {
                log.push(skip_line_text());
                status = LaunchStatus::NotFound;
            },
            Some(path) => {
                log.push(resolved_line_text(path.as_str()));
                if interpreters.len() == 0 {
                    log.push(exhausted_line_text());
                    status = LaunchStatus::Exhausted;
                } else {
                    status = LaunchStatus::Searching;
                }
            },
        }
        let lines = clone_lines(&log);
        let machine = Orchestrator { script, interpreters, attempted: 0, status, log };
        proof {
            assert(machine@.log =~= model_init(
                machine@.script,
                machine@.interpreters,
            ).log);
        }
        (machine, lines)
    }

    /// The next spawn to attempt: the current interpreter candidate with
    /// the resolved script, or nothing once the run is over.  A run that
    /// never found a script never requests a spawn.
    pub fn next_request(&self) -> (r: Option<SpawnRequest>)
        requires
            self.inv(),
        ensures
            match r {
                Some(req) => self@.status is Searching && req.interpreter@
                    == self@.interpreters[self@.attempted] && Some(req.script@) == self@.script,
                None => !(self@.status is Searching),
            },
    {
        match self.status {
            LaunchStatus::Searching => {
                let interpreter = self.interpreters[self.attempted].clone();
                let script = match &self.script {
                    Some(path) => path.clone(),
                    None => {
                        proof {
                            assert(false);
                        }
                        String::new()
                    },
                };
                proof {
                    assert(self.interpreters.deep_view()[self.attempted as int]
                        == self.interpreters@[self.attempted as int]@);
                }
                Some(SpawnRequest { interpreter, script })
            },
            _ => None,
        }
    }

    /// Applies the outcome of the requested spawn attempt and returns the
    /// log lines it produced.
    pub fn on_spawn_result(&mut self, outcome: Result<u32, String>) -> (lines: Vec<String>)
        requires
            old(self).inv(),
            old(self)@.status is Searching,
        ensures
            final(self).inv(),
            final(self)@ == model_step(old(self)@, outcome_view(outcome)),
            final(self)@.log == old(self)@.log + lines.deep_view(),
    {
        let ghost pre = self@;
        let total = self.interpreters.len();
        proof {
            assert(pre.interpreters.len() == self.interpreters@.len());
            assert((self.attempted as int) < total as int);
        }
        let interpreter = self.interpreters[self.attempted].clone();
        proof {
            assert(self.interpreters.deep_view()[self.attempted as int]
                == self.interpreters@[self.attempted as int]@);
        }
        let mut lines: Vec<String> = Vec::new();
        match &outcome {
            Ok(pid) => {
                lines.push(success_line_text(interpreter.as_str(), *pid));
                self.status = LaunchStatus::Started(*pid);
            },
            Err(error) => {
                lines.push(failure_line_text(interpreter.as_str(), error.as_str()));
                if self.attempted + 1 == total {
                    lines.push(exhausted_line_text());
                    self.status = LaunchStatus::Exhausted;
                } else {
                    self.status = LaunchStatus::Searching;
                }
            },
        }
        self.attempted = self.attempted + 1;
        let mut i: usize = 0;
        let n = lines.len();
        while i < n
            invariant
                n == lines@.len(),
                i <= n,
                self@.log.len() == pre.log.len() + i,
                forall|j: int| 0 <= j < pre.log.len() ==> self@.log[j] == pre.log[j],
                forall|j: int|
                    0 <= j < i ==> self@.log[pre.log.len() + j] == lines.deep_view()[j],
                self@.script == pre.script,
                self@.interpreters == pre.interpreters,
                self@.attempted == pre.attempted + 1,
                self@.status == model_step(pre, outcome_view(outcome)).status,
            decreases n - i,
        {
            let line = lines[i].clone();
            self.log.push(line);
            i += 1;
        }
        proof {
            assert(self@.log =~= pre.log + lines.deep_view());
            assert(self@.log =~= model_step(pre, outcome_view(outcome)).log);
        }
        lines
    }
}

/// A searching run stepped with failures only, one per remaining event.
pub open spec fn run_failures(m: LaunchModel, errors: Seq<Seq<char>>) -> LaunchModel
    decreases errors.len(),
{
    if errors.len() == 0 {
        m
    } else {
        run_failures(model_step(m, Err(errors[0])), errors.drop_first())
    }
}

/// The failure lines for candidates `interpreters[from..]` with errors
/// `errors`, in order.
pub open spec fn failure_lines(
    interpreters: Seq<Seq<char>>,
    errors: Seq<Seq<char>>,
    from: int,
) -> Seq<Seq<char>> {
    Seq::new(errors.len(), |i: int| failure_line(interpreters[from + i], errors[i]))
}

/// Law: when no candidate script exists, the run is over before any spawn —
/// zero attempts, no spawn ever requested (the status never searches), and
/// the log is exactly the single skip line.
pub proof fn lemma_not_found_never_spawns(interpreters: Seq<Seq<char>>)
    ensures
        model_init(None, interpreters).status is NotFound,
        model_init(None, interpreters).attempted == 0,
        model_init(None, interpreters).log =~= seq![skip_line()],
{
}

/// Law: when the first candidate fails and the second succeeds, the run
/// logs exactly one failure line (the first candidate's), then one success
/// line with the child's process id, and ends started — no third candidate
/// is ever requested.
pub proof fn lemma_stops_at_first_success(
    script: Seq<char>,
    interpreters: Seq<Seq<char>>,
    error: Seq<char>,
    pid: u32,
)
    requires
        interpreters.len() >= 2,
    ensures
        ({
            let end = model_step(
                model_step(model_init(Some(script), interpreters), Err(error)),
                Ok(pid),
            );
            &&& end.status == LaunchStatus::Started(pid)
            &&& end.log =~= seq![
                resolved_line(script),
                failure_line(interpreters[0], error),
                success_line(interpreters[1], pid),
            ]
        }),
{
}

proof fn lemma_run_failures_exhausts(m: LaunchModel, errors: Seq<Seq<char>>)
    requires
        m.status is Searching,
        m.attempted + errors.len() == m.interpreters.len(),
        errors.len() > 0,
    ensures
        run_failures(m, errors).status is Exhausted,
        run_failures(m, errors).log =~= m.log + failure_lines(m.interpreters, errors, m.attempted)
            + seq![exhausted_line()],
    decreases errors.len(),
{
    let stepped = model_step(m, Err(errors[0]));
    if errors.len() == 1 {
        assert(run_failures(m, errors) == run_failures(stepped, errors.drop_first()));
        assert(run_failures(stepped, errors.drop_first()) == stepped);
        assert(stepped.log =~= m.log + failure_lines(m.interpreters, errors, m.attempted) + seq![
            exhausted_line(),
        ]);
    } else {
        lemma_run_failures_exhausts(stepped, errors.drop_first());
        assert(stepped.log =~= m.log + seq![failure_line(m.interpreters[m.attempted], errors[0])]);
        assert(failure_lines(m.interpreters, errors, m.attempted) =~= seq![
            failure_line(m.interpreters[m.attempted], errors[0]),
        ] + failure_lines(m.interpreters, errors.drop_first(), m.attempted + 1));
        assert(run_failures(m, errors).log =~= m.log + failure_lines(
            m.interpreters,
            errors,
            m.attempted,
        ) + seq![exhausted_line()]);
    }
}

/// Law: when every candidate fails, the run logs one failure line per
/// candidate, in order, then the single final exhaustion line, and ends
/// exhausted — it never raises an error, it just stops.
pub proof fn lemma_all_candidates_fail(
    script: Seq<char>,
    interpreters: Seq<Seq<char>>,
    errors: Seq<Seq<char>>,
)
    requires
        interpreters.len() > 0,
        errors.len() == interpreters.len(),
    ensures
        ({
            let end = run_failures(model_init(Some(script), interpreters), errors);
            &&& end.status is Exhausted
            &&& end.log =~= seq![resolved_line(script)] + failure_lines(interpreters, errors, 0)
                + seq![exhausted_line()]
        }),
{
    let start = model_init(Some(script), interpreters);
    lemma_run_failures_exhausts(start, errors);
    assert(run_failures(start, errors).log =~= seq![resolved_line(script)] + failure_lines(
        interpreters,
        errors,
        0,
    ) + seq![exhausted_line()]);
}

} // verus!
