//! How a deploy ended: the classified exit of the process, how long it ran,
//! and what it wrote.

use crate::capture::{lines_view, TimestampedLine, TimestampedLineView};
use vstd::prelude::*;

verus! {

/// How the operating system says a process ended: with an exit code, or
/// killed by a signal. A platform that knows neither reports neither.
#[derive(Clone, Copy, Debug, PartialEq, Eq)]
pub struct ExitReport {
    pub code: Option<i32>,
    pub signal: Option<i32>,
}

/// The four ways in which a process can have ended.
#[derive(Clone, Copy, PartialEq, Eq, Debug, Structural)]
pub enum ExitKind {
    /// It exited with code 0.
    Success,
    /// It exited with the given code, which is not 0.
    Failed(i32),
    /// It was killed by the given signal.
    Signaled(i32),
    /// Neither an exit code nor a signal is known.
    Unknown,
}

/// Classifies an exit. An exit code decides where there is one; a signal
/// counts only where there is no code.
pub open spec fn classify(report: ExitReport) -> ExitKind {
    match report.code {
        Some(code) => if code == 0 {
            ExitKind::Success
        } else {
            ExitKind::Failed(code)
        },
        None => match report.signal {
            Some(signal) => ExitKind::Signaled(signal),
            None => ExitKind::Unknown,
        },
    }
}

/// The result of one deploy.
#[derive(Debug, PartialEq, Eq)]
pub struct DeployOutcome {
    succeeded: bool,
    exit_code: Option<i32>,
    terminating_signal: Option<i32>,
    duration_seconds: i64,
    stdout_lines: Vec<TimestampedLine>,
    stderr_lines: Vec<TimestampedLine>,
}

/// The mathematical content of a [`DeployOutcome`].
pub struct DeployOutcomeView {
    pub succeeded: bool,
    pub exit_code: Option<i32>,
    pub terminating_signal: Option<i32>,
    pub duration_seconds: int,
    pub stdout_lines: Seq<TimestampedLineView>,
    pub stderr_lines: Seq<TimestampedLineView>,
}

impl DeployOutcomeView {
    /// What every outcome satisfies: it succeeded exactly when the exit code
    /// is 0, and an exit code and a signal are never both set.
    pub open spec fn consistent(self) -> bool {
        &&& self.succeeded <==> self.exit_code == Some(0i32)
        &&& !(self.exit_code is Some && self.terminating_signal is Some)
    }

    /// The way in which the process ended.
    pub open spec fn kind(self) -> ExitKind {
        classify(ExitReport { code: self.exit_code, signal: self.terminating_signal })
    }
}

/// The outcome of a process that ended as `exit` says after running for
/// `duration_seconds`, having written the given lines.
pub open spec fn outcome_of(
    exit: ExitReport,
    duration_seconds: int,
    stdout_lines: Seq<TimestampedLineView>,
    stderr_lines: Seq<TimestampedLineView>,
) -> DeployOutcomeView {
    DeployOutcomeView {
        succeeded: classify(exit) == ExitKind::Success,
        exit_code: exit.code,
        terminating_signal: if exit.code is Some {
            None
        } else {
            exit.signal
        },
        duration_seconds,
        stdout_lines,
        stderr_lines,
    }
}

/// Every classified outcome is consistent, and its kind is the kind of the
/// exit it was made from.
pub proof fn lemma_outcome_consistent(
    exit: ExitReport,
    duration_seconds: int,
    stdout_lines: Seq<TimestampedLineView>,
    stderr_lines: Seq<TimestampedLineView>,
)
    ensures
        outcome_of(exit, duration_seconds, stdout_lines, stderr_lines).consistent(),
        outcome_of(exit, duration_seconds, stdout_lines, stderr_lines).kind() == classify(exit),
{
}

/// The three ways of ending, and the anomaly: exit code 0 is the only
/// success; another exit code is a failure that keeps its code; a signal
/// without an exit code is a failure that keeps the signal; and an exit of
/// which nothing is known is a failure too.
pub proof fn lemma_exit_classification(
    exit: ExitReport,
    duration_seconds: int,
    stdout_lines: Seq<TimestampedLineView>,
    stderr_lines: Seq<TimestampedLineView>,
)
    ensures
        ({
            let outcome = outcome_of(exit, duration_seconds, stdout_lines, stderr_lines);
            &&& outcome.succeeded <==> exit.code == Some(0i32)
            &&& outcome.exit_code == exit.code
            &&& exit.code is Some ==> outcome.terminating_signal is None
            &&& exit.code is None ==> !outcome.succeeded && outcome.terminating_signal
                == exit.signal
            &&& outcome.stdout_lines == stdout_lines
            &&& outcome.stderr_lines == stderr_lines
            &&& outcome.duration_seconds == duration_seconds
        }),
{
}

impl View for DeployOutcome {
    type V = DeployOutcomeView;

    closed spec fn view(&self) -> DeployOutcomeView {
        DeployOutcomeView {
            succeeded: self.succeeded,
            exit_code: self.exit_code,
            terminating_signal: self.terminating_signal,
            duration_seconds: self.duration_seconds as int,
            stdout_lines: lines_view(self.stdout_lines@),
            stderr_lines: lines_view(self.stderr_lines@),
        }
    }
}

impl DeployOutcome {
    #[verifier::type_invariant]
    spec fn well_formed(self) -> bool {
        self@.consistent()
    }

    /// Assembles the outcome of a process that has exited and whose two
    /// output streams have been read to their end.
    pub fn new(
        exit: ExitReport,
        duration_seconds: i64,
        stdout_lines: Vec<TimestampedLine>,
        stderr_lines: Vec<TimestampedLine>,
    ) -> (outcome: DeployOutcome)
        ensures
            outcome@ == outcome_of(
                exit,
                duration_seconds as int,
                lines_view(stdout_lines@),
                lines_view(stderr_lines@),
            ),
            outcome@.consistent(),
    {
        let (succeeded, terminating_signal) = match exit.code {
            Some(code) => (code == 0, None),
            None => (false, exit.signal),
        };
        DeployOutcome {
            succeeded,
            exit_code: exit.code,
            terminating_signal,
            duration_seconds,
            stdout_lines,
            stderr_lines,
        }
    }

    /// Whether the process exited with code 0.
    pub fn succeeded(&self) -> (v: bool)
        ensures
            v == self@.succeeded,
            self@.consistent(),
    {
        proof {
            use_type_invariant(self);
        }
        self.succeeded
    }

    /// The exit code, where the process exited by itself.
    pub fn exit_code(&self) -> (v: Option<i32>)
        ensures
            v == self@.exit_code,
    {
        self.exit_code
    }

    /// The signal that killed the process, where one did.
    pub fn terminating_signal(&self) -> (v: Option<i32>)
        ensures
            v == self@.terminating_signal,
    {
        self.terminating_signal
    }

    /// Whole seconds from just before the process was started to just after
    /// it was found to have ended.
    pub fn duration_seconds(&self) -> (v: i64)
        ensures
            v == self@.duration_seconds,
    {
        self.duration_seconds
    }

    /// What the process wrote to its standard output, line by line.
    pub fn stdout_lines(&self) -> (lines: &Vec<TimestampedLine>)
        ensures
            lines_view(lines@) == self@.stdout_lines,
    {
        &self.stdout_lines
    }

    /// What the process wrote to its standard error, line by line.
    pub fn stderr_lines(&self) -> (lines: &Vec<TimestampedLine>)
        ensures
            lines_view(lines@) == self@.stderr_lines,
    {
        &self.stderr_lines
    }

    /// The way in which the process ended.
    pub fn kind(&self) -> (kind: ExitKind)
        ensures
            kind == self@.kind(),
            self@.consistent(),
    {
        proof {
            use_type_invariant(self);
        }
        match self.exit_code {
            Some(code) => if code == 0 {
                ExitKind::Success
            } else {
                ExitKind::Failed(code)
            },
            None => match self.terminating_signal {
                Some(signal) => ExitKind::Signaled(signal),
                None => ExitKind::Unknown,
            },
        }
    }
}

} // verus!
