//! The executor: a parsed [`PipelineSpec`] is realized as a graph of
//! operating-system processes by stepping an [`Execution`] state machine.
//!
//! The machine owns every decision — which file to open first, which stage to
//! spawn next and with which standard-stream bindings, whether to wait — and
//! an unverified interpreter owns the system calls: it performs the current
//! [`Action`] and reports what happened as an [`Event`]. The contracts pin
//! down the whole transition relation: redirection files are opened before
//! any stage is spawned, stages are spawned strictly left to right with pipe
//! wiring between neighbours, a background pipeline is never waited on, and
//! the foreground status reported is the last stage's.

use vstd::prelude::*;

use crate::parser;
use crate::pipeline::{PipelineModel, PipelineSpec, ShellError};

verus! {

/// Where a stage's standard input comes from.
#[derive(Debug, Clone, Copy, PartialEq, Eq, Structural)]
pub enum StdinBinding {
    /// Inherited from the shell's own standard input.
    Inherit,
    /// The opened input redirection file (first stage only).
    FromFile,
    /// The read end of the pipe from the previous stage.
    FromPipe,
}

/// Where a stage's standard output goes.
#[derive(Debug, Clone, Copy, PartialEq, Eq, Structural)]
pub enum StdoutBinding {
    /// Inherited from the shell's own standard output.
    Inherit,
    /// The opened output redirection file (last stage only).
    ToFile,
    /// The write end of the pipe to the next stage.
    ToPipe,
}

/// The standard-input binding of stage `i`: the input redirection file or
/// the shell's own input for the first stage, the pipe from its left
/// neighbour for every other stage.
pub open spec fn stdin_binding_of(m: PipelineModel, i: int) -> StdinBinding {
    if i == 0 {
        if m.input_redirect is Some {
            StdinBinding::FromFile
        } else {
            StdinBinding::Inherit
        }
    } else {
        StdinBinding::FromPipe
    }
}

/// The standard-output binding of stage `i`: the output redirection file or
/// the shell's own output for the last stage, the pipe to its right
/// neighbour for every other stage.
pub open spec fn stdout_binding_of(m: PipelineModel, i: int) -> StdoutBinding {
    if i + 1 == m.stages.len() {
        if m.output_redirect is Some {
            StdoutBinding::ToFile
        } else {
            StdoutBinding::Inherit
        }
    } else {
        StdoutBinding::ToPipe
    }
}

/// How one input line ended.
#[derive(Debug, Clone, Copy, PartialEq, Eq, Structural)]
pub enum ExecOutcome {
    /// Every stage was waited for; `status` is the last stage's exit status.
    Exited { status: i32 },
    /// Every stage was spawned and the caller was not blocked; the process
    /// identifiers stand in the execution's `pids`.
    Background,
    /// The line failed; nothing more will be done.
    Failed { error: ShellError },
}

/// What the interpreter is asked to do next.
#[derive(Debug, Clone, Copy, PartialEq, Eq, Structural)]
pub enum Action {
    /// Open the pipeline's `input_redirect` file for reading.
    OpenInput,
    /// Create or truncate the pipeline's `output_redirect` file for writing.
    OpenOutput,
    /// Spawn the given stage's program with the given standard-stream
    /// bindings.
    SpawnStage { stage: usize, stdin: StdinBinding, stdout: StdoutBinding },
    /// Wait for the given stage to terminate.
    WaitStage { stage: usize },
}

/// What the interpreter reports back after performing an action.
#[derive(Debug, Clone, Copy, PartialEq, Eq, Structural)]
pub enum Event {
    /// The requested file was opened.
    Opened,
    /// The requested file could not be opened or created.
    OpenFailed,
    /// The stage was spawned; `pid` is its process identifier.
    Spawned { pid: i32 },
    /// The stage's program could not be found or executed.
    SpawnFailed,
    /// The stage terminated with the given exit status.
    Waited { status: i32 },
    /// The stage's termination status could not be queried.
    WaitFailed,
}

/// Where the machine stands.
#[derive(Debug, Clone, Copy, PartialEq, Eq, Structural)]
pub enum Phase {
    /// Opening the input redirection file; nothing spawned yet.
    OpeningInput,
    /// Opening the output redirection file; nothing spawned yet.
    OpeningOutput,
    /// Stages `0 .. next` are spawned; stage `next` is spawned next.
    Spawning { next: usize },
    /// Every stage is spawned; stage `next` is waited for next.
    Waiting { next: usize },
    /// The line is finished.
    Done { outcome: ExecOutcome },
}

/// One line's execution: the parsed pipeline, the process identifiers of the
/// stages spawned so far (in stage order), and the machine's phase.
#[derive(Debug)]
pub struct Execution {
    pub pipeline: PipelineSpec,
    pub pids: Vec<i32>,
    pub phase: Phase,
}

impl Execution {
    /// The machine's invariant: the pipeline is well formed, files are only
    /// opened while nothing is spawned, `pids` counts exactly the spawned
    /// stages, the open phases only occur for redirections that exist, and a
    /// background pipeline is never in a waiting phase.
    pub open spec fn wf(self) -> bool {
        &&& self.pipeline@.wf()
        &&& match self.phase {
            Phase::OpeningInput => self.pipeline.input_redirect is Some && self.pids@.len() == 0,
            Phase::OpeningOutput => self.pipeline.output_redirect is Some && self.pids@.len()
                == 0,
            Phase::Spawning { next } => next < self.pipeline.stages@.len() && self.pids@.len()
                == next,
            Phase::Waiting { next } => next < self.pipeline.stages@.len() && self.pids@.len()
                == self.pipeline.stages@.len() && !self.pipeline.background,
            Phase::Done { .. } => true,
        }
    }

    /// The first phase: open the input redirection if there is one, else the
    /// output redirection if there is one, else start spawning.
    pub open spec fn start_phase(pipeline: PipelineSpec) -> Phase {
        if pipeline.input_redirect is Some {
            Phase::OpeningInput
        } else if pipeline.output_redirect is Some {
            Phase::OpeningOutput
        } else {
            Phase::Spawning { next: 0 }
        }
    }

    /// Begins the execution of a parsed pipeline. No file is opened and no
    /// process is spawned yet.
    pub fn start(pipeline: PipelineSpec) -> (r: Execution)
        requires
            pipeline@.wf(),
        ensures
            r.pipeline == pipeline,
            r.pids@ == Seq::<i32>::empty(),
            r.phase == Execution::start_phase(pipeline),
            r.wf(),
    {
        let phase = if pipeline.input_redirect.is_some() {
            Phase::OpeningInput
        } else if pipeline.output_redirect.is_some() {
            Phase::OpeningOutput
        } else {
            Phase::Spawning { next: 0 }
        };
        let r = Execution { pipeline, pids: Vec::new(), phase };
        proof {
            assert(r.pids@ =~= Seq::<i32>::empty());
        }
        r
    }

    /// What the interpreter is asked to do in the current phase, or nothing
    /// when the line is finished.
    pub open spec fn action_of(self) -> Option<Action> {
        match self.phase {
            Phase::OpeningInput => Some(Action::OpenInput),
            Phase::OpeningOutput => Some(Action::OpenOutput),
            Phase::Spawning { next } => Some(
                Action::SpawnStage {
                    stage: next,
                    stdin: stdin_binding_of(self.pipeline@, next as int),
                    stdout: stdout_binding_of(self.pipeline@, next as int),
                },
            ),
            Phase::Waiting { next } => Some(Action::WaitStage { stage: next }),
            Phase::Done { .. } => None,
        }
    }

    /// The next action to perform.
    pub fn current_action(&self) -> (r: Option<Action>)
        requires
            self.wf(),
        ensures
            r == self.action_of(),
    {
        match &self.phase {
            Phase::OpeningInput => Some(Action::OpenInput),
            Phase::OpeningOutput => Some(Action::OpenOutput),
            Phase::Spawning { next } => {
                let stage = *next;
                let stdin = if stage == 0 {
                    if self.pipeline.input_redirect.is_some() {
                        StdinBinding::FromFile
                    } else {
                        StdinBinding::Inherit
                    }
                } else {
                    StdinBinding::FromPipe
                };
                let n = self.pipeline.stages.len();
                let stdout = if stage == n - 1 {
                    if self.pipeline.output_redirect.is_some() {
                        StdoutBinding::ToFile
                    } else {
                        StdoutBinding::Inherit
                    }
                } else {
                    StdoutBinding::ToPipe
                };
                Some(Action::SpawnStage { stage, stdin, stdout })
            },
            Phase::Waiting { next } => Some(Action::WaitStage { stage: *next }),
            Phase::Done { .. } => None,
        }
    }

    /// Whether an event can answer the current phase's action.
    pub open spec fn accepts(self, event: Event) -> bool {
        match self.phase {
            Phase::OpeningInput | Phase::OpeningOutput => event is Opened || event is OpenFailed,
            Phase::Spawning { .. } => event is Spawned || event is SpawnFailed,
            Phase::Waiting { .. } => event is Waited || event is WaitFailed,
            Phase::Done { .. } => false,
        }
    }

    /// The transition relation on phases. A failed input open is
    /// `FileNotFound`, a failed output open `IoError`, and a failed spawn
    /// `SpawnError`, each ending the line at once; a successful spawn of the
    /// last stage detaches a background pipeline and otherwise begins
    /// waiting; the wait on the last stage yields the pipeline's status, and
    /// a failed wait is fatal only there.
    pub open spec fn next_phase(self, event: Event) -> Phase {
        let n = self.pipeline.stages@.len() as int;
        match self.phase {
            Phase::OpeningInput => match event {
                Event::Opened => if self.pipeline.output_redirect is Some {
                    Phase::OpeningOutput
                } else {
                    Phase::Spawning { next: 0 }
                },
                _ => Phase::Done {
                    outcome: ExecOutcome::Failed { error: ShellError::FileNotFound },
                },
            },
            Phase::OpeningOutput => match event {
                Event::Opened => Phase::Spawning { next: 0 },
                _ => Phase::Done { outcome: ExecOutcome::Failed { error: ShellError::IoError } },
            },
            Phase::Spawning { next } => match event {
                Event::Spawned { .. } => if next + 1 < n {
                    Phase::Spawning { next: (next + 1) as usize }
                } else if self.pipeline.background {
                    Phase::Done { outcome: ExecOutcome::Background }
                } else {
                    Phase::Waiting { next: 0 }
                },
                _ => Phase::Done {
                    outcome: ExecOutcome::Failed { error: ShellError::SpawnError },
                },
            },
            Phase::Waiting { next } => match event {
                Event::Waited { status } => if next + 1 < n {
                    Phase::Waiting { next: (next + 1) as usize }
                } else {
                    Phase::Done { outcome: ExecOutcome::Exited { status } }
                },
                _ => if next + 1 < n {
                    Phase::Waiting { next: (next + 1) as usize }
                } else {
                    Phase::Done { outcome: ExecOutcome::Failed { error: ShellError::WaitError } }
                },
            },
            Phase::Done { .. } => self.phase,
        }
    }

    /// The spawned-process list after an event: a successful spawn appends
    /// its process identifier; nothing else changes the list.
    pub open spec fn next_pids(self, event: Event) -> Seq<i32> {
        match event {
            Event::Spawned { pid } => if self.phase is Spawning {
                self.pids@.push(pid)
            } else {
                self.pids@
            },
            _ => self.pids@,
        }
    }

    /// Steps the machine by one event. The new state is exactly what
    /// [`Execution::next_phase`] and [`Execution::next_pids`] say, the
    /// pipeline itself never changes, and the invariant is preserved.
    pub fn step(self, event: Event) -> (r: Execution)
        requires
            self.wf(),
            self.accepts(event),
        ensures
            r.pipeline == self.pipeline,
            r.phase == self.next_phase(event),
            r.pids@ == self.next_pids(event),
            r.wf(),
    {
        let Execution { pipeline, mut pids, phase } = self;
        match phase {
            Phase::OpeningInput => {
                let next = match event {
                    Event::Opened => if pipeline.output_redirect.is_some() {
                        Phase::OpeningOutput
                    } else {
                        Phase::Spawning { next: 0 }
                    },
                    _ => Phase::Done {
                        outcome: ExecOutcome::Failed { error: ShellError::FileNotFound },
                    },
                };
                Execution { pipeline, pids, phase: next }
            },
            Phase::OpeningOutput => {
                let next = match event {
                    Event::Opened => Phase::Spawning { next: 0 },
                    _ => Phase::Done {
                        outcome: ExecOutcome::Failed { error: ShellError::IoError },
                    },
                };
                Execution { pipeline, pids, phase: next }
            },
            Phase::Spawning { next } => match event {
                Event::Spawned { pid } => {
                    pids.push(pid);
                    let n = pipeline.stages.len();
                    let phase = if next + 1 < n {
                        Phase::Spawning { next: next + 1 }
                    } else if pipeline.background {
                        Phase::Done { outcome: ExecOutcome::Background }
                    } else {
                        Phase::Waiting { next: 0 }
                    };
                    Execution { pipeline, pids, phase }
                },
                _ => Execution {
                    pipeline,
                    pids,
                    phase: Phase::Done {
                        outcome: ExecOutcome::Failed { error: ShellError::SpawnError },
                    },
                },
            },
            Phase::Waiting { next } => {
                let n = pipeline.stages.len();
                let phase = match event {
                    Event::Waited { status } => if next + 1 < n {
                        Phase::Waiting { next: next + 1 }
                    } else {
                        Phase::Done { outcome: ExecOutcome::Exited { status } }
                    },
                    _ => if next + 1 < n {
                        Phase::Waiting { next: next + 1 }
                    } else {
                        Phase::Done {
                            outcome: ExecOutcome::Failed { error: ShellError::WaitError },
                        }
                    },
                };
                Execution { pipeline, pids, phase }
            },
            Phase::Done { outcome } => {
                // `accepts` admits no event in the final phase.
                proof {
                    assert(false);
                }
                Execution { pipeline, pids, phase: Phase::Done { outcome } }
            },
        }
    }
}

/// Translates one trimmed, non-empty input line into a started execution:
/// the line parses to a pipeline exactly as [`parser::parse_line`] says, and
/// the machine stands at its first phase with nothing opened and nothing
/// spawned; a line that does not parse is the parse's error.
pub fn execute_command(input: &str) -> (r: Result<Execution, ShellError>)
    ensures
        match r {
            Ok(e) => {
                &&& parser::parse_line(input@) matches Ok(m) && e.pipeline@ == m
                &&& e.pids@ == Seq::<i32>::empty()
                &&& e.phase == Execution::start_phase(e.pipeline)
                &&& e.wf()
            },
            Err(err) => parser::parse_line(input@) == Err::<PipelineModel, ShellError>(err),
        },
{
    match parser::parse_command(input) {
        Ok(p) => Ok(Execution::start(p)),
        Err(e) => Err(e),
    }
}

/// A pipeline whose input redirection is missing spawns nothing: in the
/// phase that asks to open the input file — the machine's very first phase
/// whenever an input redirection is present — no stage has been spawned, and
/// a failed open moves straight to the `FileNotFound` outcome without
/// touching the (empty) spawned-process list.
pub proof fn lemma_missing_input_spawns_nothing(e: Execution)
    requires
        e.wf(),
        e.phase is OpeningInput,
    ensures
        e.pids@.len() == 0,
        e.next_phase(Event::OpenFailed) == (Phase::Done {
            outcome: ExecOutcome::Failed { error: ShellError::FileNotFound },
        }),
        e.next_pids(Event::OpenFailed) == e.pids@,
{
}

/// A background pipeline never blocks: no well-formed state of a background
/// execution asks the interpreter to wait, and since every step preserves
/// well-formedness, no reachable state does.
pub proof fn lemma_background_never_waits(e: Execution)
    requires
        e.wf(),
        e.pipeline.background,
    ensures
        !(e.action_of() matches Some(Action::WaitStage { .. })),
{
}

/// A stage that cannot be spawned is reported as `SpawnError`, ending the
/// line at once — later stages are never spawned — without terminating
/// anything else: the machine simply reaches its final phase, and a new line
/// starts a fresh execution.
pub proof fn lemma_spawn_failure_reported(e: Execution)
    requires
        e.wf(),
        e.phase is Spawning,
    ensures
        e.next_phase(Event::SpawnFailed) == (Phase::Done {
            outcome: ExecOutcome::Failed { error: ShellError::SpawnError },
        }),
        e.next_pids(Event::SpawnFailed) == e.pids@,
{
}

/// Background execution does not alter redirection scoping: two pipelines
/// that differ only in their background flag bind every stage's standard
/// streams identically.
pub proof fn lemma_background_does_not_alter_scoping(m1: PipelineModel, m2: PipelineModel, i: int)
    requires
        m1.stages == m2.stages,
        m1.input_redirect == m2.input_redirect,
        m1.output_redirect == m2.output_redirect,
    ensures
        stdin_binding_of(m1, i) == stdin_binding_of(m2, i),
        stdout_binding_of(m1, i) == stdout_binding_of(m2, i),
{
}

/// Pipe data flows left to right: every interior pipe boundary binds stage
/// `i`'s standard output to a pipe and stage `i + 1`'s standard input to the
/// matching pipe, so the text written by each stage is exactly what the next
/// stage reads.
pub proof fn lemma_pipe_wiring(m: PipelineModel, i: int)
    requires
        m.wf(),
        0 <= i < m.stages.len() - 1,
    ensures
        stdout_binding_of(m, i) == StdoutBinding::ToPipe,
        stdin_binding_of(m, i + 1) == StdinBinding::FromPipe,
{
}

} // verus!

