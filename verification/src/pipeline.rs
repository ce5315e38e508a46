//! The structured description of one input line: an ordered, non-empty chain
//! of pipeline stages with optional input/output redirection and a background
//! flag, together with the errors the engine can report.

use vstd::prelude::*;

use crate::text;

verus! {

/// Everything that can go wrong while interpreting one input line.
#[derive(Debug, Clone, Copy, PartialEq, Eq, Structural)]
pub enum ShellError {
    /// Malformed pipeline syntax: a stage with no program, or a redirection
    /// with no path.
    ParseError,
    /// The input redirection file does not exist.
    FileNotFound,
    /// The output redirection file cannot be created or truncated.
    IoError,
    /// A stage's program cannot be found or executed.
    SpawnError,
    /// A child's termination status could not be queried.
    WaitError,
}

impl ShellError {
    /// The message reported to the user for this error.
    pub open spec fn description(self) -> Seq<char> {
        match self {
            ShellError::ParseError => "malformed pipeline"@,
            ShellError::FileNotFound => "input file not found"@,
            ShellError::IoError => "failed to create output file"@,
            ShellError::SpawnError => "failed to execute command"@,
            ShellError::WaitError => "error waiting for child process"@,
        }
    }

    /// A short message naming the error.
    pub fn describe(&self) -> (r: String)
        ensures
            r@ == self.description(),
    {
        match self {
            ShellError::ParseError => String::from_str("malformed pipeline"),
            ShellError::FileNotFound => String::from_str("input file not found"),
            ShellError::IoError => String::from_str("failed to create output file"),
            ShellError::SpawnError => String::from_str("failed to execute command"),
            ShellError::WaitError => String::from_str("error waiting for child process"),
        }
    }
}

/// The mathematical value of a [`CommandSpec`].
pub ghost struct CommandModel {
    pub program: Seq<char>,
    pub args: Seq<Seq<char>>,
}

impl CommandModel {
    /// A stage always names a program.
    pub open spec fn wf(self) -> bool {
        self.program.len() > 0
    }
}

/// One pipeline stage: the program to run and its arguments, passed verbatim.
#[derive(Debug)]
pub struct CommandSpec {
    pub program: String,
    pub args: Vec<String>,
}

impl View for CommandSpec {
    type V = CommandModel;

    open spec fn view(&self) -> CommandModel {
        CommandModel { program: self.program@, args: self.args.deep_view() }
    }
}

/// The mathematical value of a [`PipelineSpec`].
pub ghost struct PipelineModel {
    pub stages: Seq<CommandModel>,
    pub input_redirect: Option<Seq<char>>,
    pub output_redirect: Option<Seq<char>>,
    pub background: bool,
}

impl PipelineModel {
    /// The invariants of a parsed line: at least one stage, every stage names
    /// a program, and a redirection, when present, names a non-empty trimmed
    /// path.
    pub open spec fn wf(self) -> bool {
        &&& self.stages.len() > 0
        &&& forall|i: int| 0 <= i < self.stages.len() ==> self.stages[i].wf()
        &&& match self.input_redirect {
            Some(p) => p.len() > 0 && p == text::trim(p),
            None => true,
        }
        &&& match self.output_redirect {
            Some(p) => p.len() > 0 && p == text::trim(p),
            None => true,
        }
    }
}

/// One fully parsed input line: the stages in left-to-right order, the
/// redirections of the first stage's input and the last stage's output, and
/// whether the line runs in the background.
#[derive(Debug)]
pub struct PipelineSpec {
    pub stages: Vec<CommandSpec>,
    pub input_redirect: Option<String>,
    pub output_redirect: Option<String>,
    pub background: bool,
}

impl View for PipelineSpec {
    type V = PipelineModel;

    open spec fn view(&self) -> PipelineModel {
        PipelineModel {
            stages: Seq::new(self.stages@.len(), |i: int| self.stages@[i]@),
            input_redirect: match self.input_redirect {
                Some(p) => Some(p@),
                None => None,
            },
            output_redirect: match self.output_redirect {
                Some(p) => Some(p@),
                None => None,
            },
            background: self.background,
        }
    }
}

} // verus!
