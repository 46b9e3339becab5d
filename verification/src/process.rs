use vstd::prelude::*;
use crate::text::{int_text, owned, push_int, push_str, trim, trim_string};

verus! {

/// What a finished command left behind: whether it exited successfully, its
/// exit code (none when a signal ended it), how the system describes its exit
/// status (such as `exit status: 1`), and its output decoded as text.
pub struct CommandOutput {
    pub success: bool,
    pub code: Option<i32>,
    pub status: String,
    pub stdout: String,
    pub stderr: String,
}

#[derive(Debug, Clone, PartialEq, Eq)]
pub enum ProcessError {
    /// The command could not be started; `source` is the system's reason.
    Start { command: String, source: String },
    Failed { command: String, code: Option<i32>, stdout: String, stderr: String },
}

pub enum ProcessErrorView {
    Start { command: Seq<char>, source: Seq<char> },
    Failed { command: Seq<char>, code: Option<i32>, stdout: Seq<char>, stderr: Seq<char> },
}

impl View for ProcessError {
    type V = ProcessErrorView;

    open spec fn view(&self) -> ProcessErrorView {
        match self {
            ProcessError::Start { command, source } => ProcessErrorView::Start {
                command: command@,
                source: source@,
            },
            ProcessError::Failed { command, code, stdout, stderr } => ProcessErrorView::Failed {
                command: command@,
                code: *code,
                stdout: stdout@,
                stderr: stderr@,
            },
        }
    }
}

/// `{:?}` of an optional exit code: `Some(1)` or `None`.
pub open spec fn code_debug(code: Option<i32>) -> Seq<char> {
    match code {
        Some(c) => "Some("@ + int_text(c as int) + ")"@,
        None => "None"@,
    }
}

/// The text that describes a process error.
pub open spec fn process_error_text(e: ProcessErrorView) -> Seq<char> {
    match e {
        ProcessErrorView::Start { command, source } => "could not start "@ + command + ": "@
            + source,
        ProcessErrorView::Failed { command, code, stderr, .. } => command
            + " exited with status "@ + code_debug(code) + ": "@ + stderr,
    }
}

impl ProcessError {
    /// The text that describes this error.
    pub fn message(&self) -> (r: String)
        ensures
            r@ == process_error_text(self@),
    {
        match self {
            ProcessError::Start { command, source } => {
                let mut r = owned("could not start ");
                push_str(&mut r, command.as_str());
                push_str(&mut r, ": ");
                push_str(&mut r, source.as_str());
                r
            },
            ProcessError::Failed { command, code, stderr, .. } => {
                let mut r = command.clone();
                push_str(&mut r, " exited with status ");
                match code {
                    Some(c) => {
                        push_str(&mut r, "Some(");
                        push_int(&mut r, *c as i64);
                        push_str(&mut r, ")");
                    },
                    None => {
                        push_str(&mut r, "None");
                    },
                }
                push_str(&mut r, ": ");
                push_str(&mut r, stderr.as_str());
                proof {
                    assert(r@ =~= process_error_text(self@));
                }
                r
            },
        }
    }
}

/// The result of a finished command: its standard output when it exited
/// successfully, and otherwise a `Failed` error that keeps the exit code, the
/// output and the trimmed error output.
pub fn finish(command: &str, output: CommandOutput) -> (r: Result<String, ProcessError>)
    ensures
        match r {
            Ok(s) => output.success && s@ == output.stdout@,
            Err(e) => !output.success && e@ == (ProcessErrorView::Failed {
                command: command@,
                code: output.code,
                stdout: output.stdout@,
                stderr: trim(output.stderr@),
            }),
        },
{
    if output.success {
        Ok(output.stdout)
    } else {
        let stderr = trim_string(output.stderr.as_str());
        Err(ProcessError::Failed { command: owned(command), code: output.code, stdout: output.stdout, stderr })
    }
}

} // verus!
