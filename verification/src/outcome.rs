//! How one process ended, and what a request comes to.

use vstd::prelude::*;
use vstd::utf8::*;

verus! {

/// One of the two steps of the pipeline.
#[derive(Clone, Copy, Debug, PartialEq, Eq, Structural)]
pub enum Stage {
    /// Turning the source file into the target file.
    Compile,
    /// Running the target file.
    Execute,
}

/// How one process ended.
#[derive(Clone, Debug, PartialEq, Eq)]
pub enum ProcessOutcome {
    /// Exit code zero, with what the process wrote to its standard output.
    Success(String),
    /// Another exit code, with what the process wrote to its standard error.
    NonZeroExit(i32, String),
    /// The process outlived its time budget and was terminated.
    TimedOut,
    /// The process gave no usable result: it could not be started, or its
    /// output could not be read as text.
    SpawnFailed(String),
}

/// The model of a [`ProcessOutcome`].
pub enum ProcessOutcomeView {
    Success(Seq<char>),
    NonZeroExit(i32, Seq<char>),
    TimedOut,
    SpawnFailed(Seq<char>),
}

impl View for ProcessOutcome {
    type V = ProcessOutcomeView;

    open spec fn view(&self) -> ProcessOutcomeView {
        match self {
            ProcessOutcome::Success(out) => ProcessOutcomeView::Success(out@),
            ProcessOutcome::NonZeroExit(code, err) => ProcessOutcomeView::NonZeroExit(*code, err@),
            ProcessOutcome::TimedOut => ProcessOutcomeView::TimedOut,
            ProcessOutcome::SpawnFailed(reason) => ProcessOutcomeView::SpawnFailed(reason@),
        }
    }
}

/// What a request comes to.
#[derive(Clone, Debug, PartialEq, Eq)]
pub enum ExecutionResult {
    /// The program ran and exited with code zero; its standard output.
    Output(String),
    /// The compiler exited with another code; its standard error.
    CompileError(String),
    /// The program exited with another code; its standard error.
    RuntimeError(String),
    /// A stage outlived its time budget.
    TimedOut(Stage),
    /// A fault that the submitted code did not cause, with the detail for
    /// the operator.
    InternalError(String),
}

/// The model of an [`ExecutionResult`].
pub enum ExecutionResultView {
    Output(Seq<char>),
    CompileError(Seq<char>),
    RuntimeError(Seq<char>),
    TimedOut(Stage),
    InternalError(Seq<char>),
}

impl View for ExecutionResult {
    type V = ExecutionResultView;

    open spec fn view(&self) -> ExecutionResultView {
        match self {
            ExecutionResult::Output(out) => ExecutionResultView::Output(out@),
            ExecutionResult::CompileError(detail) => ExecutionResultView::CompileError(detail@),
            ExecutionResult::RuntimeError(detail) => ExecutionResultView::RuntimeError(detail@),
            ExecutionResult::TimedOut(stage) => ExecutionResultView::TimedOut(*stage),
            ExecutionResult::InternalError(detail) => ExecutionResultView::InternalError(detail@),
        }
    }
}

/// The exit code reported for a process that a signal ended.
pub const SIGNAL_EXIT_CODE: i32 = 1;

/// The words in which `String::from_utf8` refuses bytes that are not
/// well-formed UTF-8.
pub uninterp spec fn utf8_fault(bytes: Seq<u8>) -> Seq<char>;

/// The text that bytes encode, or the refusal of bytes that encode none.
pub open spec fn decoded(bytes: Seq<u8>) -> Result<Seq<char>, Seq<char>> {
    if valid_utf8(bytes) {
        Ok(decode_utf8(bytes))
    } else {
        Err(utf8_fault(bytes))
    }
}

/// The exit code that a failure is reported with.
pub open spec fn failure_code(code: Option<i32>) -> i32 {
    match code {
        Some(c) => c,
        None => SIGNAL_EXIT_CODE,
    }
}

/// How a process that ran to its end is classified, once the stream that
/// counts was read as text. Only the exit code decides between success and
/// failure; a stream that is no text leaves no usable result.
pub open spec fn classify_text(
    code: Option<i32>,
    text: Result<Seq<char>, Seq<char>>,
) -> ProcessOutcomeView {
    match text {
        Err(reason) => ProcessOutcomeView::SpawnFailed(reason),
        Ok(t) => if code == Some(0i32) {
            ProcessOutcomeView::Success(t)
        } else {
            ProcessOutcomeView::NonZeroExit(failure_code(code), t)
        },
    }
}

/// The stream that counts: the standard output of a process that exited
/// with code zero, the standard error of any other.
pub open spec fn reported_stream(code: Option<i32>, stdout: Seq<u8>, stderr: Seq<u8>) -> Seq<u8> {
    if code == Some(0i32) {
        stdout
    } else {
        stderr
    }
}

/// How a process that ran to its end is classified. Code zero is a success
/// whatever stands in the standard error, which is attached to a failure
/// only.
pub open spec fn classify(code: Option<i32>, stdout: Seq<u8>, stderr: Seq<u8>) -> ProcessOutcomeView {
    classify_text(code, decoded(reported_stream(code, stdout, stderr)))
}

/// How the wait for a process is classified: a process that ran to its end
/// by its exit code and streams, one that outlived its time budget as timed
/// out, with whatever it wrote thrown away, and a wait that failed as no
/// usable result.
pub open spec fn classify_wait(
    waited: Result<Option<Option<i32>>, Seq<char>>,
    stdout: Seq<u8>,
    stderr: Seq<u8>,
) -> ProcessOutcomeView {
    match waited {
        Ok(Some(code)) => classify(code, stdout, stderr),
        Ok(None) => ProcessOutcomeView::TimedOut,
        Err(reason) => ProcessOutcomeView::SpawnFailed(reason),
    }
}

/// Reads bytes as text with `String::from_utf8`.
///
/// Trusted: the text is there exactly where the bytes are well-formed
/// UTF-8, and it then holds those very bytes. Else the words of the refusal
/// are handed on; they depend on the bytes alone and are not spelled out.
#[verifier::external_body]
fn decode(bytes: Vec<u8>) -> (text: Result<String, String>)
    ensures
        text is Ok <==> valid_utf8(bytes@),
        text matches Ok(s) ==> encode_utf8(s@) == bytes@,
        text matches Err(reason) ==> reason@ == utf8_fault(bytes@),
{
    match String::from_utf8(bytes) {
        Ok(text) => Ok(text),
        Err(fault) => Err(format!("{}", fault)),
    }
}

/// The model of a text or a refusal.
pub open spec fn text_view(text: Result<String, String>) -> Result<Seq<char>, Seq<char>> {
    match text {
        Ok(t) => Ok(t@),
        Err(reason) => Err(reason@),
    }
}

impl ProcessOutcome {
    /// Classifies a process that ran to its end, from its exit code (`None`
    /// where a signal ended it) and the stream that counts, read as text or
    /// refused with a reason.
    pub fn from_text(code: Option<i32>, text: Result<String, String>) -> (outcome: ProcessOutcome)
        ensures
            outcome@ == classify_text(code, text_view(text)),
    {
        match text {
            Err(reason) => ProcessOutcome::SpawnFailed(reason),
            Ok(t) => match code {
                Some(c) => if c == 0 {
                    ProcessOutcome::Success(t)
                } else {
                    ProcessOutcome::NonZeroExit(c, t)
                },
                None => ProcessOutcome::NonZeroExit(SIGNAL_EXIT_CODE, t),
            },
        }
    }

    /// Classifies a process that ran to its end, from its exit code (`None`
    /// where a signal ended it) and the bytes of its two output streams.
    pub fn from_exit(code: Option<i32>, stdout: Vec<u8>, stderr: Vec<u8>) -> (outcome:
        ProcessOutcome)
        ensures
            outcome@ == classify(code, stdout@, stderr@),
    {
        let succeeded = match code {
            Some(c) => c == 0,
            None => false,
        };
        let text = if succeeded {
            decode(stdout)
        } else {
            decode(stderr)
        };
        proof {
            if text is Ok {
                encode_utf8_decode_utf8(text->Ok_0@);
            }
        }
        ProcessOutcome::from_text(code, text)
    }

    /// Classifies the wait for a process: `Ok(Some(code))` where it ran to
    /// its end, `Ok(None)` where its time budget ran out first, `Err` where
    /// the wait itself failed.
    pub fn from_wait(
        waited: Result<Option<Option<i32>>, String>,
        stdout: Vec<u8>,
        stderr: Vec<u8>,
    ) -> (outcome: ProcessOutcome)
        ensures
            outcome@ == classify_wait(
                match waited {
                    Ok(ended) => Ok(ended),
                    Err(reason) => Err(reason@),
                },
                stdout@,
                stderr@,
            ),
    {
        match waited {
            Ok(Some(code)) => ProcessOutcome::from_exit(code, stdout, stderr),
            Ok(None) => ProcessOutcome::TimedOut,
            Err(reason) => ProcessOutcome::SpawnFailed(reason),
        }
    }
}

/// What the outcome of the compile stage means for the request: nothing yet
/// after a success, else the result that ends it.
pub open spec fn compile_verdict(outcome: ProcessOutcomeView) -> Option<ExecutionResultView> {
    match outcome {
        ProcessOutcomeView::Success(_) => None,
        ProcessOutcomeView::NonZeroExit(_, err) => Some(ExecutionResultView::CompileError(err)),
        ProcessOutcomeView::TimedOut => Some(ExecutionResultView::TimedOut(Stage::Compile)),
        ProcessOutcomeView::SpawnFailed(reason) => Some(ExecutionResultView::InternalError(reason)),
    }
}

/// What the outcome of the execute stage means for the request.
pub open spec fn execute_verdict(outcome: ProcessOutcomeView) -> ExecutionResultView {
    match outcome {
        ProcessOutcomeView::Success(out) => ExecutionResultView::Output(out),
        ProcessOutcomeView::NonZeroExit(_, err) => ExecutionResultView::RuntimeError(err),
        ProcessOutcomeView::TimedOut => ExecutionResultView::TimedOut(Stage::Execute),
        ProcessOutcomeView::SpawnFailed(reason) => ExecutionResultView::InternalError(reason),
    }
}

impl ExecutionResult {
    /// The result that the outcome of the compile stage ends the request
    /// with, or `None` where the compiler succeeded.
    pub fn after_compile(outcome: ProcessOutcome) -> (verdict: Option<ExecutionResult>)
        ensures
            match verdict {
                Some(r) => compile_verdict(outcome@) == Some(r@),
                None => compile_verdict(outcome@) is None,
            },
    {
        match outcome {
            ProcessOutcome::Success(_) => None,
            ProcessOutcome::NonZeroExit(_, err) => Some(ExecutionResult::CompileError(err)),
            ProcessOutcome::TimedOut => Some(ExecutionResult::TimedOut(Stage::Compile)),
            ProcessOutcome::SpawnFailed(reason) => Some(ExecutionResult::InternalError(reason)),
        }
    }

    /// The result that the outcome of the execute stage ends the request
    /// with.
    pub fn after_execute(outcome: ProcessOutcome) -> (verdict: ExecutionResult)
        ensures
            verdict@ == execute_verdict(outcome@),
    {
        match outcome {
            ProcessOutcome::Success(out) => ExecutionResult::Output(out),
            ProcessOutcome::NonZeroExit(_, err) => ExecutionResult::RuntimeError(err),
            ProcessOutcome::TimedOut => ExecutionResult::TimedOut(Stage::Execute),
            ProcessOutcome::SpawnFailed(reason) => ExecutionResult::InternalError(reason),
        }
    }

    /// A copy of the result that holds the same text.
    pub fn duplicate(&self) -> (copy: ExecutionResult)
        ensures
            copy@ == self@,
    {
        match self {
            ExecutionResult::Output(out) => ExecutionResult::Output(out.clone()),
            ExecutionResult::CompileError(detail) => ExecutionResult::CompileError(detail.clone()),
            ExecutionResult::RuntimeError(detail) => ExecutionResult::RuntimeError(detail.clone()),
            ExecutionResult::TimedOut(stage) => ExecutionResult::TimedOut(*stage),
            ExecutionResult::InternalError(detail) => ExecutionResult::InternalError(
                detail.clone(),
            ),
        }
    }

    /// Whether the submitted code caused this result, so that its text may
    /// be shown to whoever submitted it.
    pub fn is_user_facing(&self) -> (r: bool)
        ensures
            r == !(self@ is InternalError),
    {
        match self {
            ExecutionResult::InternalError(_) => false,
            _ => true,
        }
    }
}

} // verus!
