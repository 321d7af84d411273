//! The playground route: from a request to an executor, and from the result
//! of the pipeline to a response and its status.

use crate::config::{lookup, CodeLanguageView, ExecutorConfig, ExecutorConfigView};
use crate::executor::{Execute, Executor, ExecutorView, ModuleParams, ModuleParamsView};
use crate::outcome::{ExecutionResult, ExecutionResultView};
use vstd::prelude::*;

verus! {

/// The request payload.
#[derive(Debug, Clone, PartialEq)]
pub struct PlaygroundRequest {
    /// The code to execute.
    pub code: String,
    /// The language shortcut (e.g. `py` for Python).
    pub language: String,
    /// Optional flags for the compiler / interpreter.
    pub flags: Option<String>,
}

/// The model of a [`PlaygroundRequest`].
pub struct PlaygroundRequestView {
    pub code: Seq<char>,
    pub language: Seq<char>,
    pub flags: Option<Seq<char>>,
}

impl View for PlaygroundRequest {
    type V = PlaygroundRequestView;

    open spec fn view(&self) -> PlaygroundRequestView {
        PlaygroundRequestView {
            code: self.code@,
            language: self.language@,
            flags: match self.flags {
                Some(f) => Some(f@),
                None => None,
            },
        }
    }
}

/// The response payload.
#[derive(Debug, Clone, PartialEq)]
pub struct PlaygroundResponse {
    /// The successful output of the execution.
    pub output: Option<String>,
    /// The error output of the execution.
    pub error: Option<String>,
}

/// The model of a [`PlaygroundResponse`].
pub struct PlaygroundResponseView {
    pub output: Option<Seq<char>>,
    pub error: Option<Seq<char>>,
}

impl View for PlaygroundResponse {
    type V = PlaygroundResponseView;

    open spec fn view(&self) -> PlaygroundResponseView {
        PlaygroundResponseView {
            output: match self.output {
                Some(o) => Some(o@),
                None => None,
            },
            error: match self.error {
                Some(e) => Some(e@),
                None => None,
            },
        }
    }
}

/// The status of a response that carries the output of a program.
pub const STATUS_OK: u16 = 200;

/// The status of the response to a request for a language that is not
/// configured.
pub const STATUS_UNSUPPORTED_MEDIA_TYPE: u16 = 415;

/// The status of a response that carries an error.
pub const STATUS_UNPROCESSABLE_ENTITY: u16 = 422;

/// The error text for a language that is not configured.
pub open spec fn unsupported_language() -> Seq<char> {
    "Unsupported playground language"@
}

/// The error text for a stage that ran out of time.
pub open spec fn timeout_text() -> Seq<char> {
    "Timeout!"@
}

/// The error text for a fault that the submitted code did not cause. The
/// detail of the fault is for the operator and is not part of it.
pub open spec fn internal_error_text() -> Seq<char> {
    "Internal error"@
}

/// What a request asks the executor to run, in a language of the
/// configuration: absent flags become the empty text.
pub open spec fn module_for(
    config: ExecutorConfigView,
    language: CodeLanguageView,
    payload: PlaygroundRequestView,
) -> ExecutorView {
    ExecutorView {
        compile_cmd: language.compile,
        execute_cmd: language.execute,
        content: ModuleParamsView {
            code: payload.code,
            flags: match payload.flags {
                Some(f) => f,
                None => Seq::empty(),
            },
            extension: language.extension,
            timeout: config.timeout,
        },
    }
}

/// The response to a request that cannot be run.
pub open spec fn refusal() -> (u16, PlaygroundResponseView) {
    (
        STATUS_UNSUPPORTED_MEDIA_TYPE,
        PlaygroundResponseView { output: None, error: Some(unsupported_language()) },
    )
}

/// Picks the language that the request names and sets up its executor, or
/// gives the response that refuses the request where no such language is
/// configured.
pub fn prepare(config: &ExecutorConfig, payload: PlaygroundRequest) -> (prepared: Result<
    Executor,
    (u16, PlaygroundResponse),
>)
    ensures
        match lookup(config@.languages, payload@.language) {
            Some(language) => prepared matches Ok(executor) && executor.model() == module_for(
                config@,
                language,
                payload@,
            ),
            None => prepared matches Err(response) && (response.0, response.1@) == refusal(),
        },
{
    let language = match config.find(payload.language.as_str()) {
        Some(language) => language,
        None => {
            return Err(
                (
                    STATUS_UNSUPPORTED_MEDIA_TYPE,
                    PlaygroundResponse {
                        error: Some("Unsupported playground language".to_string()),
                        output: None,
                    },
                ),
            );
        },
    };
    let module = ModuleParams {
        extension: language.extension.clone(),
        timeout: config.timeout,
        code: payload.code,
        flags: match payload.flags {
            None => String::new(),
            Some(flags) => flags,
        },
    };
    let compile = match &language.compile {
        Some(c) => Some(c.clone()),
        None => None,
    };
    Ok(Executor::select(compile, language.execute.clone(), module))
}

/// The response that a result is answered with, and its status.
pub open spec fn reply(result: ExecutionResultView) -> (u16, PlaygroundResponseView) {
    match result {
        ExecutionResultView::Output(out) => (
            STATUS_OK,
            PlaygroundResponseView { output: Some(out), error: None },
        ),
        ExecutionResultView::CompileError(detail) => (
            STATUS_UNPROCESSABLE_ENTITY,
            PlaygroundResponseView { output: None, error: Some(detail) },
        ),
        ExecutionResultView::RuntimeError(detail) => (
            STATUS_UNPROCESSABLE_ENTITY,
            PlaygroundResponseView { output: None, error: Some(detail) },
        ),
        ExecutionResultView::TimedOut(_) => (
            STATUS_UNPROCESSABLE_ENTITY,
            PlaygroundResponseView { output: None, error: Some(timeout_text()) },
        ),
        ExecutionResultView::InternalError(_) => (
            STATUS_UNPROCESSABLE_ENTITY,
            PlaygroundResponseView { output: None, error: Some(internal_error_text()) },
        ),
    }
}

/// Turns the result of the pipeline into a response. What the submitted
/// code caused is passed on as it is; an internal fault is answered in
/// general words only.
pub fn respond(result: ExecutionResult) -> (response: (u16, PlaygroundResponse))
    ensures
        (response.0, response.1@) == reply(result@),
{
    match result {
        ExecutionResult::Output(out) => (
            STATUS_OK,
            PlaygroundResponse { error: None, output: Some(out) },
        ),
        ExecutionResult::CompileError(detail) => (
            STATUS_UNPROCESSABLE_ENTITY,
            PlaygroundResponse { error: Some(detail), output: None },
        ),
        ExecutionResult::RuntimeError(detail) => (
            STATUS_UNPROCESSABLE_ENTITY,
            PlaygroundResponse { error: Some(detail), output: None },
        ),
        ExecutionResult::TimedOut(_) => (
            STATUS_UNPROCESSABLE_ENTITY,
            PlaygroundResponse { error: Some("Timeout!".to_string()), output: None },
        ),
        ExecutionResult::InternalError(_) => (
            STATUS_UNPROCESSABLE_ENTITY,
            PlaygroundResponse { error: Some("Internal error".to_string()), output: None },
        ),
    }
}

} // verus!
