//! The per-request pipeline as a state machine. The machine decides; whoever
//! drives it writes the files, runs the processes and reports back.

use crate::outcome::{
    compile_verdict, execute_verdict, ExecutionResult, ExecutionResultView, ProcessOutcome,
    ProcessOutcomeView, Stage,
};
use crate::template::{expand, expansion, Bindings, BindingsView};
use crate::workspace::{Workspace, WorkspaceView};
use vstd::prelude::*;

verus! {

/// What a request asks to run.
#[derive(Debug, Clone, PartialEq)]
pub struct ModuleParams {
    /// The code to execute.
    pub code: String,
    /// The flags passed on to the compiler or interpreter; empty for none.
    pub flags: String,
    /// The file extension used for the source file.
    pub extension: String,
    /// The time budget of each stage, in seconds.
    pub timeout: u64,
}

/// The model of [`ModuleParams`].
pub struct ModuleParamsView {
    pub code: Seq<char>,
    pub flags: Seq<char>,
    pub extension: Seq<char>,
    pub timeout: u64,
}

impl View for ModuleParams {
    type V = ModuleParamsView;

    open spec fn view(&self) -> ModuleParamsView {
        ModuleParamsView {
            code: self.code@,
            flags: self.flags@,
            extension: self.extension@,
            timeout: self.timeout,
        }
    }
}

/// Where a request stands. Each state waits for one event.
#[derive(Debug, Clone, PartialEq)]
pub enum State {
    /// The workspace is named; nothing was done yet.
    Created,
    /// The source file is being written.
    WritingSource,
    /// The compiler runs.
    CompileRunning,
    /// The program runs.
    ExecuteRunning,
    /// The result is fixed and the workspace is being released.
    Settled(ExecutionResult),
    /// The workspace is released; the result is handed out.
    WorkspaceReleased(ExecutionResult),
}

/// The model of a [`State`].
pub enum StateView {
    Created,
    WritingSource,
    CompileRunning,
    ExecuteRunning,
    Settled(ExecutionResultView),
    WorkspaceReleased(ExecutionResultView),
}

impl View for State {
    type V = StateView;

    open spec fn view(&self) -> StateView {
        match self {
            State::Created => StateView::Created,
            State::WritingSource => StateView::WritingSource,
            State::CompileRunning => StateView::CompileRunning,
            State::ExecuteRunning => StateView::ExecuteRunning,
            State::Settled(r) => StateView::Settled(r@),
            State::WorkspaceReleased(r) => StateView::WorkspaceReleased(r@),
        }
    }
}

/// What the driver reports after it did what the last action asked.
#[derive(Debug, Clone, PartialEq)]
pub enum Event {
    /// The request begins.
    Start,
    /// The source file is on disk.
    SourceWritten,
    /// The driver could not do what was asked, for the reason given.
    Fault(String),
    /// The process of the running stage ended.
    Finished(ProcessOutcome),
    /// The release of the workspace was attempted.
    Released,
}

/// The model of an [`Event`].
pub enum EventView {
    Start,
    SourceWritten,
    Fault(Seq<char>),
    Finished(ProcessOutcomeView),
    Released,
}

impl View for Event {
    type V = EventView;

    open spec fn view(&self) -> EventView {
        match self {
            Event::Start => EventView::Start,
            Event::SourceWritten => EventView::SourceWritten,
            Event::Fault(reason) => EventView::Fault(reason@),
            Event::Finished(outcome) => EventView::Finished(outcome@),
            Event::Released => EventView::Released,
        }
    }
}

impl DeepView for Event {
    type V = EventView;

    open spec fn deep_view(&self) -> EventView {
        self@
    }
}

/// What the driver is asked to do next.
#[derive(Debug, Clone, PartialEq)]
pub enum Action {
    /// Create the directory `root` if it is absent, and write `code` to
    /// the file `path`.
    WriteSource { root: String, path: String, code: String },
    /// Run `argv` as one process of the stage, for at most `timeout`
    /// seconds.
    Run { stage: Stage, argv: Vec<String>, timeout: u64 },
    /// Remove the two files of the workspace, as far as they exist.
    Release { source_path: String, target_path: String },
    /// Hand the result to the caller; the request is over.
    Return(ExecutionResult),
}

/// The model of an [`Action`].
pub enum ActionView {
    WriteSource { root: Seq<char>, path: Seq<char>, code: Seq<char> },
    Run { stage: Stage, argv: Seq<Seq<char>>, timeout: u64 },
    Release { source_path: Seq<char>, target_path: Seq<char> },
    Return(ExecutionResultView),
}

impl View for Action {
    type V = ActionView;

    open spec fn view(&self) -> ActionView {
        match self {
            Action::WriteSource { root, path, code } => ActionView::WriteSource {
                root: root@,
                path: path@,
                code: code@,
            },
            Action::Run { stage, argv, timeout } => ActionView::Run {
                stage: *stage,
                argv: argv.deep_view(),
                timeout: *timeout,
            },
            Action::Release { source_path, target_path } => ActionView::Release {
                source_path: source_path@,
                target_path: target_path@,
            },
            Action::Return(r) => ActionView::Return(r@),
        }
    }
}

impl DeepView for Action {
    type V = ActionView;

    open spec fn deep_view(&self) -> ActionView {
        self@
    }
}

/// The model of an executor: its command templates, the compile template
/// being absent for an interpreted language, and what the request holds.
pub struct ExecutorView {
    pub compile_cmd: Option<Seq<char>>,
    pub execute_cmd: Seq<char>,
    pub content: ModuleParamsView,
}

/// The detail of the fault where a template gives no argument at all.
pub open spec fn empty_command() -> Seq<char> {
    "Failed to split command, check config!"@
}

/// The detail of the fault where an event comes that the state does not
/// wait for.
pub open spec fn unexpected_event() -> Seq<char> {
    "the event does not answer the last action"@
}

/// The flags of a request: none where the text is empty.
pub open spec fn flags_of(content: ModuleParamsView) -> Option<Seq<char>> {
    if content.flags.len() == 0 {
        None
    } else {
        Some(content.flags)
    }
}

/// The bindings of the compile stage.
pub open spec fn compile_bindings(x: ExecutorView, ws: WorkspaceView) -> BindingsView {
    BindingsView {
        source_file: ws.source_path,
        target_file: ws.target_path,
        flags: flags_of(x.content),
    }
}

/// The bindings of the execute stage. The target placeholder names what the
/// stage runs: the compiled artifact of a compiled language, the source file
/// of an interpreted one.
pub open spec fn execute_bindings(x: ExecutorView, ws: WorkspaceView) -> BindingsView {
    BindingsView {
        source_file: ws.source_path,
        target_file: if x.compile_cmd is Some {
            ws.target_path
        } else {
            ws.source_path
        },
        flags: flags_of(x.content),
    }
}

/// The arguments of a stage: the expansion of its template under its
/// bindings. An interpreted language has no compile stage and no arguments
/// for it.
pub open spec fn stage_argv(x: ExecutorView, ws: WorkspaceView, stage: Stage) -> Seq<Seq<char>> {
    match stage {
        Stage::Compile => match x.compile_cmd {
            Some(cmd) => expansion(cmd, compile_bindings(x, ws)),
            None => Seq::empty(),
        },
        Stage::Execute => expansion(x.execute_cmd, execute_bindings(x, ws)),
    }
}

/// Fixes the result and asks for the release of the workspace.
pub open spec fn settle(ws: WorkspaceView, result: ExecutionResultView) -> (StateView, ActionView) {
    (
        StateView::Settled(result),
        ActionView::Release { source_path: ws.source_path, target_path: ws.target_path },
    )
}

/// Starts a stage, or settles on a fault where there is no program to run.
pub open spec fn launch(
    x: ExecutorView,
    ws: WorkspaceView,
    stage: Stage,
    argv: Seq<Seq<char>>,
) -> (StateView, ActionView) {
    if argv.len() == 0 {
        settle(ws, ExecutionResultView::InternalError(empty_command()))
    } else {
        (
            match stage {
                Stage::Compile => StateView::CompileRunning,
                Stage::Execute => StateView::ExecuteRunning,
            },
            ActionView::Run { stage, argv, timeout: x.content.timeout },
        )
    }
}

/// Starts the execute stage.
pub open spec fn launch_execute(x: ExecutorView, ws: WorkspaceView) -> (StateView, ActionView) {
    launch(x, ws, Stage::Execute, expansion(x.execute_cmd, execute_bindings(x, ws)))
}

/// The transition of the machine: the state after `event` came in `state`,
/// and what the driver is asked to do.
///
/// Once the result is fixed, nothing changes it: whatever the release of
/// the workspace reports, the result is handed out as it stands. Before
/// that, a fault or an event out of turn settles the request on an internal
/// error, and the execute stage starts only from a written source file or
/// a compiler that succeeded. A language without a compile template has no
/// compile stage, so an event that reports on one is out of turn.
pub open spec fn transition(
    x: ExecutorView,
    ws: WorkspaceView,
    state: StateView,
    event: EventView,
) -> (StateView, ActionView) {
    match (state, event) {
        (StateView::Settled(r), _) => (StateView::WorkspaceReleased(r), ActionView::Return(r)),
        (StateView::WorkspaceReleased(r), _) => (
            StateView::WorkspaceReleased(r),
            ActionView::Return(r),
        ),
        (_, EventView::Fault(reason)) => settle(ws, ExecutionResultView::InternalError(reason)),
        (StateView::Created, EventView::Start) => (
            StateView::WritingSource,
            ActionView::WriteSource { root: ws.root, path: ws.source_path, code: x.content.code },
        ),
        (StateView::WritingSource, EventView::SourceWritten) => match x.compile_cmd {
            Some(cmd) => launch(x, ws, Stage::Compile, expansion(cmd, compile_bindings(x, ws))),
            None => launch_execute(x, ws),
        },
        (StateView::CompileRunning, EventView::Finished(outcome)) => match (
            x.compile_cmd,
            compile_verdict(outcome),
        ) {
            (None, _) => settle(ws, ExecutionResultView::InternalError(unexpected_event())),
            (Some(_), Some(result)) => settle(ws, result),
            (Some(_), None) => launch_execute(x, ws),
        },
        (StateView::ExecuteRunning, EventView::Finished(outcome)) => settle(
            ws,
            execute_verdict(outcome),
        ),
        _ => settle(ws, ExecutionResultView::InternalError(unexpected_event())),
    }
}

/// An execution module: one strategy of running a request.
pub trait Execute {
    /// The model of the module.
    spec fn model(&self) -> ExecutorView;

    /// What the request holds.
    fn content(&self) -> (content: &ModuleParams)
        ensures
            content@ == self.model().content,
    ;

    /// Takes the request one step further: from the state it stands in and
    /// the event that came, to the next state and the next action.
    fn execute(&self, workspace: &Workspace, state: State, event: Event) -> (next: (State, Action))
        ensures
            next.0@ == transition(self.model(), workspace@, state@, event@).0,
            next.1@ == transition(self.model(), workspace@, state@, event@).1,
    ;
}

/// The release action for a workspace, with the state that waits for it.
fn settle_on(workspace: &Workspace, result: ExecutionResult) -> (next: (State, Action))
    ensures
        next.0@ == settle(workspace@, result@).0,
        next.1@ == settle(workspace@, result@).1,
{
    (
        State::Settled(result),
        Action::Release {
            source_path: workspace.source_path.clone(),
            target_path: workspace.target_path.clone(),
        },
    )
}

/// The bindings of a stage: `target` is what the target placeholder names.
fn bindings_for(workspace: &Workspace, target: &String, content: &ModuleParams) -> (b: Bindings)
    ensures
        b@ == (BindingsView {
            source_file: workspace@.source_path,
            target_file: target@,
            flags: flags_of(content@),
        }),
{
    Bindings {
        source_file: workspace.source_path.clone(),
        target_file: target.clone(),
        flags: if content.flags.as_str().unicode_len() == 0 {
            None
        } else {
            Some(content.flags.clone())
        },
    }
}

/// Starts a stage with the arguments that its template gave.
fn launch_stage(
    workspace: &Workspace,
    stage: Stage,
    argv: Vec<String>,
    content: &ModuleParams,
    Ghost(x): Ghost<ExecutorView>,
) -> (next: (State, Action))
    requires
        x.content == content@,
    ensures
        next.0@ == launch(x, workspace@, stage, argv.deep_view()).0,
        next.1@ == launch(x, workspace@, stage, argv.deep_view()).1,
{
    if argv.len() == 0 {
        settle_on(
            workspace,
            ExecutionResult::InternalError(
                "Failed to split command, check config!".to_string(),
            ),
        )
    } else {
        let running = match stage {
            Stage::Compile => State::CompileRunning,
            Stage::Execute => State::ExecuteRunning,
        };
        (running, Action::Run { stage, argv, timeout: content.timeout })
    }
}

/// The model of an executor with these parts.
spec fn model_of(
    compile_cmd: Option<&String>,
    execute_cmd: &String,
    content: &ModuleParams,
) -> ExecutorView {
    ExecutorView {
        compile_cmd: match compile_cmd {
            Some(c) => Some(c@),
            None => None,
        },
        execute_cmd: execute_cmd@,
        content: content@,
    }
}

/// One step of the machine, for either strategy.
fn step(
    compile_cmd: Option<&String>,
    execute_cmd: &String,
    content: &ModuleParams,
    workspace: &Workspace,
    state: State,
    event: Event,
) -> (next: (State, Action))
    ensures
        next.0@ == transition(
            model_of(compile_cmd, execute_cmd, content),
            workspace@,
            state@,
            event@,
        ).0,
        next.1@ == transition(
            model_of(compile_cmd, execute_cmd, content),
            workspace@,
            state@,
            event@,
        ).1,
{
    let ghost x = model_of(compile_cmd, execute_cmd, content);
    let execute_target: &String = match compile_cmd {
        Some(_) => &workspace.target_path,
        None => &workspace.source_path,
    };
    match (state, event) {
        (State::Settled(r), _) => {
            let handed = r.duplicate();
            (State::WorkspaceReleased(r), Action::Return(handed))
        },
        (State::WorkspaceReleased(r), _) => {
            let handed = r.duplicate();
            (State::WorkspaceReleased(r), Action::Return(handed))
        },
        (_, Event::Fault(reason)) => settle_on(workspace, ExecutionResult::InternalError(reason)),
        (State::Created, Event::Start) => (
            State::WritingSource,
            Action::WriteSource {
                root: workspace.root.clone(),
                path: workspace.source_path.clone(),
                code: content.code.clone(),
            },
        ),
        (State::WritingSource, Event::SourceWritten) => match compile_cmd {
            Some(cmd) => {
                let b = bindings_for(workspace, &workspace.target_path, content);
                let argv = expand(cmd.as_str(), &b);
                launch_stage(workspace, Stage::Compile, argv, content, Ghost(x))
            },
            None => {
                let b = bindings_for(workspace, execute_target, content);
                let argv = expand(execute_cmd.as_str(), &b);
                launch_stage(workspace, Stage::Execute, argv, content, Ghost(x))
            },
        },
        (State::CompileRunning, Event::Finished(outcome)) => {
            match (compile_cmd, ExecutionResult::after_compile(outcome)) {
                (None, _) => settle_on(
                    workspace,
                    ExecutionResult::InternalError(
                        "the event does not answer the last action".to_string(),
                    ),
                ),
                (Some(_), Some(result)) => settle_on(workspace, result),
                (Some(_), None) => {
                    let b = bindings_for(workspace, execute_target, content);
                    let argv = expand(execute_cmd.as_str(), &b);
                    launch_stage(workspace, Stage::Execute, argv, content, Ghost(x))
                },
            }
        },
        (State::ExecuteRunning, Event::Finished(outcome)) => settle_on(
            workspace,
            ExecutionResult::after_execute(outcome),
        ),
        _ => settle_on(
            workspace,
            ExecutionResult::InternalError("the event does not answer the last action".to_string()),
        ),
    }
}

/// Executor for compiled languages such as `C` and `C++`: the compile
/// stage makes the target file, the execute stage runs it.
pub struct CompiledExecutor {
    compile_cmd: String,
    execute_cmd: String,
    content: ModuleParams,
}

impl CompiledExecutor {
    pub fn new(compile_cmd: String, execute_cmd: String, content: ModuleParams) -> (executor: Self)
        ensures
            executor.model() == (ExecutorView {
                compile_cmd: Some(compile_cmd@),
                execute_cmd: execute_cmd@,
                content: content@,
            }),
    {
        CompiledExecutor { compile_cmd, execute_cmd, content }
    }
}

impl Execute for CompiledExecutor {
    closed spec fn model(&self) -> ExecutorView {
        ExecutorView {
            compile_cmd: Some(self.compile_cmd@),
            execute_cmd: self.execute_cmd@,
            content: self.content@,
        }
    }

    fn content(&self) -> (content: &ModuleParams) {
        &self.content
    }

    fn execute(&self, workspace: &Workspace, state: State, event: Event) -> (next: (State, Action)) {
        step(Some(&self.compile_cmd), &self.execute_cmd, &self.content, workspace, state, event)
    }
}

/// Executor for interpreted languages such as `Python` and `Ruby`: there is
/// no compile stage, and the execute stage runs the source file.
pub struct InterpretedExecutor {
    execute_cmd: String,
    content: ModuleParams,
}

impl InterpretedExecutor {
    pub fn new(execute_cmd: String, content: ModuleParams) -> (executor: Self)
        ensures
            executor.model() == (ExecutorView {
                compile_cmd: None,
                execute_cmd: execute_cmd@,
                content: content@,
            }),
    {
        InterpretedExecutor { execute_cmd, content }
    }
}

impl Execute for InterpretedExecutor {
    closed spec fn model(&self) -> ExecutorView {
        ExecutorView { compile_cmd: None, execute_cmd: self.execute_cmd@, content: self.content@ }
    }

    fn content(&self) -> (content: &ModuleParams) {
        &self.content
    }

    fn execute(&self, workspace: &Workspace, state: State, event: Event) -> (next: (State, Action)) {
        step(None, &self.execute_cmd, &self.content, workspace, state, event)
    }
}

/// The strategy of a request, chosen once, when the request comes in.
pub enum Executor {
    Compiled(CompiledExecutor),
    Interpreted(InterpretedExecutor),
}

impl Executor {
    /// Chooses the strategy by whether the language has a compile template.
    pub fn select(compile_cmd: Option<String>, execute_cmd: String, content: ModuleParams) -> (executor:
        Self)
        ensures
            executor is Compiled <==> compile_cmd is Some,
            executor.model() == (ExecutorView {
                compile_cmd: match compile_cmd {
                    Some(c) => Some(c@),
                    None => None,
                },
                execute_cmd: execute_cmd@,
                content: content@,
            }),
    {
        match compile_cmd {
            Some(compile) => Executor::Compiled(
                CompiledExecutor::new(compile, execute_cmd, content),
            ),
            None => Executor::Interpreted(InterpretedExecutor::new(execute_cmd, content)),
        }
    }
}

impl Execute for Executor {
    open spec fn model(&self) -> ExecutorView {
        match self {
            Executor::Compiled(e) => e.model(),
            Executor::Interpreted(e) => e.model(),
        }
    }

    fn content(&self) -> (content: &ModuleParams) {
        match self {
            Executor::Compiled(e) => e.content(),
            Executor::Interpreted(e) => e.content(),
        }
    }

    fn execute(&self, workspace: &Workspace, state: State, event: Event) -> (next: (State, Action)) {
        match self {
            Executor::Compiled(e) => e.execute(workspace, state, event),
            Executor::Interpreted(e) => e.execute(workspace, state, event),
        }
    }
}

} // verus!
