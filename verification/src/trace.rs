//! What holds of every run of the pipeline, whatever the driver reports.

use crate::executor::{
    stage_argv, transition, Action, ActionView, Event, EventView, Execute, ExecutorView, State,
    StateView,
};
use crate::outcome::{ExecutionResultView, ProcessOutcomeView, Stage};
use crate::workspace::{Workspace, WorkspaceView};
use vstd::prelude::*;

verus! {

/// A run of the machine: the state after the events came in this order to
/// a new request, and the actions that answered them, one for each event.
pub open spec fn run(x: ExecutorView, ws: WorkspaceView, events: Seq<EventView>) -> (
    StateView,
    Seq<ActionView>,
)
    decreases events.len(),
{
    if events.len() == 0 {
        (StateView::Created, Seq::empty())
    } else {
        let before = run(x, ws, events.drop_last());
        let next = transition(x, ws, before.0, events.last());
        (next.0, before.1.push(next.1))
    }
}

/// How often a sequence of actions asks for the release of the workspace.
pub open spec fn releases(trace: Seq<ActionView>) -> nat
    decreases trace.len(),
{
    if trace.len() == 0 {
        0
    } else if trace.last() is Release {
        releases(trace.drop_last()) + 1
    } else {
        releases(trace.drop_last())
    }
}

/// Whether an action starts a process of the given stage.
pub open spec fn is_run(action: ActionView, stage: Stage) -> bool {
    action matches ActionView::Run { stage: s, .. } && s == stage
}

/// Whether an event reports a process that exited with code zero.
pub open spec fn is_success(event: EventView) -> bool {
    event matches EventView::Finished(outcome) && outcome is Success
}

/// Whether a state comes before the result is fixed.
pub open spec fn is_open(state: StateView) -> bool {
    !(state is Settled) && !(state is WorkspaceReleased)
}

/// The shape that every run has.
spec fn shaped(
    x: ExecutorView,
    ws: WorkspaceView,
    events: Seq<EventView>,
    state: StateView,
    trace: Seq<ActionView>,
) -> bool {
    &&& trace.len() == events.len()
    &&& forall|k: int|
        0 <= k < trace.len() && #[trigger] trace[k] is WriteSource ==> k == 0 && trace[k] == (
        ActionView::WriteSource { root: ws.root, path: ws.source_path, code: x.content.code })
    &&& forall|k: int|
        0 <= k < trace.len() && #[trigger] is_run(trace[k], Stage::Compile) ==> k == 1
            && x.compile_cmd is Some
    &&& forall|k: int|
        0 <= k < trace.len() && #[trigger] is_run(trace[k], Stage::Execute) ==> if x.compile_cmd is Some {
            k == 2 && is_run(trace[1], Stage::Compile) && is_success(events[2])
        } else {
            k == 1
        }
    &&& forall|k: int|
        0 <= k < trace.len() ==> (#[trigger] trace[k] matches ActionView::Run {
            stage,
            argv,
            timeout,
        } ==> timeout == x.content.timeout && argv.len() > 0 && argv == stage_argv(x, ws, stage))
    &&& forall|k: int|
        0 <= k < trace.len() && #[trigger] trace[k] is Release ==> trace[k] == (
        ActionView::Release { source_path: ws.source_path, target_path: ws.target_path })
    &&& forall|k: int|
        0 <= k < trace.len() && #[trigger] trace[k] is Return ==> releases(trace.take(k)) == 1
            && state == StateView::WorkspaceReleased(trace[k]->Return_0)
    &&& match state {
        StateView::Created => trace.len() == 0 && releases(trace) == 0,
        StateView::WritingSource => trace.len() == 1 && releases(trace) == 0,
        StateView::CompileRunning => trace.len() == 2 && releases(trace) == 0,
        StateView::ExecuteRunning => trace.len() <= 3 && releases(trace) == 0,
        StateView::Settled(_) => releases(trace) == 1,
        StateView::WorkspaceReleased(_) => releases(trace) == 1,
    }
    &&& state is Settled ==> forall|k: int| 0 <= k < trace.len() ==> !(#[trigger] trace[k] is Return)
}

/// Every run has that shape.
proof fn lemma_shaped(x: ExecutorView, ws: WorkspaceView, events: Seq<EventView>)
    ensures
        shaped(x, ws, events, run(x, ws, events).0, run(x, ws, events).1),
    decreases events.len(),
{
    if events.len() == 0 {
    } else {
        let earlier = events.drop_last();
        let before = run(x, ws, earlier);
        let next = transition(x, ws, before.0, events.last());
        let trace = before.1.push(next.1);
        lemma_shaped(x, ws, earlier);
        assert(run(x, ws, events) == (next.0, trace));
        assert(trace.drop_last() =~= before.1);
        assert(trace.last() == next.1);
        assert forall|k: int| 0 <= k < before.1.len() implies trace[k] == before.1[k]
            && events[k] == earlier[k] && #[trigger] trace.take(k) == before.1.take(k) by {
            assert(trace.take(k) =~= before.1.take(k));
        }
        assert(trace.take(before.1.len() as int) =~= before.1);
        assert(shaped(x, ws, events, next.0, trace));
    }
}

/// The workspace is released exactly once. No run asks for the release
/// twice; the release has been asked for exactly where the result is
/// fixed; it names the two paths of the workspace; and a result is handed
/// out only after it, and is the one that the run then stays with.
pub proof fn lemma_released_exactly_once(x: ExecutorView, ws: WorkspaceView, events: Seq<EventView>)
    ensures
        run(x, ws, events).1.len() == events.len(),
        releases(run(x, ws, events).1) <= 1,
        releases(run(x, ws, events).1) == 1 <==> !is_open(run(x, ws, events).0),
        forall|k: int|
            0 <= k < events.len() && #[trigger] run(x, ws, events).1[k] is Release ==> run(
                x,
                ws,
                events,
            ).1[k] == (ActionView::Release {
                source_path: ws.source_path,
                target_path: ws.target_path,
            }),
        forall|k: int|
            0 <= k < events.len() && #[trigger] run(x, ws, events).1[k] is Return ==> releases(
                run(x, ws, events).1.take(k),
            ) == 1 && run(x, ws, events).0 == StateView::WorkspaceReleased(
                run(x, ws, events).1[k]->Return_0,
            ),
{
    lemma_shaped(x, ws, events);
}

/// One request writes one source file: the write is asked for in answer to
/// the first event and never again, and it names the root of the workspace,
/// its source path and the submitted code.
pub proof fn lemma_source_written_first(
    x: ExecutorView,
    ws: WorkspaceView,
    events: Seq<EventView>,
    k: int,
)
    requires
        0 <= k < events.len(),
        run(x, ws, events).1[k] is WriteSource,
    ensures
        k == 0,
        events[0] is Start,
        run(x, ws, events).1[k] == (ActionView::WriteSource {
            root: ws.root,
            path: ws.source_path,
            code: x.content.code,
        }),
{
    lemma_shaped(x, ws, events);
    lemma_first_step(x, ws, events);
}

/// The first action of a run answers the first event from the state of a
/// new request.
proof fn lemma_first_step(x: ExecutorView, ws: WorkspaceView, events: Seq<EventView>)
    requires
        events.len() > 0,
    ensures
        run(x, ws, events).1.len() == events.len(),
        run(x, ws, events).1[0] == transition(x, ws, StateView::Created, events[0]).1,
    decreases events.len(),
{
    let earlier = events.drop_last();
    lemma_shaped(x, ws, events);
    lemma_shaped(x, ws, earlier);
    if earlier.len() > 0 {
        lemma_first_step(x, ws, earlier);
        assert(earlier[0] == events[0]);
    } else {
        assert(run(x, ws, earlier).0 == StateView::Created);
    }
}

/// The execute stage of a compiled language starts only in answer to a
/// compiler that succeeded: the action before it started the compile stage,
/// and the event that it answers reports exit code zero.
pub proof fn lemma_compile_gates_execute(
    x: ExecutorView,
    ws: WorkspaceView,
    events: Seq<EventView>,
    k: int,
)
    requires
        x.compile_cmd is Some,
        0 <= k < events.len(),
        is_run(run(x, ws, events).1[k], Stage::Execute),
    ensures
        k >= 1,
        is_run(run(x, ws, events).1[k - 1], Stage::Compile),
        is_success(events[k]),
{
    lemma_shaped(x, ws, events);
}

/// Where the compile stage was started and did not succeed, the execute
/// stage is never started, whatever comes after.
pub proof fn lemma_failed_compile_ends_request(
    x: ExecutorView,
    ws: WorkspaceView,
    events: Seq<EventView>,
    j: int,
)
    requires
        0 <= j,
        j + 1 < events.len(),
        is_run(run(x, ws, events).1[j], Stage::Compile),
        !is_success(events[j + 1]),
    ensures
        forall|k: int|
            0 <= k < events.len() ==> !#[trigger] is_run(run(x, ws, events).1[k], Stage::Execute),
{
    lemma_shaped(x, ws, events);
}

/// Every process that a run starts has a program to run and the time
/// budget of the request, and its arguments are the expansion of the
/// template of its stage: no placeholder is resolved anywhere else.
pub proof fn lemma_runs_are_expansions(
    x: ExecutorView,
    ws: WorkspaceView,
    events: Seq<EventView>,
    k: int,
)
    requires
        0 <= k < events.len(),
        run(x, ws, events).1[k] is Run,
    ensures
        run(x, ws, events).1[k]->Run_timeout == x.content.timeout,
        run(x, ws, events).1[k]->Run_argv.len() > 0,
        run(x, ws, events).1[k]->Run_argv == stage_argv(
            x,
            ws,
            run(x, ws, events).1[k]->Run_stage,
        ),
{
    lemma_shaped(x, ws, events);
}

/// A stage that outlives its time budget settles the request on a timeout
/// of that stage, and the workspace is released next. The compile stage is
/// that of a language which has one.
pub proof fn lemma_timeout_settles(x: ExecutorView, ws: WorkspaceView, stage: Stage)
    requires
        stage == Stage::Compile ==> x.compile_cmd is Some,
    ensures
        transition(
            x,
            ws,
            match stage {
                Stage::Compile => StateView::CompileRunning,
                Stage::Execute => StateView::ExecuteRunning,
            },
            EventView::Finished(ProcessOutcomeView::TimedOut),
        ) == (
            StateView::Settled(ExecutionResultView::TimedOut(stage)),
            ActionView::Release { source_path: ws.source_path, target_path: ws.target_path },
        ),
{
}

/// Feeds the events, in their order, to a new request of `executor`, and
/// gives the state that it ends in and the actions that answered the
/// events. Nothing is run: this is the machine alone, as [`run`] models it.
pub fn replay<E: Execute>(executor: &E, workspace: &Workspace, events: Vec<Event>) -> (end: (
    State,
    Vec<Action>,
))
    ensures
        end.0@ == run(executor.model(), workspace@, events.deep_view()).0,
        end.1.deep_view() == run(executor.model(), workspace@, events.deep_view()).1,
{
    let ghost x = executor.model();
    let ghost given = events@;
    let ghost all = events.deep_view();
    let mut state = State::Created;
    let mut actions: Vec<Action> = Vec::new();
    assert(all.take(0) =~= Seq::<EventView>::empty());
    assert(actions.deep_view() =~= Seq::<ActionView>::empty());
    for event in it: events.into_iter()
        invariant
            x == executor.model(),
            it.seq() == given,
            all.len() == given.len(),
            forall|i: int| 0 <= i < given.len() ==> all[i] == (#[trigger] given[i])@,
            state@ == run(x, workspace@, all.take(it.index() as int)).0,
            actions.deep_view() == run(x, workspace@, all.take(it.index() as int)).1,
    {
        let ghost done = it.index() as int;
        let ghost answered = actions.deep_view();
        proof {
            assert(all.take(done + 1).drop_last() =~= all.take(done));
            assert(all.take(done + 1).last() == event@);
        }
        let (next, action) = executor.execute(workspace, state, event);
        state = next;
        actions.push(action);
        assert(actions.deep_view() =~= answered.push(action@));
    }
    assert(all.take(all.len() as int) =~= all);
    (state, actions)
}

} // verus!
