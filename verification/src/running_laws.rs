//! What running cells, asking the kernel and hearing from it do to the editor.

use vstd::prelude::*;

use crate::arranging_laws::{same_but_for_arrangement, the_focused_cell_is_selected};
use crate::cell::{CellOutputView, EditorCellView};
use crate::controls::Action;
use crate::events::{CellEvent, CellEventView};
use crate::execution::{
    failure_message, is_attempt, is_script, refusal_in, Attempt, CompletionErrorView, Cursor,
    FocusView,
};
use crate::ids::is_uuid_text;
use crate::kernel::{
    ExecutionStateView, KernelInfoView, KernelSpecificationView, KernelView, RunningKernel,
    RunningKernelView,
};
use crate::message::{
    execute_request, is_refusal, CompletionReplyView, Delivery, MessageContentView, RequestView,
    SentRequest,
};
use crate::session::launch_outcome;
use crate::state::EditorState;
use crate::text::joined;

verus! {

/// The places of a list at which something holds, in their order.
pub proof fn lemma_places(list: Seq<Seq<char>>, wanted: spec_fn(Seq<char>) -> bool) -> (places: Seq<
    int,
>)
    ensures
        places.len() == list.filter(wanted).len(),
        forall|k: int|
            0 <= k < places.len() ==> 0 <= #[trigger] places[k] < list.len() && wanted(
                list[places[k]],
            ) && list.filter(wanted)[k] == list[places[k]],
        forall|j: int, k: int|
            0 <= j < k < places.len() ==> #[trigger] places[j] < #[trigger] places[k],
        forall|i: int| 0 <= i < list.len() && wanted(#[trigger] list[i]) ==> places.contains(i),
    decreases list.len(),
{
    reveal(Seq::filter);
    if list.len() == 0 {
        Seq::empty()
    } else {
        let init = list.drop_last();
        let before = lemma_places(init, wanted);
        assert forall|k: int| 0 <= k < before.len() implies init[before[k]] == list[before[k]] by {}
        if wanted(list.last()) {
            let places = before.push(list.len() - 1);
            assert forall|i: int| 0 <= i < list.len() && wanted(
                #[trigger] list[i],
            ) implies places.contains(i) by {
                if i < init.len() {
                    assert(init[i] == list[i]);
                    assert(before.contains(i));
                    let k = choose|k: int| 0 <= k < before.len() && before[k] == i;
                    assert(places[k] == i);
                } else {
                    assert(places[places.len() - 1] == i);
                }
            }
            places
        } else {
            assert forall|i: int| 0 <= i < list.len() && wanted(
                #[trigger] list[i],
            ) implies before.contains(i) by {
                assert(i < init.len());
                assert(init[i] == list[i]);
            }
            before
        }
    }
}

/// A run of all cells takes the code cells in the order of the notebook: `places` are where they
/// stand, from the beginning to the end. Every place with a code cell is among them, once, and no
/// other place is. All of the cells wait, and nothing else of the editor changes.
pub proof fn all_code_cells_are_queued_in_order(state: EditorState) -> (places: Seq<int>)
    ensures
        state.code_cells().len() == places.len(),
        state.queued_all().queue.len() == places.len(),
        forall|k: int|
            0 <= k < places.len() ==> 0 <= #[trigger] places[k] < state.order.len()
                && state.code_cells()[k] == state.order[places[k]] && state.queued_all().queue[k]
                == state.order[places[k]],
        forall|j: int, k: int|
            0 <= j < k < places.len() ==> #[trigger] places[j] < #[trigger] places[k],
        forall|k: int|
            0 <= k < places.len() ==> state.cells.contains_key(state.order[#[trigger] places[k]])
                && state.cells[state.order[places[k]]] is Code,
        forall|i: int|
            0 <= i < state.order.len() && state.cells.contains_key(#[trigger] state.order[i])
                && state.cells[state.order[i]] is Code ==> places.contains(i),
        state.queued_all().running_all,
        (EditorState {
            queue: state.queue,
            running_all: state.running_all,
            ..state.queued_all()
        }) == state,
{
    let wanted = |id: Seq<char>| state.has_code_cell(id);
    let places = lemma_places(state.order, wanted);
    assert forall|k: int| 0 <= k < places.len() implies state.cells.contains_key(
        state.order[#[trigger] places[k]],
    ) && state.cells[state.order[places[k]]] is Code by {
        assert(wanted(state.order[places[k]]));
    }
    assert forall|i: int|
        0 <= i < state.order.len() && state.cells.contains_key(#[trigger] state.order[i])
            && state.cells[state.order[i]] is Code implies places.contains(i) by {
        assert(wanted(state.order[i]));
    }
    places
}

/// Of two code cells that stand one behind the other, each under an identifier of its own, the one
/// that stands first waits before the other when all cells are run.
pub proof fn the_queue_keeps_the_order(state: EditorState, i: int, j: int) -> (waits: (int, int))
    requires
        0 <= i < j < state.order.len(),
        state.cells.contains_key(state.order[i]),
        state.cells[state.order[i]] is Code,
        state.cells.contains_key(state.order[j]),
        state.cells[state.order[j]] is Code,
    ensures
        0 <= waits.0 < waits.1 < state.queued_all().queue.len(),
        state.queued_all().queue[waits.0] == state.order[i],
        state.queued_all().queue[waits.1] == state.order[j],
{
    let places = all_code_cells_are_queued_in_order(state);
    assert(places.contains(i) && places.contains(j));
    let a = choose|k: int| 0 <= k < places.len() && places[k] == i;
    let b = choose|k: int| 0 <= k < places.len() && places[k] == j;
    if b < a {
        assert(places[b] < places[a]);
    }
    (a, b)
}

/// A kernel that is sent a request has it behind those it was sent before; one whose channel has
/// not taken a request has not been sent it. What the kernel does and tells about itself stays, and
/// a kernel that does not run stays as it is.
pub proof fn requests_are_recorded(state: EditorState, request: SentRequest)
    ensures
        state.kernel matches KernelView::Running(kernel) ==> {
            &&& state.with_request(request).kernel matches KernelView::Running(after)
                && after.sent == kernel.sent.push(request) && after.refused == kernel.refused
                && after.execution_state == kernel.execution_state && after.kernel_info
                == kernel.kernel_info
            &&& state.with_refused(request).kernel matches KernelView::Running(after) && after.sent
                == kernel.sent && after.refused == kernel.refused.push(request)
                && after.execution_state == kernel.execution_state && after.kernel_info
                == kernel.kernel_info
        },
        !(state.kernel is Running) ==> state.with_request(request) == state && state.with_refused(
            request,
        ) == state,
        (EditorState { kernel: state.kernel, ..state.with_request(request) }) == state,
        (EditorState { kernel: state.kernel, ..state.with_refused(request) }) == state,
{
}

/// The request to run a cell asks for all of its text, and asks for it as a notebook does.
pub proof fn the_request_has_the_text_of_the_cell(
    state: EditorState,
    id: Seq<char>,
    attempt: Attempt,
)
    requires
        state.cells.contains_key(id),
        state.cells[id] is Code,
    ensures
        state.run_request(id, attempt).id == attempt.message_id,
        state.run_request(id, attempt).request == (RequestView::Execute {
            code: joined(state.cells[id]->Code_0.source),
            silent: false,
            store_history: true,
            allow_stdin: false,
            stop_on_error: true,
            has_user_expressions: false,
        }),
{
}

/// A code cell that begins to run is known by its request: the cell runs without outputs, no other
/// cell changes, and no other request is touched.
pub proof fn a_cell_that_begins_is_known_by_its_request(
    state: EditorState,
    id: Seq<char>,
    message_id: Seq<char>,
    other: Seq<char>,
)
    requires
        state.cells.contains_key(id),
        state.cells[id] is Code,
    ensures
        state.started(id, message_id).cells.contains_key(id),
        state.started(id, message_id).cells[id] is Code,
        state.started(id, message_id).cells[id]->Code_0.executing,
        state.started(id, message_id).cells[id]->Code_0.outputs.len() == 0,
        state.started(id, message_id).cells[id]->Code_0.source == state.cells[id]->Code_0.source,
        other != id ==> {
            &&& state.started(id, message_id).cells.contains_key(other)
                <==> state.cells.contains_key(other)
            &&& state.cells.contains_key(other) ==> state.started(id, message_id).cells[other]
                == state.cells[other]
        },
        state.started(id, message_id).executions.contains_key(message_id),
        state.started(id, message_id).executions[message_id] == id,
        other != message_id ==> {
            &&& state.started(id, message_id).executions.contains_key(other)
                <==> state.executions.contains_key(other)
            &&& state.executions.contains_key(other) ==> state.started(
                id,
                message_id,
            ).executions[other] == state.executions[other]
        },
        (EditorState {
            cells: state.cells,
            executions: state.executions,
            ..state.started(id, message_id)
        }) == state,
{
}

/// A code cell whose run has failed shows why and no longer runs, nothing is expected for it any
/// more, and the editor says why as well. No other cell changes, no other request is touched.
pub proof fn a_failed_run_is_told(
    state: EditorState,
    id: Seq<char>,
    message: Seq<char>,
    other: Seq<char>,
)
    ensures
        state.failed(id, message).last_error == Some(message),
        state.failed(id, message).stale,
        state.cells.contains_key(id) && state.cells[id] is Code ==> {
            &&& state.failed(id, message).cells.contains_key(id)
            &&& state.failed(id, message).cells[id] is Code
            &&& !state.failed(id, message).cells[id]->Code_0.executing
            &&& state.failed(id, message).cells[id]->Code_0.outputs
                == state.cells[id]->Code_0.outputs.push(CellOutputView::Message(message))
            &&& state.failed(id, message).cells[id]->Code_0.source == state.cells[id]->Code_0.source
        },
        !(state.cells.contains_key(id) && state.cells[id] is Code) ==> state.failed(
            id,
            message,
        ).cells == state.cells,
        other != id ==> {
            &&& state.failed(id, message).cells.contains_key(other) <==> state.cells.contains_key(
                other,
            )
            &&& state.cells.contains_key(other) ==> state.failed(id, message).cells[other]
                == state.cells[other]
        },
        state.failed(id, message).executions.contains_key(other) <==> state.executions.contains_key(
            other,
        ) && state.executions[other] != id,
        state.failed(id, message).executions.contains_key(other) ==> state.failed(
            id,
            message,
        ).executions[other] == state.executions[other],
        (EditorState {
            cells: state.cells,
            executions: state.executions,
            last_error: state.last_error,
            stale: state.stale,
            ..state.failed(id, message)
        }) == state,
{
}

/// What is said about a request that came to nothing names the reason that the channel gave, if
/// there was a channel at all.
pub proof fn failures_are_told_in_words(reason: String)
    ensures
        failure_message(Some(Err(reason))) == "Failed to execute cell: "@ + reason@,
        failure_message(None) == "Kernel is not running."@,
        refusal_in(Some(Err(reason))) == Some(reason@),
        refusal_in(Some(Ok(()))) is None,
        refusal_in(None) is None,
        is_refusal(reason@) ==> reason@ == "send failed because channel is full"@ || reason@
            == "send failed because receiver is gone"@,
{
}

/// What an attempt to run a code cell comes to. If the kernel takes the request, the cell runs for
/// it, and there is nothing to complain about. If not, the cell says why, behind nothing else, and
/// the next cell in the queue gets its turn.
pub proof fn an_attempt_to_run_a_cell(
    state: EditorState,
    id: Seq<char>,
    script: Seq<Attempt>,
    other: Seq<char>,
)
    requires
        state.cells.contains_key(id),
        state.cells[id] is Code,
        script.len() > 0,
    ensures
        state.kernel matches KernelView::Running(kernel) ==> (script[0].refusal is None ==> {
            let after = state.executed(id, script);
            &&& after.kernel matches KernelView::Running(now) && now.sent.len() == kernel.sent.len()
                + 1 && now.sent.last().id == script[0].message_id && now.sent.last().request
                == execute_request(joined(state.cells[id]->Code_0.source))
                && now.sent.drop_last() == kernel.sent && now.refused == kernel.refused
            &&& after.executions.contains_key(script[0].message_id)
            &&& after.executions[script[0].message_id] == id
            &&& after.cells[id] is Code && after.cells[id]->Code_0.executing
            &&& after.cells[id]->Code_0.source == state.cells[id]->Code_0.source
            &&& other != id ==> (after.cells.contains_key(other) <==> state.cells.contains_key(
                other,
            ))
            &&& other != id && state.cells.contains_key(other) ==> after.cells[other]
                == state.cells[other]
            &&& after.last_error is None
            &&& other != script[0].message_id ==> (after.executions.contains_key(other)
                <==> state.executions.contains_key(other))
            &&& other != script[0].message_id && state.executions.contains_key(other)
                ==> after.executions[other] == state.executions[other]
            &&& (EditorState {
                cells: state.cells,
                executions: state.executions,
                kernel: state.kernel,
                last_error: state.last_error,
                stale: state.stale,
                ..after
            }) == state
        }),
        state.kernel matches KernelView::Running(kernel) ==> (script[0].refusal matches Some(reason)
            ==> {
            let failed = state.run_failed(id, script[0]);
            &&& state.executed(id, script) == failed.advanced(script.drop_first())
            &&& failed.kernel matches KernelView::Running(now) && now.sent == kernel.sent
                && now.refused.len() == kernel.refused.len() + 1 && now.refused.last().id
                == script[0].message_id && now.refused.last().request == execute_request(
                joined(state.cells[id]->Code_0.source),
            )
            &&& failed.last_error == Some("Failed to execute cell: "@ + reason)
            &&& failed.cells[id] is Code && !failed.cells[id]->Code_0.executing
            &&& failed.cells[id]->Code_0.outputs == seq![
                CellOutputView::Message("Failed to execute cell: "@ + reason),
            ]
            &&& failed.cells[id]->Code_0.source == state.cells[id]->Code_0.source
            &&& other != id && state.cells.contains_key(other) ==> failed.cells[other]
                == state.cells[other]
            &&& failed.executions.contains_key(other) <==> state.executions.contains_key(other)
                && state.executions[other] != id && other != script[0].message_id
            &&& failed.executions.contains_key(other) ==> failed.executions[other]
                == state.executions[other]
            &&& (EditorState {
                cells: state.cells,
                executions: state.executions,
                kernel: state.kernel,
                last_error: state.last_error,
                stale: state.stale,
                ..failed
            }) == state
        }),
        !(state.kernel is Running) ==> {
            let failed = state.run_failed(id, script[0]);
            &&& state.executed(id, script) == failed.advanced(script.drop_first())
            &&& failed.kernel == state.kernel
            &&& failed.last_error == Some("Kernel is not running."@)
            &&& failed.cells[id] is Code && !failed.cells[id]->Code_0.executing
            &&& failed.cells[id]->Code_0.outputs == seq![
                CellOutputView::Message("Kernel is not running."@),
            ]
            &&& failed.cells[id]->Code_0.source == state.cells[id]->Code_0.source
            &&& other != id && state.cells.contains_key(other) ==> failed.cells[other]
                == state.cells[other]
            &&& failed.executions.contains_key(other) <==> state.executions.contains_key(other)
                && state.executions[other] != id && other != script[0].message_id
            &&& failed.executions.contains_key(other) ==> failed.executions[other]
                == state.executions[other]
            &&& (EditorState {
                cells: state.cells,
                executions: state.executions,
                kernel: state.kernel,
                last_error: state.last_error,
                stale: state.stale,
                ..failed
            }) == state
        },
{
    let none = Seq::<CellOutputView>::empty();
    if let KernelView::Running(kernel) = state.kernel {
        if script[0].refusal is None {
            let after = state.executed(id, script);
            assert(after.kernel->Running_0.sent.drop_last() =~= kernel.sent);
        } else {
            let message = "Failed to execute cell: "@ + script[0].refusal->0;
            assert(none.push(CellOutputView::Message(message)) =~= seq![
                CellOutputView::Message(message),
            ]);
        }
    } else {
        let message = "Kernel is not running."@;
        assert(none.push(CellOutputView::Message(message)) =~= seq![
            CellOutputView::Message(message),
        ]);
    }
}

/// What cannot be run is not run: without a code cell of that identifier nothing happens.
pub proof fn only_code_is_run(state: EditorState, id: Seq<char>, script: Seq<Attempt>)
    requires
        !(state.cells.contains_key(id) && state.cells[id] is Code),
    ensures
        state.executed(id, script) == state,
{
}

/// Whose turn it is: nobody's unless cells are run one after the other, nobody's while a cell runs,
/// otherwise that of the first in the queue, which leaves it. Without one the run is over.
pub proof fn whose_turn_it_is(state: EditorState, script: Seq<Attempt>, id: Seq<char>)
    ensures
        !state.running_all ==> state.advanced(script) == state,
        state.cells.contains_key(id) && state.cells[id] is Code && state.cells[id]->Code_0.executing
            ==> state.advanced(script) == state,
        state.running_all && !state.executing() && state.queue.len() == 0 ==> {
            &&& !state.advanced(script).running_all
            &&& state.advanced(script).stale
            &&& (EditorState {
                running_all: state.running_all,
                stale: state.stale,
                ..state.advanced(script)
            }) == state
        },
        state.running_all && !state.executing() && state.queue.len() > 0 ==> state.advanced(script)
            == (EditorState { queue: state.queue.skip(1), ..state }).executed(
            state.queue[0],
            script,
        ),
{
    if state.queue.len() > 0 {
        assert(state.queue.skip(1) =~= state.queue.drop_first());
    }
}

/// Running all cells begins with the first code cell of the notebook, if nothing runs: it is the
/// text of that cell which the kernel is asked to run first.
pub proof fn running_all_begins_with_the_first(
    state: EditorState,
    after: EditorState,
    focus: Option<FocusView>,
    i: int,
)
    requires
        state.performs(Action::RunAll, after, focus),
        !state.executing(),
        state.kernel is Running,
        0 <= i < state.order.len(),
        state.cells.contains_key(state.order[i]),
        state.cells[state.order[i]] is Code,
        forall|j: int|
            0 <= j < i ==> !(state.cells.contains_key(#[trigger] state.order[j])
                && state.cells[state.order[j]] is Code),
        after.kernel is Running,
        after.kernel->Running_0.refused == state.kernel->Running_0.refused,
    ensures
        focus is None,
        after.kernel->Running_0.sent.len() == state.kernel->Running_0.sent.len() + 1,
        after.kernel->Running_0.sent.last().request == execute_request(
            joined(state.cells[state.order[i]]->Code_0.source),
        ),
        after.executions.contains_key(after.kernel->Running_0.sent.last().id),
        after.executions[after.kernel->Running_0.sent.last().id] == state.order[i],
        after.cells[state.order[i]] is Code,
        after.cells[state.order[i]]->Code_0.executing,
        after.queue.len() + 1 == state.code_cells().len(),
        after.queue == state.code_cells().skip(1),
        after.running_all,
        after.order == state.order,
        after.selected == state.selected,
{
    let script = choose|script: Seq<Attempt>|
        is_script(script, state.code_cells().len()) && #[trigger] state.queued_all().advanced(
            script,
        ) == after;
    let places = all_code_cells_are_queued_in_order(state);
    assert(places.contains(i));
    let k = choose|k: int| 0 <= k < places.len() && places[k] == i;
    if k > 0 {
        assert(places[0] < places[k]);
        assert(state.cells.contains_key(state.order[places[0]]));
    }
    let queued = state.queued_all();
    assert(!queued.executing());
    let popped = EditorState { queue: queued.queue.drop_first(), ..queued };
    assert(queued.queue.first() == state.order[i]);
    assert(queued.queue.drop_first() =~= state.code_cells().skip(1));
    if script[0].refusal is Some {
        let failed = popped.run_failed(state.order[i], script[0]);
        refusals_stay(failed, script.drop_first());
    }
}

/// While a cell runs, running all cells lets them wait for it: all are queued and nothing is asked
/// of the kernel. Without code cells, and with nothing running, the run is over at once.
pub proof fn running_all_waits_for_the_running_cell(
    state: EditorState,
    after: EditorState,
    focus: Option<FocusView>,
)
    requires
        state.performs(Action::RunAll, after, focus),
    ensures
        focus is None,
        state.executing() ==> after.queue == state.code_cells() && after.running_all,
        state.executing() ==> (EditorState {
            queue: state.queue,
            running_all: state.running_all,
            ..after
        }) == state,
        !state.executing() && state.code_cells().len() == 0 ==> after.queue.len() == 0
            && !after.running_all && after.stale && (EditorState {
            queue: state.queue,
            running_all: state.running_all,
            stale: state.stale,
            ..after
        }) == state,
{
    let script = choose|script: Seq<Attempt>|
        is_script(script, state.code_cells().len()) && #[trigger] state.queued_all().advanced(
            script,
        ) == after;
    assert(state.queued_all().executing() == state.executing());
}

/// Whatever becomes of the queue, no record of a refused request is lost.
proof fn refusals_stay(state: EditorState, script: Seq<Attempt>)
    requires
        state.kernel is Running,
    ensures
        state.advanced(script).kernel is Running,
        state.advanced(script).kernel->Running_0.refused.len()
            >= state.kernel->Running_0.refused.len(),
    decreases state.queue.len(),
{
    if state.running_all && !state.executing() && state.queue.len() > 0 {
        let popped = EditorState { queue: state.queue.drop_first(), ..state };
        let id = state.queue.first();
        if popped.has_code_cell(id) && script.first().refusal is Some {
            let failed = popped.run_failed(id, script.first());
            refusals_stay(failed, script.drop_first());
        }
    }
}

/// Running the selected cell, when it is a code cell and a kernel runs, runs that cell. Either the
/// kernel takes the request: then the cell runs for it, and what the kernel was sent last is the
/// text of that cell. Or it does not: then the cell says why. Either way no other cell changes,
/// nothing waits for its turn any more, and order and selection stay.
pub proof fn the_selected_cell_is_run(
    state: EditorState,
    after: EditorState,
    focus: Option<FocusView>,
    other: Seq<char>,
)
    requires
        state.runs_selected(after, focus),
        state.selected < state.order.len(),
        state.cells.contains_key(state.order[state.selected as int]),
        state.cells[state.order[state.selected as int]] is Code,
        state.kernel is Running,
    ensures
        focus is None,
        after.kernel is Running,
        after.cells[state.order[state.selected as int]] is Code,
        after.cells[state.order[state.selected as int]]->Code_0.source
            == state.cells[state.order[state.selected as int]]->Code_0.source,
        ({
            let id = state.order[state.selected as int];
            let before = state.kernel->Running_0;
            let now = after.kernel->Running_0;
            let request = RequestView::Execute {
                code: joined(state.cells[id]->Code_0.source),
                silent: false,
                store_history: true,
                allow_stdin: false,
                stop_on_error: true,
                has_user_expressions: false,
            };
            ||| {
                &&& now.sent.len() == before.sent.len() + 1
                &&& now.sent.drop_last() == before.sent
                &&& now.sent.last().request == request
                &&& now.refused == before.refused
                &&& after.cells[id]->Code_0.executing
                &&& after.cells[id]->Code_0.outputs.len() == 0
                &&& after.executions.contains_key(now.sent.last().id)
                &&& after.executions[now.sent.last().id] == id
                &&& after.last_error is None
            }
            ||| {
                &&& now.sent == before.sent
                &&& now.refused.len() == before.refused.len() + 1
                &&& now.refused.drop_last() == before.refused
                &&& now.refused.last().request == request
                &&& !after.cells[id]->Code_0.executing
                &&& after.last_error is Some
                &&& after.cells[id]->Code_0.outputs == seq![
                    CellOutputView::Message(after.last_error->0),
                ]
                &&& (after.last_error->0 == "Failed to execute cell: "@
                    + "send failed because channel is full"@ || after.last_error->0
                    == "Failed to execute cell: "@ + "send failed because receiver is gone"@)
                &&& !after.executions.contains_value(id)
            }
        }),
        other != state.order[state.selected as int] ==> (after.cells.contains_key(other)
            <==> state.cells.contains_key(other)),
        other != state.order[state.selected as int] && state.cells.contains_key(other)
            ==> after.cells[other] == state.cells[other],
        after.kernel->Running_0.execution_state == state.kernel->Running_0.execution_state,
        after.kernel->Running_0.kernel_info == state.kernel->Running_0.kernel_info,
        after.queue.len() == 0,
        !after.running_all,
        (EditorState {
            cells: state.cells,
            executions: state.executions,
            kernel: state.kernel,
            last_error: state.last_error,
            stale: state.stale,
            queue: state.queue,
            running_all: state.running_all,
            ..after
        }) == state,
{
    let id = state.order[state.selected as int];
    let script = choose|script: Seq<Attempt>|
        is_script(script, 1) && #[trigger] state.stopped().executed(id, script) == after;
    let attempt = script[0];
    assert(is_attempt(attempt));
    an_attempt_to_run_a_cell(state.stopped(), id, script, other);
    let before = state.kernel->Running_0;
    let now = after.kernel->Running_0;
    if attempt.refusal is None {
        assert(now.sent.drop_last() =~= before.sent);
    } else {
        assert(now.refused.drop_last() =~= before.refused);
    }
}

/// Without a kernel the selected code cell says that there is none, and no other cell changes.
pub proof fn the_selected_cell_is_not_run_without_a_kernel(
    state: EditorState,
    after: EditorState,
    focus: Option<FocusView>,
    other: Seq<char>,
)
    requires
        state.runs_selected(after, focus),
        state.selected < state.order.len(),
        state.cells.contains_key(state.order[state.selected as int]),
        state.cells[state.order[state.selected as int]] is Code,
        !(state.kernel is Running),
    ensures
        focus is None,
        after.kernel == state.kernel,
        after.cells[state.order[state.selected as int]] is Code,
        !after.cells[state.order[state.selected as int]]->Code_0.executing,
        after.cells[state.order[state.selected as int]]->Code_0.source
            == state.cells[state.order[state.selected as int]]->Code_0.source,
        after.cells[state.order[state.selected as int]]->Code_0.outputs == seq![
            CellOutputView::Message("Kernel is not running."@),
        ],
        after.last_error == Some("Kernel is not running."@),
        other != state.order[state.selected as int] && state.cells.contains_key(other)
            ==> after.cells[other] == state.cells[other],
        after.queue.len() == 0,
        !after.running_all,
        (EditorState {
            cells: state.cells,
            executions: state.executions,
            last_error: state.last_error,
            stale: state.stale,
            queue: state.queue,
            running_all: state.running_all,
            ..after
        }) == state,
{
    let id = state.order[state.selected as int];
    let script = choose|script: Seq<Attempt>|
        is_script(script, 1) && #[trigger] state.stopped().executed(id, script) == after;
    an_attempt_to_run_a_cell(state.stopped(), id, script, other);
}

/// Running a Markdown cell that is edited shows its text and moves on to the next cell, also at the
/// end, where a new one is added under an identifier that no cell has. No other cell changes, and
/// the kernel is asked for nothing.
pub proof fn markdown_is_run_by_showing_it(
    state: EditorState,
    after: EditorState,
    focus: Option<FocusView>,
    other: Seq<char>,
)
    requires
        state.wf(),
        state.runs_selected(after, focus),
        state.order.len() < usize::MAX,
        state.selected < state.order.len(),
        state.cells[state.order[state.selected as int]] is Markdown,
        state.cells[state.order[state.selected as int]]->Markdown_0.editing,
        after.drawn.len() > state.drawn.len() ==> !state.order.contains(after.drawn.last()),
    ensures
        after.cells[state.order[state.selected as int]] is Markdown,
        !after.cells[state.order[state.selected as int]]->Markdown_0.editing,
        after.cells[state.order[state.selected as int]]->Markdown_0.rendered == joined(
            state.cells[state.order[state.selected as int]]->Markdown_0.source,
        ),
        after.cells[state.order[state.selected as int]]->Markdown_0.source
            == state.cells[state.order[state.selected as int]]->Markdown_0.source,
        state.order.contains(other) && other != state.order[state.selected as int]
            ==> after.cells[other] == state.cells[other],
        after.selected == state.selected + 1,
        state.selected + 1 < state.order.len() ==> after.order == state.order && after.drawn
            == state.drawn,
        state.selected + 1 < state.order.len() && state.cells[state.order[state.selected + 1]]
            is Code ==> focus == Some(
            FocusView { cell_id: state.order[state.selected + 1], cursor: Cursor::Unmoved },
        ),
        state.selected + 1 < state.order.len() && !(state.cells[state.order[state.selected
            + 1]] is Code) ==> focus is None,
        state.selected + 1 == state.order.len() ==> {
            &&& focus is None
            &&& after.order.drop_last() == state.order
            &&& after.order.last() == after.drawn.last()
            &&& after.drawn.len() == state.drawn.len() + 1
            &&& after.cells[after.drawn.last()] is Code
            &&& after.cells[after.drawn.last()]->Code_0.source.len() == 0
        },
        after.queue.len() == 0,
        !after.running_all,
        same_but_for_arrangement(
            EditorState { queue: state.queue, running_all: state.running_all, ..after },
            state,
        ),
{
    let id = state.order[state.selected as int];
    assert(state.order.contains(id));
    let cell = state.cells[id]->Markdown_0.with_editing(false).reparsed();
    let shown = state.stopped().with_cell(id, EditorCellView::Markdown(cell));
    moving_on_goes_to_the_next_cell(shown, after, focus, other);
    if state.selected + 1 < state.order.len() {
        assert(state.order.contains(state.order[state.selected + 1]));
    }
}

/// Running a Markdown cell that is not edited, a raw cell, or nothing at all only ends a run of all
/// cells.
pub proof fn what_there_is_nothing_to_run_of(
    state: EditorState,
    after: EditorState,
    focus: Option<FocusView>,
)
    requires
        state.runs_selected(after, focus),
        state.selected >= state.order.len() || match state.cells[state.order[
            state.selected as int
        ]] {
            EditorCellView::Code(_) => false,
            EditorCellView::Markdown(cell) => !cell.editing,
            EditorCellView::Raw(_) => true,
        },
    ensures
        focus is None,
        after.queue.len() == 0,
        !after.running_all,
        (EditorState { queue: state.queue, running_all: state.running_all, ..after }) == state,
{
}

/// Moving on selects the next cell and puts the cursor into it if it is one of code. Behind the
/// last one an empty code cell is added under an identifier that is drawn for it.
pub proof fn moving_on_goes_to_the_next_cell(
    state: EditorState,
    after: EditorState,
    focus: Option<FocusView>,
    other: Seq<char>,
)
    requires
        state.moves_on(after, focus),
        state.order.len() < usize::MAX,
    ensures
        state.selected + 1 < state.order.len() ==> {
            &&& after.selected == state.selected + 1
            &&& after.order == state.order
            &&& after.cells == state.cells
            &&& after.stale
            &&& after.drawn == state.drawn
            &&& focus is Some <==> (state.cells.contains_key(state.order[state.selected + 1])
                && state.cells[state.order[state.selected + 1]] is Code)
            &&& focus is Some ==> focus->0.cell_id == state.order[state.selected + 1]
                && focus->0.cursor == Cursor::Unmoved
        },
        state.selected + 1 == state.order.len() || (state.order.len() == 0 && state.selected == 0)
            ==> {
            &&& focus is None
            &&& after.order.len() == state.order.len() + 1
            &&& after.order.drop_last() == state.order
            &&& after.order.last() == after.drawn.last()
            &&& after.drawn.drop_last() == state.drawn
            &&& after.drawn.len() == state.drawn.len() + 1
            &&& after.selected == state.order.len()
            &&& after.cells[after.drawn.last()] is Code
            &&& after.cells[after.drawn.last()]->Code_0.source.len() == 0
            &&& other != after.drawn.last() ==> (after.cells.contains_key(other)
                <==> state.cells.contains_key(other))
            &&& other != after.drawn.last() && state.cells.contains_key(other)
                ==> after.cells[other] == state.cells[other]
        },
        state.order.len() > 0 && state.selected >= state.order.len() ==> after == state && focus
            is None,
        same_but_for_arrangement(after, state),
{
    if state.selected + 1 == state.order.len() || state.order.len() == 0 && state.selected == 0 {
        assert(after.order.drop_last() =~= state.order);
        assert(after.drawn.drop_last() =~= state.drawn);
    }
}

/// Stopping a run of all cells stops that, and nothing else.
pub proof fn stopping_only_empties_the_queue(state: EditorState)
    ensures
        state.stopped().queue.len() == 0,
        !state.stopped().running_all,
        (EditorState { queue: state.queue, running_all: state.running_all, ..state.stopped() })
            == state,
{
}

/// Giving everything up ends each run with the reason, empties the queue and forgets all requests.
/// Cells that do not run keep their outputs; texts, order, selection and kernel stay.
pub proof fn giving_up_ends_every_run(state: EditorState, reason: Seq<char>, id: Seq<char>)
    ensures
        state.cancelled(reason).executions.dom().is_empty(),
        state.cancelled(reason).completions.dom().is_empty(),
        state.cancelled(reason).queue.len() == 0,
        !state.cancelled(reason).running_all,
        state.cancelled(reason).cells.contains_key(id) <==> state.cells.contains_key(id),
        state.cells.contains_key(id) ==> match (
            state.cells[id],
            state.cancelled(reason).cells[id],
        ) {
            (EditorCellView::Code(before), EditorCellView::Code(cell)) => {
                &&& !cell.executing
                &&& cell.source == before.source
                &&& cell.execution_count == before.execution_count
                &&& before.executing ==> cell.outputs == before.outputs.push(
                    CellOutputView::Message(reason),
                )
                &&& !before.executing ==> cell.outputs == before.outputs
            },
            (EditorCellView::Markdown(before), EditorCellView::Markdown(cell)) => cell == before,
            (EditorCellView::Raw(before), EditorCellView::Raw(cell)) => cell == before,
            _ => false,
        },
        (EditorState {
            executions: state.executions,
            completions: state.completions,
            queue: state.queue,
            running_all: state.running_all,
            cells: state.cells,
            ..state.cancelled(reason)
        }) == state,
{
    assert(state.cancelled(reason).executions.dom() =~= Set::<Seq<char>>::empty());
    assert(state.cancelled(reason).completions.dom() =~= Set::<Seq<char>>::empty());
}

/// Interrupting asks the kernel to stop, if there is one, and changes no cell, no order, nothing
/// that waits and nothing that is expected. What comes of it is told.
pub proof fn interrupting_only_asks(state: EditorState, attempt: Attempt)
    ensures
        state.kernel matches KernelView::Running(kernel) ==> (attempt.refusal is None ==> {
            let after = state.interrupted(attempt);
            &&& after.kernel matches KernelView::Running(now) && now.sent == kernel.sent.push(
                SentRequest { id: attempt.message_id, request: RequestView::Interrupt },
            ) && now.refused == kernel.refused
            &&& after.last_error is None
        }),
        state.kernel matches KernelView::Running(kernel) ==> (attempt.refusal matches Some(reason)
            ==> {
            let after = state.interrupted(attempt);
            &&& after.kernel matches KernelView::Running(now) && now.refused == kernel.refused.push(
                SentRequest { id: attempt.message_id, request: RequestView::Interrupt },
            ) && now.sent == kernel.sent
            &&& after.last_error == Some("Failed to interrupt kernel: "@ + reason)
        }),
        !(state.kernel is Running) ==> state.interrupted(attempt).kernel == state.kernel
            && state.interrupted(attempt).last_error == Some("Kernel is not running."@),
        state.interrupted(attempt).stale,
        (EditorState {
            kernel: state.kernel,
            last_error: state.last_error,
            stale: state.stale,
            ..state.interrupted(attempt)
        }) == state,
{
}

/// Asking for completions of a code cell sends the code and the place of the cursor to the kernel,
/// and whoever asked waits for the answer under the identifier of the request. If the request comes
/// to nothing, nobody waits for it, and the editor says why. No cell changes.
pub proof fn asking_for_completions(
    state: EditorState,
    id: Seq<char>,
    code: Seq<char>,
    cursor_pos: usize,
    attempt: Attempt,
    channel: int,
    other: Seq<char>,
)
    ensures
        !(state.cells.contains_key(id) && state.cells[id] is Code) ==> state.asked(
            id,
            code,
            cursor_pos,
            attempt,
            channel,
        ) == state && state.answer(id, attempt, channel) == Err::<int, CompletionErrorView>(
            CompletionErrorView::NotACodeCell,
        ),
        state.cells.contains_key(id) && state.cells[id] is Code ==> (
        state.kernel matches KernelView::Running(kernel) ==> (attempt.refusal is None ==> {
            let after = state.asked(id, code, cursor_pos, attempt, channel);
            &&& after.kernel matches KernelView::Running(now) && now.sent == kernel.sent.push(
                SentRequest {
                    id: attempt.message_id,
                    request: RequestView::Complete { code, cursor_pos },
                },
            ) && now.refused == kernel.refused
            &&& after.completions.contains_key(attempt.message_id)
            &&& after.completions[attempt.message_id] == channel
            &&& after.last_error is None
            &&& state.answer(id, attempt, channel) == Ok::<int, CompletionErrorView>(channel)
        })),
        state.cells.contains_key(id) && state.cells[id] is Code ==> (
        state.kernel matches KernelView::Running(kernel) ==> (attempt.refusal matches Some(reason)
            ==> {
            let after = state.asked(id, code, cursor_pos, attempt, channel);
            &&& after.kernel matches KernelView::Running(now) && now.refused == kernel.refused.push(
                SentRequest {
                    id: attempt.message_id,
                    request: RequestView::Complete { code, cursor_pos },
                },
            ) && now.sent == kernel.sent
            &&& !after.completions.contains_key(attempt.message_id)
            &&& after.last_error == Some("Failed to request completions: "@ + reason)
            &&& state.answer(id, attempt, channel) == Err::<int, CompletionErrorView>(
                CompletionErrorView::Refused(reason),
            )
        })),
        state.cells.contains_key(id) && state.cells[id] is Code && !(state.kernel is Running) ==> {
            let after = state.asked(id, code, cursor_pos, attempt, channel);
            &&& after.kernel == state.kernel
            &&& !after.completions.contains_key(attempt.message_id)
            &&& after.last_error == Some("Kernel is not running."@)
            &&& state.answer(id, attempt, channel) == Err::<int, CompletionErrorView>(
                CompletionErrorView::KernelNotRunning,
            )
        },
        other != attempt.message_id ==> {
            let after = state.asked(id, code, cursor_pos, attempt, channel);
            &&& after.completions.contains_key(other) <==> state.completions.contains_key(other)
            &&& state.completions.contains_key(other) ==> after.completions[other]
                == state.completions[other]
        },
        (EditorState {
            kernel: state.kernel,
            completions: state.completions,
            last_error: state.last_error,
            stale: state.stale,
            ..state.asked(id, code, cursor_pos, attempt, channel)
        }) == state,
{
}

/// Why there will be no completions, in words.
pub proof fn missing_completions_are_told_in_words(reason: Seq<char>)
    ensures
        CompletionErrorView::NotACodeCell.in_words() == "completion requested for non-code cell"@,
        CompletionErrorView::Refused(reason).in_words() == "failed to request completions: "@
            + reason,
        CompletionErrorView::KernelNotRunning.in_words() == "kernel is not running"@,
{
}

/// A question that nobody waits for any more is forgotten; the others are not.
pub proof fn one_question_is_forgotten(state: EditorState, request: Seq<char>, other: Seq<char>)
    ensures
        !state.without_question(request).completions.contains_key(request),
        other != request ==> {
            &&& state.without_question(request).completions.contains_key(other)
                <==> state.completions.contains_key(other)
            &&& state.completions.contains_key(other) ==> state.without_question(
                request,
            ).completions[other] == state.completions[other]
        },
        (EditorState { completions: state.completions, ..state.without_question(request) })
            == state,
{
}

/// A message that answers the request of a code cell goes to that cell, whatever the message says,
/// whatever is selected and whatever else the editor shows; unless it brings completions. A message
/// that answers no such request goes to no cell.
pub proof fn messages_go_to_the_cell_that_asked(
    state: EditorState,
    parent: Seq<char>,
    content: MessageContentView,
)
    ensures
        state.executions.contains_key(parent) && state.cells.contains_key(state.executions[parent])
            && state.cells[state.executions[parent]] is Code && !(content is CompleteReply)
            ==> state.message_target(Some(parent), content) == Some(state.executions[parent]),
        !(state.executions.contains_key(parent) && state.cells.contains_key(
            state.executions[parent],
        ) && state.cells[state.executions[parent]] is Code) ==> state.message_target(
            Some(parent),
            content,
        ) is None,
        content is CompleteReply ==> state.message_target(Some(parent), content) is None,
        state.message_target(None, content) is None,
{
}

/// Where a message goes depends on which request it answers and on nothing else: two editors that
/// wait for the same requests and have the same cells send it to the same cell, and messages other
/// than completions that answer one request go to one cell.
pub proof fn only_the_request_tells_where_a_message_goes(
    a: EditorState,
    b: EditorState,
    parent: Option<Seq<char>>,
    content: MessageContentView,
    other: MessageContentView,
)
    requires
        a.executions == b.executions,
        a.cells == b.cells,
        !(content is CompleteReply),
        !(other is CompleteReply),
    ensures
        a.message_target(parent, content) == b.message_target(parent, other),
{
}

/// The cell that has begun to run for a request gets the messages that answer it.
pub proof fn a_running_cell_hears_from_the_kernel(
    state: EditorState,
    id: Seq<char>,
    message_id: Seq<char>,
    content: MessageContentView,
)
    requires
        state.cells.contains_key(id),
        state.cells[id] is Code,
        !(content is CompleteReply),
    ensures
        state.started(id, message_id).message_target(Some(message_id), content) == Some(id),
{
}

/// A kernel that tells its state is in that state, if it runs. When it is idle the next cell in the
/// queue gets its turn, at no other news of its state.
pub proof fn the_state_of_the_kernel_is_noted(
    state: EditorState,
    told: ExecutionStateView,
    script: Seq<Attempt>,
    parent: Option<Seq<char>>,
    awaited: bool,
)
    ensures
        ({
            let news = MessageContentView::Status(told);
            let noted = EditorState { kernel: state.kernel.with_execution_state(told), ..state };
            &&& state.routed(parent, news, script, awaited) == state.informed(news, script)
            &&& state.informed(news, script).stale
            &&& told is Idle ==> (EditorState {
                stale: noted.advanced(script).stale,
                ..state.informed(news, script)
            }) == noted.advanced(script)
            &&& !(told is Idle) ==> (EditorState {
                stale: state.stale,
                ..state.informed(news, script)
            }) == noted
        }),
        state.kernel matches KernelView::Running(kernel) ==> {
            &&& state.kernel.with_execution_state(told) matches KernelView::Running(now)
                && now.execution_state == told && now.kernel_info == kernel.kernel_info && now.sent
                == kernel.sent && now.refused == kernel.refused
        },
        !(state.kernel is Running) ==> state.kernel.with_execution_state(told) == state.kernel,
{
}

/// What a kernel tells about itself is noted with it, if it runs, and is something to save. Nothing
/// else changes.
pub proof fn what_the_kernel_tells_is_noted(
    state: EditorState,
    info: KernelInfoView,
    script: Seq<Attempt>,
    parent: Option<Seq<char>>,
    awaited: bool,
)
    ensures
        ({
            let news = MessageContentView::KernelInfoReply(info);
            let after = state.informed(news, script);
            &&& state.routed(parent, news, script, awaited) == after
            &&& after.stale
            &&& after.metadata_dirty
            &&& (EditorState {
                kernel: state.kernel,
                metadata_dirty: state.metadata_dirty,
                stale: state.stale,
                ..after
            }) == state
            &&& state.kernel matches KernelView::Running(kernel) ==> {
                &&& after.kernel matches KernelView::Running(now) && now.kernel_info == Some(info)
                    && now.execution_state == kernel.execution_state && now.sent == kernel.sent
                    && now.refused == kernel.refused
            }
            &&& !(state.kernel is Running) ==> after.kernel == state.kernel
        }),
{
}

/// Messages that say something else, such as an output, change nothing but what their cell does
/// with them.
pub proof fn other_messages_are_for_the_cell(
    state: EditorState,
    script: Seq<Attempt>,
    parent: Option<Seq<char>>,
    awaited: bool,
)
    ensures
        state.routed(parent, MessageContentView::Other, script, awaited) == state,
        state.routed(parent, MessageContentView::ExecuteReply, script, awaited) == state,
        state.concluded(parent, MessageContentView::Other, script) == state,
{
}

/// When the kernel is done with a cell, nothing more is expected for that request and for no other,
/// and the next cell in the queue gets its turn. Other messages end nothing.
pub proof fn a_done_cell_makes_room(
    state: EditorState,
    parent: Seq<char>,
    content: MessageContentView,
    script: Seq<Attempt>,
    other: Seq<char>,
)
    ensures
        ({
            let without = EditorState { executions: state.executions.remove(parent), ..state };
            &&& state.concluded(Some(parent), MessageContentView::ExecuteReply, script)
                == without.advanced(script)
            &&& !without.executions.contains_key(parent)
            &&& other != parent ==> (without.executions.contains_key(other)
                <==> state.executions.contains_key(other))
        }),
        !(content is ExecuteReply) ==> state.concluded(Some(parent), content, script) == state,
        state.concluded(None, content, script) == state,
{
}

/// Completions go to whoever asked under that request, and nobody waits for them any more. If the
/// one who asked is gone, they are lost, and the editor says so. Without a question they change
/// nothing.
pub proof fn completions_are_handed_over(
    state: EditorState,
    request: Seq<char>,
    reply: CompletionReplyView,
    awaited: bool,
    script: Seq<Attempt>,
    other: Seq<char>,
)
    ensures
        state.routed(Some(request), MessageContentView::CompleteReply(reply), script, awaited)
            == state.completed(request, reply, awaited),
        state.routed(None, MessageContentView::CompleteReply(reply), script, awaited) == state,
        !state.completions.contains_key(request) ==> state.completed(request, reply, awaited)
            == state,
        state.completions.contains_key(request) ==> {
            let after = state.completed(request, reply, awaited);
            let delivery = Delivery { channel: state.completions[request], reply };
            &&& !after.completions.contains_key(request)
            &&& awaited ==> after.delivered == state.delivered.push(delivery) && after.lost
                == state.lost && after.last_error == state.last_error
            &&& !awaited ==> after.lost == state.lost.push(delivery) && after.delivered
                == state.delivered && after.last_error == Some(
                "Notebook completion request was dropped before reply arrived."@,
            )
        },
        other != request ==> {
            let after = state.completed(request, reply, awaited);
            &&& after.completions.contains_key(other) <==> state.completions.contains_key(other)
            &&& state.completions.contains_key(other) ==> after.completions[other]
                == state.completions[other]
        },
        (EditorState {
            completions: state.completions,
            delivered: state.delivered,
            lost: state.lost,
            last_error: state.last_error,
            stale: state.stale,
            ..state.completed(request, reply, awaited)
        }) == state,
{
}

/// While a kernel starts, the editor uses it and has something to save; the cells and what waits
/// stay as they are.
pub proof fn a_starting_kernel_is_in_use(
    state: EditorState,
    specification: KernelSpecificationView,
    kernel: KernelView,
)
    ensures
        state.launching(specification).specification == Some(specification),
        state.launching(specification).kernel is Starting,
        state.launching(specification).metadata_dirty,
        state.launching(specification).stale,
        (EditorState {
            specification: state.specification,
            kernel: state.kernel,
            metadata_dirty: state.metadata_dirty,
            stale: state.stale,
            ..state.launching(specification)
        }) == state,
        state.with_kernel(kernel).kernel == kernel,
        (EditorState { kernel: state.kernel, ..state.with_kernel(kernel) }) == state,
{
}

/// Restarting gives everything up and starts the kernel that is in use anew. Without one nothing
/// happens.
pub proof fn restarting_starts_the_same_kernel(
    state: EditorState,
    after: EditorState,
    focus: Option<FocusView>,
)
    requires
        state.performs(Action::RestartKernel, after, focus),
    ensures
        focus is None,
        state.specification is None ==> after == state,
        state.specification is Some ==> {
            &&& after.specification == state.specification
            &&& after.kernel is Starting
            &&& after.executions.dom().is_empty()
            &&& after.completions.dom().is_empty()
            &&& after.queue.len() == 0
            &&& !after.running_all
            &&& after.order == state.order
            &&& after.selected == state.selected
            &&& after.last_error == state.last_error
            &&& after.cells == state.cancelled(
                "Kernel restarted before execution finished."@,
            ).cells
        },
{
    if state.specification is Some {
        giving_up_ends_every_run(
            state,
            "Kernel restarted before execution finished."@,
            Seq::empty(),
        );
    }
}

/// Asking to interrupt asks for nothing else.
pub proof fn interrupting_by_action_only_asks(
    state: EditorState,
    after: EditorState,
    focus: Option<FocusView>,
)
    requires
        state.performs(Action::InterruptKernel, after, focus),
    ensures
        focus is None,
        after.cells == state.cells,
        after.order == state.order,
        after.queue == state.queue,
        after.running_all == state.running_all,
        after.executions == state.executions,
        state.kernel is Running && after.last_error is None ==> after.kernel is Running
            && after.kernel->Running_0.sent.len() == state.kernel->Running_0.sent.len() + 1
            && after.kernel->Running_0.sent.last().request is Interrupt,
        !(state.kernel is Running) ==> after.last_error == Some("Kernel is not running."@),
{
    let attempt = choose|attempt: Attempt|
        is_attempt(attempt) && #[trigger] state.interrupted(attempt) == after;
    interrupting_only_asks(state, attempt);
}

/// The button that runs a cell runs that cell, whichever cell is selected: when a kernel runs and
/// takes what it is sent, it is sent the text of that cell, and that cell runs. No other cell
/// changes, and selection and order stay.
pub proof fn the_run_button_runs_its_cell(
    state: EditorState,
    cell_id: Seq<char>,
    id: Seq<char>,
    after: EditorState,
    other: Seq<char>,
)
    requires
        state.hears(cell_id, CellEventView::Run(id), after),
        state.cells.contains_key(cell_id),
        state.cells[cell_id] is Code,
        state.cells.contains_key(id),
        state.cells[id] is Code,
        state.kernel is Running,
        after.kernel is Running,
        after.kernel->Running_0.refused == state.kernel->Running_0.refused,
    ensures
        after.kernel->Running_0.sent.len() == state.kernel->Running_0.sent.len() + 1,
        after.kernel->Running_0.sent.drop_last() == state.kernel->Running_0.sent,
        after.kernel->Running_0.sent.last().request == execute_request(
            joined(state.cells[id]->Code_0.source),
        ),
        after.executions.contains_key(after.kernel->Running_0.sent.last().id),
        after.executions[after.kernel->Running_0.sent.last().id] == id,
        after.cells[id] is Code,
        after.cells[id]->Code_0.executing,
        other != id && state.cells.contains_key(other) ==> after.cells[other]
            == state.cells[other],
        after.selected == state.selected,
        after.order == state.order,
        after.queue == state.queue,
        after.running_all == state.running_all,
        after.last_error is None,
{
    let script = choose|script: Seq<Attempt>|
        is_script(script, state.queue.len() + 1) && #[trigger] state.executed(id, script) == after;
    an_attempt_to_run_a_cell(state, id, script, other);
    if script[0].refusal is Some {
        refusals_stay(state.run_failed(id, script[0]), script.drop_first());
    }
}

/// A cell whose text gets the focus is selected, and so is a code cell that gets it otherwise; a
/// Markdown cell that is no longer edited, or that is to be run, shows its text as it is now. What
/// else cells report changes nothing.
pub proof fn reports_of_cells_are_heard(
    state: EditorState,
    cell_id: Seq<char>,
    event: CellEventView,
    after: EditorState,
    other: Seq<char>,
)
    requires
        state.hears(cell_id, event, after),
        state.order.contains(cell_id) <==> state.cells.contains_key(cell_id),
        state.order.len() <= usize::MAX,
    ensures
        !state.cells.contains_key(cell_id) ==> after == state,
        state.cells.contains_key(cell_id) && state.cells[cell_id] is Raw ==> after == state,
        state.cells.contains_key(cell_id) && ((event is TextFocused && !(state.cells[cell_id]
            is Raw)) || (event is FocusedIn && state.cells[cell_id] is Code)) ==> {
            &&& after.selected < state.order.len()
            &&& state.order[after.selected as int] == cell_id
            &&& after.stale
            &&& (EditorState { selected: state.selected, stale: state.stale, ..after }) == state
        },
        state.cells.contains_key(cell_id) && state.cells[cell_id] is Markdown && (event is Run
            || event is FinishedEditing) ==> {
            &&& after.cells[cell_id] is Markdown
            &&& after.cells[cell_id]->Markdown_0.rendered == joined(
                state.cells[cell_id]->Markdown_0.source,
            )
            &&& after.cells[cell_id]->Markdown_0.source == state.cells[cell_id]->Markdown_0.source
            &&& after.cells[cell_id]->Markdown_0.editing == state.cells[cell_id]->Markdown_0.editing
            &&& other != cell_id && state.cells.contains_key(other) ==> after.cells[other]
                == state.cells[other]
            &&& (EditorState { cells: state.cells, ..after }) == state
        },
        state.cells.contains_key(cell_id) && state.cells[cell_id] is Markdown && event is FocusedIn
            ==> after == state,
        state.cells.contains_key(cell_id) && state.cells[cell_id] is Code && event
            is FinishedEditing ==> after == state,
{
    the_focused_cell_is_selected(state, cell_id);
}

/// The report of a cell stands for what it says.
pub proof fn reports_are_their_fields(event: CellEvent)
    ensures
        match event {
            CellEvent::Run(id) => event@ == CellEventView::Run(id@),
            CellEvent::FocusedIn => event@ is FocusedIn,
            CellEvent::TextFocused => event@ is TextFocused,
            CellEvent::FinishedEditing => event@ is FinishedEditing,
        },
{
}

/// A kernel that was started runs, and there is nothing to complain about; one that could not be
/// started is in error, and the editor says why. The cells and what waits stay as they are.
pub proof fn how_starting_a_kernel_ends(
    state: EditorState,
    kernel: RunningKernelView,
    error: Seq<char>,
)
    ensures
        state.launched(Ok(kernel)).kernel == KernelView::Running(kernel),
        state.launched(Ok(kernel)).last_error is None,
        state.launched(Ok(kernel)).stale,
        (EditorState {
            kernel: state.kernel,
            last_error: state.last_error,
            stale: state.stale,
            ..state.launched(Ok(kernel))
        }) == state,
        state.launched(Err(error)).kernel == KernelView::ErroredLaunch(error),
        state.launched(Err(error)).last_error == Some("Failed to launch kernel: "@ + error),
        state.launched(Err(error)).stale,
        (EditorState {
            kernel: state.kernel,
            last_error: state.last_error,
            stale: state.stale,
            ..state.launched(Err(error))
        }) == state,
{
}

/// What starting a kernel came to is the kernel, or what went wrong.
pub proof fn launches_end_one_way_or_the_other(kernel: RunningKernel, error: String)
    ensures
        launch_outcome(Ok(kernel)) == Ok::<RunningKernelView, Seq<char>>(kernel@),
        launch_outcome(Err(error)) == Err::<RunningKernelView, Seq<char>>(error@),
{
}

/// Another kernel, the same kernel anew, or none because it broke down: either way nothing is
/// expected and nothing waits any more, no cell runs, and each that ran says what happened. Texts,
/// order and selection stay.
pub proof fn a_kernel_that_goes_leaves_nothing_running(
    state: EditorState,
    specification: KernelSpecificationView,
    error: Seq<char>,
    id: Seq<char>,
    after: EditorState,
    remark: Seq<char>,
)
    requires
        (after == state.changed_to(specification) && remark
            == "Kernel changed before execution finished."@) || (after == state.restarted(
            specification,
        ) && remark == "Kernel restarted before execution finished."@) || (after == state.errored(
            error,
        ) && remark == "Kernel errored before execution finished."@),
    ensures
        after.executions.dom().is_empty(),
        after.completions.dom().is_empty(),
        after.queue.len() == 0,
        !after.running_all,
        after.order == state.order,
        after.selected == state.selected,
        after.cells.contains_key(id) <==> state.cells.contains_key(id),
        state.cells.contains_key(id) && state.cells[id] is Code ==> {
            &&& after.cells[id] is Code
            &&& !after.cells[id]->Code_0.executing
            &&& after.cells[id]->Code_0.source == state.cells[id]->Code_0.source
            &&& state.cells[id]->Code_0.executing ==> after.cells[id]->Code_0.outputs
                == state.cells[id]->Code_0.outputs.push(CellOutputView::Message(remark))
            &&& !state.cells[id]->Code_0.executing ==> after.cells[id]->Code_0.outputs
                == state.cells[id]->Code_0.outputs
        },
        state.cells.contains_key(id) && !(state.cells[id] is Code) ==> after.cells[id]
            == state.cells[id],
        state.changed_to(specification).specification == Some(specification),
        state.changed_to(specification).kernel is Starting,
        state.changed_to(specification).last_error == state.last_error,
        state.restarted(specification).specification == Some(specification),
        state.restarted(specification).kernel is Starting,
        state.restarted(specification).last_error == state.last_error,
        state.errored(error).specification == state.specification,
        state.errored(error).kernel == KernelView::ErroredLaunch(error),
        state.errored(error).last_error == Some("Kernel error: "@ + error),
        state.errored(error).metadata_dirty == state.metadata_dirty,
{
    giving_up_ends_every_run(state, remark, id);
}

/// Each attempt has a request of its own form of identifier, and what is refused is refused because
/// the channel is full or because nobody listens any more.
pub proof fn attempts_are_known_and_refused_with_a_reason(
    attempt: Attempt,
    script: Seq<Attempt>,
    attempts: nat,
    i: int,
)
    requires
        is_attempt(attempt),
        is_script(script, attempts),
    ensures
        is_uuid_text(attempt.message_id),
        attempt.refusal matches Some(reason) ==> reason == "send failed because channel is full"@
            || reason == "send failed because receiver is gone"@,
        script.len() >= attempts,
        0 <= i < script.len() ==> is_attempt(script[i]),
{
}

/// What the kernel puts out for a cell is handled by that cell: taking note of an output changes
/// nothing, and it goes to the code cell whose request it answers, whichever cell is selected.
pub proof fn outputs_reach_the_cell_that_asked(
    state: EditorState,
    parent: Seq<char>,
    script: Seq<Attempt>,
    awaited: bool,
)
    requires
        state.executions.contains_key(parent),
        state.cells.contains_key(state.executions[parent]),
        state.cells[state.executions[parent]] is Code,
    ensures
        state.routed(
            Some(parent),
            MessageContentView::Other,
            script,
            awaited,
        ).message_target(Some(parent), MessageContentView::Other) == Some(state.executions[parent]),
        state.routed(
            Some(parent),
            MessageContentView::ExecuteReply,
            script,
            awaited,
        ).message_target(Some(parent), MessageContentView::ExecuteReply) == Some(
            state.executions[parent],
        ),
{
}

/// What the kernel says about the request that was sent for the selected cell reaches the selected
/// cell.
pub proof fn the_selected_cell_hears_from_the_kernel(
    state: EditorState,
    after: EditorState,
    focus: Option<FocusView>,
    content: MessageContentView,
)
    requires
        state.runs_selected(after, focus),
        state.selected < state.order.len(),
        state.cells.contains_key(state.order[state.selected as int]),
        state.cells[state.order[state.selected as int]] is Code,
        state.kernel is Running,
        after.kernel is Running,
        after.kernel->Running_0.refused == state.kernel->Running_0.refused,
        !(content is CompleteReply),
    ensures
        after.message_target(Some(after.kernel->Running_0.sent.last().id), content) == Some(
            state.order[state.selected as int],
        ),
{
    the_selected_cell_is_run(state, after, focus, Seq::empty());
    assert(after.kernel->Running_0.refused.len() == state.kernel->Running_0.refused.len());
}

} // verus!
