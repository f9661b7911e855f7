//! What holds of the editor as a whole.

use vstd::prelude::*;

use crate::cell::{
    lemma_shown_outputs_are_saved, loaded, CellOutputView, CellTest, CellUpdateView, EditorCellView,
};
use crate::completion::{is_replaced_range, ReplacedRange};
use crate::editor::{
    duplicated, lemma_without_id, loaded_cells, opened_editor, stored_cells, without_id,
};
use crate::execution::{Attempt, FocusView};
use crate::item::NotebookItemView;
use crate::json::{
    cells_take_ids, document_cells, has_id, lacking, lemma_lacking_grows, takes_members,
    with_cell_ids, with_id, JsonView,
};
use crate::kernel::{
    is_pick, is_resolved, lower_languages, lower_names, preferred_language, preferred_name,
    KernelSpecificationView, KernelStatus,
};
use crate::message::{
    execute_request, CompletionReplyView, Delivery, MessageContentView, SentRequest,
};
use crate::notebook::{cell_ids, CellContentView, KernelspecMetadataView, NotebookCellView};
use crate::state::EditorState;
use crate::text::{
    byte_offset_of, is_character_offset, joined, lemma_prefix_monotonic, lowercase, prefix_bytes,
};

verus! {

/// An editor that has just been saved has nothing to save.
pub proof fn saving_leaves_nothing_to_save(state: EditorState)
    ensures
        !state.saved().dirty(),
{
    let saved = state.saved();
    assert forall|id: Seq<char>|
        #[trigger] saved.cells.contains_key(id) implies !saved.cells[id].dirty() by {
        assert(state.cells.contains_key(id));
    }
}

/// Saving does not change the notebook.
pub proof fn saving_keeps_the_notebook(state: EditorState, item: NotebookItemView)
    requires
        state.wf(),
    ensures
        state.saved().notebook(item) == state.notebook(item),
{
    let saved = state.saved();
    assert forall|i: int|
        0 <= i < state.order.len() implies saved.cells[#[trigger] state.order[i]].stored()
        == state.cells[state.order[i]].stored() by {
        assert(state.order.contains(state.order[i]));
    }
    assert(saved.notebook(item).cells =~= state.notebook(item).cells);
}

/// Loading a cell and storing it again gives the same cell.
pub proof fn loading_keeps_a_cell(cell: NotebookCellView, language: Option<u64>)
    ensures
        loaded(cell, language).stored() == cell,
        loaded(cell, language).cell_id() == cell.id,
        !loaded(cell, language).dirty(),
{
    match cell.content {
        CellContentView::Code { execution_count, outputs } => {
            lemma_shown_outputs_are_saved(outputs);
        },
        _ => {},
    }
}

/// Of cells with distinct identifiers each is filed as it was loaded.
pub proof fn distinct_cells_are_all_filed(
    cells: Seq<NotebookCellView>,
    language: Option<u64>,
    i: int,
)
    requires
        cell_ids(cells).no_duplicates(),
        0 <= i < cells.len(),
    ensures
        loaded_cells(cells, language).contains_key(cells[i].id),
        loaded_cells(cells, language)[cells[i].id] == loaded(cells[i], language),
    decreases cells.len(),
{
    if i < cells.len() - 1 {
        let init = cells.drop_last();
        assert(cell_ids(init) =~= cell_ids(cells).drop_last());
        assert(cell_ids(init).no_duplicates());
        distinct_cells_are_all_filed(init, language, i);
        assert(cell_ids(cells)[i] != cell_ids(cells)[cells.len() - 1]);
    }
}

/// A notebook that is opened and saved again has the same cells.
pub proof fn opening_keeps_the_cells(
    worktree_id: u64,
    item: NotebookItemView,
    language: Option<u64>,
)
    requires
        cell_ids(item.notebook.cells).no_duplicates(),
    ensures
        opened_editor(worktree_id, item.notebook.cells, language).notebook(item).cells
            == item.notebook.cells,
{
    let cells = item.notebook.cells;
    let opened = opened_editor(worktree_id, cells, language);
    assert forall|i: int| 0 <= i < cells.len() implies #[trigger] stored_cells(
        opened.order,
        opened.cells,
    )[i] == cells[i] by {
        distinct_cells_are_all_filed(cells, language, i);
        loading_keeps_a_cell(cells[i], language);
    }
    assert(stored_cells(opened.order, opened.cells) =~= cells);
}

/// No cell that has just been loaded has something to save.
proof fn loaded_cells_are_clean(cells: Seq<NotebookCellView>, language: Option<u64>)
    ensures
        !CellTest::Dirty.holds_of_some(loaded_cells(cells, language)),
    decreases cells.len(),
{
    if cells.len() > 0 {
        let init = cells.drop_last();
        loaded_cells_are_clean(init, language);
        loading_keeps_a_cell(cells.last(), language);
        let map = loaded_cells(cells, language);
        assert forall|id: Seq<char>| #[trigger] map.contains_key(id) implies !map[id].dirty() by {
            if id != cells.last().id {
                assert(loaded_cells(init, language).contains_key(id));
            }
        }
    }
}

/// An editor has nothing to save when it has just opened a notebook. (Starting a kernel then
/// changes the metadata.)
pub proof fn opening_leaves_nothing_to_save(
    worktree_id: u64,
    cells: Seq<NotebookCellView>,
    language: Option<u64>,
)
    ensures
        !opened_editor(worktree_id, cells, language).dirty(),
{
    loaded_cells_are_clean(cells, language);
}

/// An editor has nothing to save when it has just been reloaded, and it shows the cells that the
/// file holds.
pub proof fn reloading_shows_the_file(
    state: EditorState,
    item: NotebookItemView,
    cells: Seq<NotebookCellView>,
)
    requires
        cell_ids(cells).no_duplicates(),
    ensures
        !state.reloaded(cells).dirty(),
        state.reloaded(cells).notebook(item).cells == cells,
{
    let after = state.reloaded(cells);
    let fresh = loaded_cells(cells, state.language);
    loaded_cells_are_clean(cells, state.language);
    assert forall|id: Seq<char>|
        #[trigger] after.cells.contains_key(id) implies !after.cells[id].dirty() by {
        assert(fresh.contains_key(id));
    }
    assert forall|i: int| 0 <= i < cells.len() implies #[trigger] stored_cells(
        after.order,
        after.cells,
    )[i] == cells[i] by {
        distinct_cells_are_all_filed(cells, state.language, i);
        loading_keeps_a_cell(cells[i], state.language);
    }
    assert(stored_cells(after.order, after.cells) =~= cells);
}

/// Moving a cell up and down again leaves everything in its place.
pub proof fn moving_up_and_down_cancels(state: EditorState)
    requires
        0 < state.selected < state.order.len(),
    ensures
        state.moved_up().moved_down() == state.notified(),
{
    let back = state.moved_up().moved_down();
    assert(back.order =~= state.order);
}

/// Moving a cell down and up again leaves everything in its place.
pub proof fn moving_down_and_up_cancels(state: EditorState)
    requires
        state.selected + 1 < state.order.len(),
        state.order.len() <= usize::MAX,
    ensures
        state.moved_down().moved_up() == state.notified(),
{
    let back = state.moved_down().moved_up();
    assert(back.order =~= state.order);
}

/// Exchanging two elements of a sequence keeps what it holds.
proof fn exchanging_keeps_the_elements(s: Seq<Seq<char>>, i: int, j: int)
    requires
        0 <= i < s.len(),
        0 <= j < s.len(),
    ensures
        s.update(i, s[j]).update(j, s[i]).to_multiset() == s.to_multiset(),
{
    broadcast use vstd::seq_lib::group_to_multiset_ensures;

    let once = s.update(i, s[j]);
    assert(once.to_multiset() =~= s.to_multiset().insert(s[j]).remove(s[i]));
    let twice = once.update(j, s[i]);
    assert(twice.to_multiset() =~= once.to_multiset().insert(s[i]).remove(once[j]));
    assert(twice.to_multiset() =~= s.to_multiset());
}

/// Moving a cell neither loses nor adds one, and changes none.
pub proof fn moving_keeps_the_cells(state: EditorState)
    requires
        state.selected == 0 || state.selected < state.order.len(),
    ensures
        state.moved_up().order.to_multiset() == state.order.to_multiset(),
        state.moved_up().cells == state.cells,
        state.moved_down().order.to_multiset() == state.order.to_multiset(),
        state.moved_down().cells == state.cells,
{
    if state.selected > 0 {
        exchanging_keeps_the_elements(state.order, state.selected as int, state.selected - 1);
    }
    if state.selected + 1 < state.order.len() {
        exchanging_keeps_the_elements(state.order, state.selected as int, state.selected + 1);
    }
}

/// What an order loses with an identifier that it does not have: nothing.
proof fn nothing_to_lose(order: Seq<Seq<char>>, id: Seq<char>)
    requires
        !order.contains(id),
    ensures
        without_id(order, id) == order,
    decreases order.len(),
{
    if order.len() > 0 {
        let init = order.drop_last();
        assert forall|i: int| 0 <= i < init.len() implies init[i] != id by {
            assert(order[i] != id);
        }
        assert(order[order.len() - 1] != id);
        nothing_to_lose(init, id);
        assert(init.push(order.last()) =~= order);
    }
}

/// What an order loses with an identifier that was inserted into it.
proof fn losing_what_was_inserted(order: Seq<Seq<char>>, id: Seq<char>, index: int)
    requires
        !order.contains(id),
        0 <= index <= order.len(),
    ensures
        without_id(order.insert(index, id), id) == order,
    decreases order.len(),
{
    let longer = order.insert(index, id);
    if index == order.len() {
        assert(longer.drop_last() =~= order);
        nothing_to_lose(order, id);
    } else {
        let init = order.drop_last();
        assert forall|i: int| 0 <= i < init.len() implies init[i] != id by {
            assert(order[i] != id);
        }
        losing_what_was_inserted(init, id, index);
        assert(longer.drop_last() =~= init.insert(index, id));
        assert(longer.last() == order.last());
        assert(order[order.len() - 1] != id);
        assert(init.push(order.last()) =~= order);
    }
}

/// Adding a cell under a new identifier and deleting it again leaves the cells as they were.
pub proof fn deleting_undoes_inserting(state: EditorState, index: usize, cell: EditorCellView)
    requires
        state.wf(),
        index <= state.order.len(),
        state.order.len() < usize::MAX,
        !state.order.contains(cell.cell_id()),
    ensures
        state.with_inserted(index, cell).without_selected().order == state.order,
        state.with_inserted(index, cell).without_selected().cells == state.cells,
{
    let id = cell.cell_id();
    let longer = state.with_inserted(index, cell);
    losing_what_was_inserted(state.order, id, index as int);
    assert(longer.order[index as int] == id);
    assert(!state.cells.contains_key(id));
    assert(longer.without_selected().cells =~= state.cells);
}

/// Deleting a copy that has just been made leaves the cells as they were, unless the identifier
/// that the copy got was in use.
pub proof fn deleting_undoes_duplicating(state: EditorState, id: Seq<char>)
    requires
        state.wf(),
        state.selected < state.order.len() < usize::MAX,
        !state.order.contains(id),
    ensures
        state.with_duplicate(id).without_selected().order == state.order,
        state.with_duplicate(id).without_selected().cells == state.cells,
{
    let cell = duplicated(state.cells[state.order[state.selected as int]].stored(), id);
    deleting_undoes_inserting(state, state.insertion_index(), loaded(cell, state.language));
}

/// A cell that is added leaves the others as they were, in their order.
pub proof fn inserting_keeps_the_others(
    state: EditorState,
    index: usize,
    cell: EditorCellView,
    other: Seq<char>,
)
    requires
        state.wf(),
        index <= state.order.len(),
        state.cells.contains_key(other),
        other != cell.cell_id(),
    ensures
        state.with_inserted(index, cell).cells.contains_key(other),
        state.with_inserted(index, cell).cells[other] == state.cells[other],
        state.with_inserted(index, cell).order.remove(index as int) == state.order,
{
    assert(state.order.insert(index as int, cell.cell_id()).remove(index as int) =~= state.order);
}

/// A duplicate has the text and the metadata of its cell, but nothing of what came of running it.
pub proof fn duplicates_have_not_been_run(
    cell: EditorCellView,
    id: Seq<char>,
    language: Option<u64>,
)
    ensures
        loaded(duplicated(cell.stored(), id), language).stored().source == cell.stored().source,
        loaded(duplicated(cell.stored(), id), language).stored().metadata
            == cell.stored().metadata,
        loaded(duplicated(cell.stored(), id), language).cell_id() == id,
        !loaded(duplicated(cell.stored(), id), language).has_outputs(),
        !loaded(duplicated(cell.stored(), id), language).executing(),
        loaded(duplicated(cell.stored(), id), language) is Code <==> cell is Code,
{
    loading_keeps_a_cell(duplicated(cell.stored(), id), language);
}

/// As many cells as places, where no identifier occurs twice.
pub proof fn distinct_cells_fill_the_order(state: EditorState)
    requires
        state.wf(),
        state.order.no_duplicates(),
    ensures
        state.cell_count() == state.order.len(),
{
    state.order.unique_seq_to_set();
    assert(state.order.to_set() =~= state.cells.dom()) by {
        assert forall|id: Seq<char>|
            state.order.to_set().contains(id) <==> state.cells.dom().contains(
            id,
        ) by {
            assert(state.order.contains(id) <==> state.cells.contains_key(id));
        }
    }
}

/// The selection stays a place in the order, whichever cell is selected, moved or deleted, as long
/// as no identifier occurs twice.
pub proof fn the_selection_stays_valid(state: EditorState)
    requires
        state.wf(),
        state.selection_valid(),
        state.order.no_duplicates(),
        state.order.len() <= usize::MAX,
    ensures
        state.selected_next().selection_valid(),
        state.selected_previous().selection_valid(),
        state.selected_first().selection_valid(),
        state.selected_last().selection_valid(),
        state.moved_up().selection_valid(),
        state.moved_down().selection_valid(),
        state.moved_on().selection_valid(),
        state.without_selected().selection_valid(),
{
    distinct_cells_fill_the_order(state);
    if state.selected < state.order.len() {
        let id = state.order[state.selected as int];
        lemma_without_id(state.order, id, id);
    }
}

/// Moving on to the next cell leaves a cell selected, also at the end, where one is added.
pub proof fn moving_on_stays_in_the_order(
    state: EditorState,
    after: EditorState,
    focus: Option<FocusView>,
)
    requires
        state.moves_on(after, focus),
        state.selection_valid(),
        state.order.len() < usize::MAX,
    ensures
        after.selected < after.order.len(),
        after.order.len() == state.order.len() || after.order.len() == state.order.len() + 1,
{
}

/// A cell that is added is selected.
pub proof fn a_new_cell_is_selected(state: EditorState, index: usize, cell: EditorCellView)
    requires
        index <= state.order.len(),
    ensures
        state.with_inserted(index, cell).selection_valid(),
        state.with_inserted(index, cell).selected_id() == Some(cell.cell_id()),
{
}

/// Whoever presses the key for the next cell often enough gets to the last one, and stays there.
pub proof fn the_last_cell_has_no_next(state: EditorState)
    requires
        state.wf(),
        state.selected + 1 == state.cell_count(),
    ensures
        state.selected_next().selected == state.selected,
{
}

/// After a change of the history every text is recorded in it, and so are the texts of cells that
/// join later.
pub proof fn the_history_reaches_every_text(
    state: EditorState,
    history: u64,
    id: Seq<char>,
    joining: EditorCellView,
    cells: Seq<NotebookCellView>,
)
    ensures
        state.cells.contains_key(id) ==> recorded(
            state.with_nav_history(history).cells[id],
            history,
        ),
        state.nav_history == Some(history) ==> recorded(state.joined_cell(joining), history),
        state.nav_history == Some(history) && state.reloaded(cells).cells.contains_key(id)
            ==> recorded(state.reloaded(cells).cells[id], history),
{
}

/// The text of a cell, if it has an editor, is recorded in the history.
pub open spec fn recorded(cell: EditorCellView, history: u64) -> bool {
    match cell {
        EditorCellView::Code(cell) => cell.nav_history == Some(history),
        EditorCellView::Markdown(cell) => cell.nav_history == Some(history),
        EditorCellView::Raw(_) => true,
    }
}

/// Every code cell is shown in the language of the notebook.
pub open spec fn speaks_one_language(state: EditorState) -> bool {
    forall|id: Seq<char>| #[trigger]
        state.has_code_cell(id) ==> state.cells[id]->Code_0.language == state.language
}

/// Every code cell is shown in the language of the notebook once that is known, also those that
/// are added or loaded later.
pub proof fn code_is_shown_in_one_language(
    state: EditorState,
    language: Option<u64>,
    index: usize,
    cell: NotebookCellView,
    cells: Seq<NotebookCellView>,
)
    ensures
        speaks_one_language(state.with_language(language)),
        speaks_one_language(state) ==> speaks_one_language(
            state.with_inserted(index, loaded(cell, state.language)),
        ),
        speaks_one_language(state.reloaded(cells)),
{
    let changed = state.with_language(language);
    assert forall|id: Seq<char>|
        #[trigger] changed.has_code_cell(id) implies changed.cells[id]->Code_0.language
        == language by {
        assert(state.has_code_cell(id));
    }
    let inserted = state.with_inserted(index, loaded(cell, state.language));
    if speaks_one_language(state) {
        assert forall|id: Seq<char>|
            #[trigger] inserted.has_code_cell(id) implies inserted.cells[id]->Code_0.language
            == state.language by {
            if id != loaded(cell, state.language).cell_id() {
                assert(state.has_code_cell(id));
            }
        }
    }
    let after = state.reloaded(cells);
    loaded_cells_speak(cells, state.language);
    assert forall|id: Seq<char>|
        #[trigger] after.has_code_cell(id) implies after.cells[id]->Code_0.language
        == state.language by {
        assert(loaded_cells(cells, state.language).contains_key(id));
    }
}

/// Each loaded code cell is shown in the given language.
proof fn loaded_cells_speak(cells: Seq<NotebookCellView>, language: Option<u64>)
    ensures
        forall|id: Seq<char>| #[trigger]
            loaded_cells(cells, language).contains_key(id) && loaded_cells(
                cells,
                language,
            )[id] is Code ==> loaded_cells(cells, language)[id]->Code_0.language == language,
    decreases cells.len(),
{
    if cells.len() > 0 {
        loaded_cells_speak(cells.drop_last(), language);
        let map = loaded_cells(cells, language);
        assert forall|id: Seq<char>|
            #[trigger] map.contains_key(id) && map[id] is Code implies map[id]->Code_0.language
            == language by {
            if id != cells.last().id {
                assert(loaded_cells(cells.drop_last(), language).contains_key(id));
            }
        }
    }
}

/// Where outputs have been cleared, no cell shows one, and there is nothing to clear.
pub proof fn clearing_leaves_no_outputs(state: EditorState)
    ensures
        !CellTest::HasOutputs.holds_of_some(
            state.with_update(CellUpdateView::ClearOutputs).cells,
        ),
        state.with_update(CellUpdateView::ClearOutputs).controls().run.second.disabled,
{
    let after = state.with_update(CellUpdateView::ClearOutputs);
    assert forall|id: Seq<char>|
        #[trigger] after.cells.contains_key(id) implies !after.cells[id].has_outputs() by {
        assert(state.cells.contains_key(id));
    }
}

/// Where everything has been given up, no cell is being run, none waits for its turn, and nobody
/// waits for an answer.
pub proof fn cancelling_leaves_nothing_pending(state: EditorState, reason: Seq<char>)
    ensures
        !state.cancelled(reason).executing(),
        state.cancelled(reason).executions == Map::<Seq<char>, Seq<char>>::empty(),
        state.cancelled(reason).completions == Map::<Seq<char>, int>::empty(),
        state.cancelled(reason).queue.len() == 0,
        !state.cancelled(reason).running_all,
{
    let after = state.cancelled(reason);
    assert forall|id: Seq<char>|
        #[trigger] after.cells.contains_key(id) implies !after.cells[id].executing() by {
        assert(state.cells.contains_key(id));
    }
}

/// A kernel that is started in place of another has nothing to do with what was asked of that one.
pub proof fn a_new_kernel_starts_afresh(
    state: EditorState,
    reason: Seq<char>,
    specification: KernelSpecificationView,
)
    ensures
        !state.cancelled(reason).launching(specification).executing(),
        state.cancelled(reason).launching(specification).executions == Map::<
            Seq<char>,
            Seq<char>,
        >::empty(),
        state.cancelled(reason).launching(specification).completions == Map::<
            Seq<char>,
            int,
        >::empty(),
        state.cancelled(reason).launching(specification).queue.len() == 0,
        state.cancelled(reason).launching(specification).kernel.status() == KernelStatus::Starting,
{
    cancelling_leaves_nothing_pending(state, reason);
    let cells = state.cancelled(reason).cells;
    assert(state.cancelled(reason).launching(specification).cells == cells);
}

/// A cell whose run is given up says why; the other cells keep their outputs.
pub proof fn cancelling_tells_the_reason(state: EditorState, reason: Seq<char>, id: Seq<char>)
    requires
        state.has_code_cell(id),
    ensures
        state.cancelled(reason).has_code_cell(id),
        state.cancelled(reason).cells[id]->Code_0.outputs == (if state.cells[id].executing() {
            state.cells[id]->Code_0.outputs.push(CellOutputView::Message(reason))
        } else {
            state.cells[id]->Code_0.outputs
        }),
{
}

/// Cells that are run one after the other wait for the one that is running.
pub proof fn the_queue_waits_for_the_running_cell(state: EditorState, script: Seq<Attempt>)
    requires
        state.executing(),
    ensures
        state.advanced(script) == state,
{
}

/// A cell that the kernel takes is running: the request for it is known, the kernel has been sent
/// its text, and nothing is wrong.
pub proof fn a_taken_cell_is_running(state: EditorState, id: Seq<char>, script: Seq<Attempt>)
    requires
        state.has_code_cell(id),
        state.kernel is Running,
        script.len() > 0,
        script.first().refusal is None,
    ensures
        state.executed(id, script).cells[id].executing(),
        !state.executed(id, script).cells[id].has_outputs(),
        state.executed(id, script).executions[script.first().message_id] == id,
        state.executed(id, script).kernel->Running_0.sent == state.kernel->Running_0.sent.push(
            SentRequest {
                id: script.first().message_id,
                request: execute_request(
                    joined(state.cells[id]->Code_0.source),
                ),
            },
        ),
        state.executed(id, script).last_error is None,
{
}

/// When no cell is running, the first cell of the queue gets its turn: it runs, and the others wait
/// behind it.
pub proof fn the_next_cell_gets_its_turn(state: EditorState, script: Seq<Attempt>)
    requires
        state.running_all,
        !state.executing(),
        state.queue.len() > 0,
        state.has_code_cell(state.queue.first()),
        state.kernel is Running,
        script.len() > 0,
        script.first().refusal is None,
    ensures
        state.advanced(script).running_all,
        state.advanced(script).cells[state.queue.first()].executing(),
        state.advanced(script).queue == state.queue.drop_first(),
        state.advanced(script).executions == state.executions.insert(
            script.first().message_id,
            state.queue.first(),
        ),
        state.advanced(script).kernel->Running_0.sent.last().request == execute_request(
            joined(state.cells[state.queue.first()]->Code_0.source),
        ),
{
}

/// A run of all cells is over when no cell is running and none waits for its turn.
pub proof fn an_empty_queue_ends_the_run(state: EditorState, script: Seq<Attempt>)
    requires
        !state.executing(),
        state.queue.len() == 0,
    ensures
        !state.advanced(script).running_all,
        state.advanced(script).cells == state.cells,
{
}

/// Whether cells are being run is decided by the cells alone.
proof fn executing_after_a_failure(
    state: EditorState,
    id: Seq<char>,
    attempt: Attempt,
)
    requires
        state.has_code_cell(id),
        !state.executing(),
    ensures
        !state.run_failed(id, attempt).executing(),
{
    let failed = state.run_failed(id, attempt);
    assert forall|other: Seq<char>|
        #[trigger] failed.cells.contains_key(other) implies !failed.cells[other].executing() by {
        if other != id {
            assert(state.cells.contains_key(other));
        }
    }
}

/// Without a kernel, a run of all queued cells is over at once: no cell is running and none waits.
/// Each cell of the queue says that the kernel is not running, and says nothing else; the other
/// cells stay as they were.
pub proof fn without_a_kernel_the_queue_runs_dry(state: EditorState, script: Seq<Attempt>)
    requires
        state.running_all,
        !state.executing(),
        !(state.kernel is Running),
        forall|i: int|
            0 <= i < state.queue.len() ==> state.has_code_cell(#[trigger] state.queue[i]),
    ensures
        !state.advanced(script).running_all,
        !state.advanced(script).executing(),
        state.advanced(script).queue.len() == 0,
        state.advanced(script).kernel == state.kernel,
        forall|id: Seq<char>| #[trigger]
            state.queue.contains(id) ==> state.advanced(script).has_code_cell(id)
                && state.advanced(script).cells[id]->Code_0.outputs == seq![
                CellOutputView::Message("Kernel is not running."@),
            ],
        forall|id: Seq<char>| #[trigger]
            state.cells.contains_key(id) && !state.queue.contains(id) ==> state.advanced(
                script,
            ).cells.contains_key(id) && state.advanced(script).cells[id] == state.cells[id],
        state.queue.len() > 0 ==> state.advanced(script).last_error == Some(
            "Kernel is not running."@,
        ),
        state.queue.len() == 0 ==> state.advanced(script).last_error == state.last_error,
    decreases state.queue.len(),
{
    if state.queue.len() > 0 {
        let head = state.queue.first();
        let tail = state.queue.drop_first();
        let popped = EditorState { queue: tail, ..state };
        let message = "Kernel is not running."@;
        let failed = popped.run_failed(head, script.first());
        assert(state.has_code_cell(state.queue[0]));
        assert(popped.has_code_cell(head));
        assert(!popped.executing());
        executing_after_a_failure(popped, head, script.first());
        assert forall|i: int| 0 <= i < failed.queue.len() implies failed.has_code_cell(
            #[trigger] failed.queue[i],
        ) by {
            assert(failed.queue[i] == state.queue[i + 1]);
        }
        let rest = script.drop_first();
        without_a_kernel_the_queue_runs_dry(failed, rest);
        let after = state.advanced(script);
        assert(after == failed.advanced(rest));
        assert(failed.cells[head]->Code_0.outputs =~= seq![CellOutputView::Message(message)]);
        assert forall|id: Seq<char>|
            #[trigger] state.queue.contains(id) implies after.has_code_cell(id)
            && after.cells[id]->Code_0.outputs == seq![CellOutputView::Message(message)] by {
            if !failed.queue.contains(id) {
                let i = choose|i: int| 0 <= i < state.queue.len() && state.queue[i] == id;
                if i > 0 {
                    assert(failed.queue[i - 1] == id);
                }
                assert(failed.cells.contains_key(id));
            }
        }
        assert forall|id: Seq<char>|
            #[trigger] state.cells.contains_key(id) && !state.queue.contains(
            id,
        ) implies after.cells.contains_key(id) && after.cells[id] == state.cells[id] by {
            if failed.queue.contains(id) {
                let i = choose|i: int| 0 <= i < failed.queue.len() && failed.queue[i] == id;
                assert(state.queue[i + 1] == id);
            }
            assert(state.queue[0] == head);
            assert(failed.cells.contains_key(id));
        }
    }
}

/// Running all cells without a kernel ends at once, and each code cell says that the kernel is not
/// running.
pub proof fn without_a_kernel_running_all_cells_fails(state: EditorState, script: Seq<Attempt>)
    requires
        !state.executing(),
        !(state.kernel is Running),
    ensures
        !state.queued_all().advanced(script).running_all,
        !state.queued_all().advanced(script).executing(),
        forall|id: Seq<char>| #[trigger]
            state.order.contains(id) && state.has_code_cell(id) ==> state.queued_all().advanced(
                script,
            ).cells[id]->Code_0.outputs == seq![CellOutputView::Message("Kernel is not running."@)],
{
    let queued = state.queued_all();
    assert(!queued.executing());
    assert forall|i: int| 0 <= i < queued.queue.len() implies queued.has_code_cell(
        #[trigger] queued.queue[i],
    ) by {
        code_cells_are_the_code_cells(state, queued.queue[i]);
        assert(queued.queue.contains(queued.queue[i]));
    }
    without_a_kernel_the_queue_runs_dry(queued, script);
    assert forall|id: Seq<char>|
        #[trigger] state.order.contains(id) && state.has_code_cell(id) implies queued.advanced(
        script,
    ).cells[id]->Code_0.outputs == seq![CellOutputView::Message("Kernel is not running."@)] by {
        code_cells_are_the_code_cells(state, id);
        assert(queued.queue.contains(id));
    }
}

/// The queue of a run of all cells has the code cells of the order and no others.
pub proof fn code_cells_are_the_code_cells(state: EditorState, id: Seq<char>)
    ensures
        state.code_cells().contains(id) <==> state.order.contains(id) && state.has_code_cell(id),
{
    let is_code = |id: Seq<char>| state.has_code_cell(id);
    filtered_elements(state.order, is_code, id);
}

/// What a filter keeps of a sequence.
proof fn filtered_elements(s: Seq<Seq<char>>, keep: spec_fn(Seq<char>) -> bool, x: Seq<char>)
    ensures
        s.filter(keep).contains(x) <==> s.contains(x) && keep(x),
    decreases s.len(),
{
    reveal(Seq::filter);
    if s.len() > 0 {
        let init = s.drop_last();
        let kept = init.filter(keep);
        filtered_elements(init, keep, x);
        assert(s.contains(x) <==> init.contains(x) || x == s.last()) by {
            if init.contains(x) {
                let i = choose|i: int| 0 <= i < init.len() && init[i] == x;
                assert(s[i] == x);
            }
            if s.contains(x) && x != s.last() {
                let i = choose|i: int| 0 <= i < s.len() && s[i] == x;
                assert(init[i] == x);
            }
            assert(s[s.len() - 1] == s.last());
        }
        let longer = kept.push(s.last());
        assert(longer.contains(x) <==> kept.contains(x) || x == s.last()) by {
            if kept.contains(x) {
                let i = choose|i: int| 0 <= i < kept.len() && kept[i] == x;
                assert(longer[i] == x);
            }
            if longer.contains(x) && x != s.last() {
                let i = choose|i: int| 0 <= i < longer.len() && longer[i] == x;
                assert(kept[i] == x);
            }
            assert(longer[kept.len() as int] == s.last());
        }
    }
}

/// At most one cell is being run.
pub open spec fn runs_at_most_one(state: EditorState) -> bool {
    forall|a: Seq<char>, b: Seq<char>|
        state.cells.contains_key(a) && state.cells.contains_key(b)
            && #[trigger] state.cells[a].executing() && #[trigger] state.cells[b].executing() ==> a
            == b
}

/// Cells that are run one after the other never run at the same time, whatever the kernel does
/// with the requests.
pub proof fn queued_cells_run_one_at_a_time(state: EditorState, script: Seq<Attempt>)
    requires
        !state.executing(),
    ensures
        runs_at_most_one(state.advanced(script)),
    decreases state.queue.len(),
{
    assert forall|id: Seq<char>| state.cells.contains_key(id) implies !(
    #[trigger] state.cells[id].executing()) by {
        assert(state.cells.contains_key(id));
    }
    if state.running_all && state.queue.len() > 0 {
        let head = state.queue.first();
        let popped = EditorState { queue: state.queue.drop_first(), ..state };
        if popped.has_code_cell(head) {
            let attempt = script.first();
            let rest = script.drop_first();
            assert(!popped.executing());
            if !(popped.kernel is Running) || attempt.refusal is Some {
                executing_after_a_failure(popped, head, attempt);
                queued_cells_run_one_at_a_time(popped.run_failed(head, attempt), rest);
            } else {
                let after = state.advanced(script);
                assert forall|a: Seq<char>, b: Seq<char>|
                    after.cells.contains_key(a) && after.cells.contains_key(b)
                        && #[trigger] after.cells[a].executing()
                        && #[trigger] after.cells[b].executing() implies a == b by {
                    if a != head {
                        assert(after.cells[a] == state.cells[a]);
                        assert(state.cells[a].executing());
                    }
                    if b != head {
                        assert(after.cells[b] == state.cells[b]);
                        assert(state.cells[b].executing());
                    }
                }
            }
        }
    }
}

/// The cells of the queue get their turn in their order: the queue only ever loses cells at its
/// front.
pub proof fn the_queue_is_served_in_order(state: EditorState, script: Seq<Attempt>)
    ensures
        state.advanced(script).queue.len() <= state.queue.len(),
        state.advanced(script).queue == state.queue.skip(
            state.queue.len() - state.advanced(script).queue.len(),
        ),
    decreases state.queue.len(),
{
    let after = state.advanced(script);
    if !state.running_all || state.executing() || state.queue.len() == 0 {
        assert(state.queue.skip(0) =~= state.queue);
    } else {
        let head = state.queue.first();
        let tail = state.queue.drop_first();
        let popped = EditorState { queue: tail, ..state };
        let attempt = script.first();
        let rest = script.drop_first();
        assert(state.queue.skip(1) =~= tail);
        if popped.has_code_cell(head) && (!(popped.kernel is Running) || attempt.refusal is Some) {
            let failed = popped.run_failed(head, attempt);
            the_queue_is_served_in_order(failed, rest);
            assert(after == failed.advanced(rest));
            let n = tail.len() - after.queue.len();
            assert(tail.skip(n) =~= state.queue.skip(n + 1));
        }
    }
}

/// However many cells of the queue fail, the kernel is sent one request at most.
pub proof fn the_kernel_gets_one_request_at_a_time(state: EditorState, script: Seq<Attempt>)
    requires
        state.kernel is Running,
    ensures
        state.advanced(script).kernel is Running,
        state.advanced(script).kernel->Running_0.sent.len()
            <= state.kernel->Running_0.sent.len() + 1,
        state.kernel->Running_0.sent.is_prefix_of(state.advanced(script).kernel->Running_0.sent),
    decreases state.queue.len(),
{
    if state.running_all && !state.executing() && state.queue.len() > 0 {
        let head = state.queue.first();
        let popped = EditorState { queue: state.queue.drop_first(), ..state };
        let attempt = script.first();
        if popped.has_code_cell(head) && attempt.refusal is Some {
            let failed = popped.run_failed(head, attempt);
            the_kernel_gets_one_request_at_a_time(failed, script.drop_first());
        }
    }
}

/// When the kernel is done with a cell and no others wait for their turn, nothing more is expected
/// for its request, and every other request stays.
pub proof fn a_finished_request_is_forgotten(
    state: EditorState,
    request: Seq<char>,
    script: Seq<Attempt>,
)
    requires
        !state.running_all,
    ensures
        state.concluded(Some(request), MessageContentView::ExecuteReply, script).executions
            == state.executions.remove(request),
        state.concluded(Some(request), MessageContentView::ExecuteReply, script).cells
            == state.cells,
{
}

/// Completions that have been asked for go to the one who asked, once: nobody waits for them any
/// more afterwards.
pub proof fn completions_go_to_the_one_who_asked(
    state: EditorState,
    id: Seq<char>,
    code: Seq<char>,
    cursor_pos: usize,
    attempt: Attempt,
    channel: int,
    reply: CompletionReplyView,
    awaited: bool,
)
    requires
        state.has_code_cell(id),
        state.kernel is Running,
        attempt.refusal is None,
    ensures
        state.asked(id, code, cursor_pos, attempt, channel).completions.contains_key(
            attempt.message_id,
        ),
        !state.asked(id, code, cursor_pos, attempt, channel).completed(
            attempt.message_id,
            reply,
            awaited,
        ).completions.contains_key(attempt.message_id),
        state.asked(id, code, cursor_pos, attempt, channel).completed(
            attempt.message_id,
            reply,
            true,
        ).delivered == state.delivered.push(Delivery { channel, reply }),
{
}

/// A question about completions that the kernel did not take leaves nobody waiting for an answer.
pub proof fn a_refused_question_is_forgotten(
    state: EditorState,
    id: Seq<char>,
    code: Seq<char>,
    cursor_pos: usize,
    attempt: Attempt,
    channel: int,
)
    requires
        !state.has_code_cell(id) || !(state.kernel is Running) || attempt.refusal is Some,
        !state.completions.contains_key(attempt.message_id),
    ensures
        state.asked(id, code, cursor_pos, attempt, channel).completions == state.completions,
        state.answer(id, attempt, channel) is Err,
        state.has_code_cell(id) ==> state.asked(
            id,
            code,
            cursor_pos,
            attempt,
            channel,
        ).last_error is Some,
{
    assert(state.completions.remove(attempt.message_id) =~= state.completions);
}

/// A kernel that is not running is not changed by messages.
pub proof fn only_a_running_kernel_has_news(
    state: EditorState,
    content: MessageContentView,
    script: Seq<Attempt>,
)
    requires
        !(state.kernel is Running),
        !state.running_all,
    ensures
        state.informed(content, script).kernel == state.kernel,
        state.informed(content, script).cells == state.cells,
{
}

/// The place of a character, taken to bytes and back, is the same place.
pub proof fn character_offsets_survive_bytes(chars: Seq<char>, n: int)
    requires
        0 <= n <= chars.len(),
    ensures
        is_character_offset(chars, byte_offset_of(chars, n) as int, n),
{
    if n < chars.len() {
        lemma_prefix_monotonic(chars, n, n + 1);
    }
}

/// A place in bytes, taken to characters and back, does not move towards the end, and stays where
/// it is if a character starts there.
pub proof fn byte_offsets_are_rounded_down(chars: Seq<char>, byte_offset: int, n: int)
    requires
        is_character_offset(chars, byte_offset, n),
    ensures
        byte_offset_of(chars, n) <= byte_offset,
        forall|m: int|
            0 <= m <= chars.len() && byte_offset == #[trigger] byte_offset_of(chars, m) ==> m == n,
{
    assert forall|m: int|
        0 <= m <= chars.len() && byte_offset == #[trigger] byte_offset_of(chars, m) implies m == n by {
        if m < n {
            lemma_prefix_monotonic(chars, m, n);
        } else if n < m {
            lemma_prefix_monotonic(chars, n + 1, m);
        }
    }
}

/// Each place in bytes belongs to one place in characters.
pub proof fn character_offsets_are_unique(chars: Seq<char>, byte_offset: int, m: int, n: int)
    requires
        is_character_offset(chars, byte_offset, m),
        is_character_offset(chars, byte_offset, n),
    ensures
        m == n,
{
    if m < n {
        lemma_prefix_monotonic(chars, m + 1, n);
    } else if n < m {
        lemma_prefix_monotonic(chars, n + 1, m);
    }
}

/// What completions replace is a part of the code that cuts no character in two, whatever places
/// the kernel names.
pub proof fn completions_replace_whole_characters(
    code: Seq<char>,
    reply: CompletionReplyView,
    range: ReplacedRange,
)
    requires
        is_replaced_range(code, reply, range),
    ensures
        range.start <= range.end <= prefix_bytes(code, code.len() as int),
        exists|n: int| 0 <= n <= code.len() && range.start == #[trigger] prefix_bytes(code, n),
        exists|n: int| 0 <= n <= code.len() && range.end == #[trigger] prefix_bytes(code, n),
{
    let len = code.len() as int;
    let a = if reply.cursor_start <= len {
        reply.cursor_start as int
    } else {
        len
    };
    let b = if reply.cursor_end <= len {
        reply.cursor_end as int
    } else {
        len
    };
    assert(byte_offset_of(code, reply.cursor_start as int) == prefix_bytes(code, a));
    assert(byte_offset_of(code, reply.cursor_end as int) == prefix_bytes(code, b));
    lemma_prefix_monotonic(code, a, len);
    lemma_prefix_monotonic(code, b, len);
}

/// Once identifiers have been filled in, each cell of a document has one. One that had one before
/// is as it was.
pub proof fn every_cell_gets_an_id(json: JsonView, ids: Seq<Seq<char>>, i: int)
    requires
        document_cells(json) is Some,
        0 <= i < document_cells(json)->0.len(),
        takes_members(document_cells(json)->0[i]),
    ensures
        document_cells(with_cell_ids(json, ids)) is Some,
        document_cells(with_cell_ids(json, ids))->0.len() == document_cells(json)->0.len(),
        has_id(document_cells(with_cell_ids(json, ids))->0[i]),
        has_id(document_cells(json)->0[i]) ==> document_cells(with_cell_ids(json, ids))->0[i]
            == document_cells(json)->0[i],
{
}

/// No two cells of a document get the same one of the identifiers that are filled in, and there are
/// enough of them.
pub proof fn every_cell_gets_an_id_of_its_own(cells: Seq<JsonView>, i: int, j: int)
    requires
        0 <= i < j < cells.len(),
        !has_id(cells[i]),
        !has_id(cells[j]),
    ensures
        lacking(cells.take(i)) < lacking(cells.take(j)) < lacking(cells),
    decreases j - i,
{
    lemma_lacking_grows(cells, i);
    lemma_lacking_grows(cells, j);
    let before = cells.take(j);
    if i + 1 < j {
        lemma_lacking_grows(before, i);
        assert(before.take(i + 1) =~= cells.take(i + 1));
    }
}

/// Filling in identifiers a second time changes nothing.
pub proof fn ids_are_filled_in_once(json: JsonView, ids: Seq<Seq<char>>, others: Seq<Seq<char>>)
    requires
        cells_take_ids(json),
    ensures
        with_cell_ids(with_cell_ids(json, ids), others) == with_cell_ids(json, ids),
{
    if document_cells(json) is Some {
        let once = with_cell_ids(json, ids);
        let cells = document_cells(once)->0;
        let again = Seq::new(
            cells.len(),
            |i: int| with_id(cells[i], others[lacking(cells.take(i)) as int]),
        );
        assert forall|i: int| 0 <= i < cells.len() implies #[trigger] again[i] == cells[i] by {
            every_cell_gets_an_id(json, ids, i);
        }
        assert(again =~= cells);
        assert(with_cell_ids(once, others)->Object_0 =~= once->Object_0);
    }
}

/// The metadata of a notebook ask for one kernel at most.
pub proof fn the_kernel_of_a_notebook_is_determined(
    metadata: Option<KernelspecMetadataView>,
    available: Seq<KernelSpecificationView>,
    a: Option<KernelSpecificationView>,
    b: Option<KernelSpecificationView>,
)
    requires
        is_resolved(metadata, available, a),
        is_resolved(metadata, available, b),
    ensures
        a == b,
{
    let names = lower_names(available);
    let languages = lower_languages(available);
    let name = preferred_name(metadata);
    let language = preferred_language(metadata);
    let i = choose|picked: Option<int>| #[trigger]
        is_pick(names, languages, name, language, picked) && a == match picked {
            Some(i) => Some(available[i]),
            None => None,
        };
    let j = choose|picked: Option<int>| #[trigger]
        is_pick(names, languages, name, language, picked) && b == match picked {
            Some(i) => Some(available[i]),
            None => None,
        };
    if i is Some && j is Some {
        let (m, n) = (i->0, j->0);
        if m < n {
            assert(names[m] != names[n] || languages[m] != languages[n] || m == n);
        }
    }
    assert(i == j);
}

/// The kernel that the metadata of a notebook ask for by name goes before one of their language.
pub proof fn the_name_goes_before_the_language(
    metadata: Option<KernelspecMetadataView>,
    available: Seq<KernelSpecificationView>,
    resolved: Option<KernelSpecificationView>,
    i: int,
)
    requires
        is_resolved(metadata, available, resolved),
        0 <= i < available.len(),
        preferred_name(metadata) == Some(
            lowercase(available[i].kernel_name()),
        ),
    ensures
        resolved is Some,
        preferred_name(metadata) == Some(
            lowercase(resolved->0.kernel_name()),
        ),
{
    let names = lower_names(available);
    assert(names[i] == lowercase(available[i].kernel_name()));
    assert(names.contains(names[i]));
}

/// Without kernels to choose from there is none that the metadata of a notebook ask for.
pub proof fn nothing_can_be_chosen_from_nothing(
    metadata: Option<KernelspecMetadataView>,
    resolved: Option<KernelSpecificationView>,
)
    requires
        is_resolved(metadata, Seq::empty(), resolved),
    ensures
        resolved is None,
{
}

/// A kernel can be interrupted if and only if it runs and is busy.
pub proof fn only_a_busy_kernel_can_be_interrupted(state: EditorState)
    ensures
        !state.status_bar().interrupt.disabled <==> state.kernel is Running
            && state.kernel->Running_0.execution_state is Busy,
{
}

} // verus!
