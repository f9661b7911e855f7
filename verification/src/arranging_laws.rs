//! What selecting, moving, adding, copying and deleting cells do to the order and to the cells, and
//! what opening, saving and reloading make of them.

use vstd::prelude::*;

use crate::cell::{loaded, CellPosition, CellTest, CellUpdateView, EditorCellView};
use crate::controls::Action;
use crate::editor::{
    is_new_cell, lemma_loaded_cells, lemma_without_id, loaded_cells, opened_editor, without_id,
};
use crate::events::first_place;
use crate::execution::{Cursor, FocusView};
use crate::id_map::{entries_map, lemma_entry, without_value};
use crate::ids::{is_uuid_text, valid_cell_id};
use crate::item::NotebookItemView;

use crate::json::JsonView;
use crate::laws::distinct_cells_are_all_filed;
use crate::notebook::{
    cell_ids, metadata_clashes, metadata_json, CellContentView, NotebookCellView, StoredNotebook,
};
use crate::running_laws::lemma_places;
use crate::state::{EditorState, NotebookEditor};
use crate::text::{blank, first_position, is_white_space, joined};

verus! {

/// Two states of an editor differ at most in what is arranged: the order and the cells, what is
/// selected and what the list of cells shows, and whether the editor has to be drawn again. The
/// kernel, what is asked of it, and everything else are the same.
pub open spec fn same_but_for_arrangement(a: EditorState, b: EditorState) -> bool {
    &&& a.worktree_id == b.worktree_id
    &&& a.language == b.language
    &&& a.original_order == b.original_order
    &&& a.kernel == b.kernel
    &&& a.specification == b.specification
    &&& a.executions == b.executions
    &&& a.completions == b.completions
    &&& a.queue == b.queue
    &&& a.running_all == b.running_all
    &&& a.nav_history == b.nav_history
    &&& a.last_error == b.last_error
    &&& a.metadata_dirty == b.metadata_dirty
    &&& a.delivered == b.delivered
    &&& a.lost == b.lost
}

/// Where a map keeps its entries: each is found under its own identifier, and nothing else is.
pub proof fn entries_are_found<T: View>(entries: Seq<(String, T)>, i: int, key: Seq<char>)
    requires
        forall|j: int, k: int|
            0 <= j < k < entries.len() ==> (#[trigger] entries[j]).0@ != (#[trigger] entries[k]).0@,
        0 <= i < entries.len(),
    ensures
        entries_map(entries).contains_key(entries[i].0@),
        entries_map(entries)[entries[i].0@] == entries[i].1@,
        entries_map(entries).contains_key(key) ==> exists|j: int|
            0 <= j < entries.len() && (#[trigger] entries[j]).0@ == key,
{
    lemma_entry(entries, i);
}

/// Without the entries of a value a map has all the others, and those as they were.
pub proof fn entries_without_a_value(
    map: Map<Seq<char>, Seq<char>>,
    value: Seq<char>,
    key: Seq<char>,
)
    ensures
        without_value(map, value).contains_key(key) <==> map.contains_key(key) && map[key] != value,
        without_value(map, value).contains_key(key) ==> without_value(map, value)[key] == map[key],
{
}

/// An editor stands for what its fields hold.
pub proof fn an_editor_is_its_fields(editor: NotebookEditor)
    ensures
        editor@.worktree_id == editor.worktree_id,
        editor@.language == editor.notebook_language,
        editor@.list == editor.cell_list,
        editor@.selected == editor.selected_cell_index,
        editor@.order.len() == editor.cell_order@.len(),
        forall|i: int|
            0 <= i < editor.cell_order@.len() ==> #[trigger] editor@.order[i]
                == editor.cell_order@[i]@,
        editor@.original_order.len() == editor.original_cell_order@.len(),
        forall|i: int|
            0 <= i < editor.original_cell_order@.len() ==> #[trigger] editor@.original_order[i]
                == editor.original_cell_order@[i]@,
        editor@.cells == editor.cell_map@,
        editor@.kernel == editor.kernel@,
        editor@.specification is Some <==> editor.kernel_specification is Some,
        editor.kernel_specification matches Some(specification) ==> editor@.specification == Some(
            specification@,
        ),
        editor@.executions == editor.execution_requests@,
        editor@.completions == editor.completion_requests@,
        editor@.queue.len() == editor.run_all_queue@.len(),
        forall|i: int|
            0 <= i < editor.run_all_queue@.len() ==> #[trigger] editor@.queue[i]
                == editor.run_all_queue@[i]@,
        editor@.running_all == editor.run_all_in_progress,
        editor@.nav_history == editor.nav_history,
        editor@.last_error is Some <==> editor.last_error is Some,
        editor.last_error matches Some(error) ==> editor@.last_error == Some(error@),
        editor@.metadata_dirty == editor.notebook_metadata_dirty,
        editor@.stale == editor.stale,
        editor@.delivered == editor.delivered.log(),
        editor@.lost == editor.delivered.lost(),
        editor@.drawn == editor.ids.log(),
{
}

/// A stored notebook stands for what its fields hold, its cells in their order.
pub proof fn a_notebook_is_its_fields(notebook: StoredNotebook)
    ensures
        notebook@.metadata == notebook.metadata@,
        notebook@.nbformat == notebook.nbformat,
        notebook@.nbformat_minor == notebook.nbformat_minor,
        notebook@.cells.len() == notebook.cells@.len(),
        forall|i: int|
            0 <= i < notebook.cells@.len() ==> #[trigger] notebook@.cells[i] == notebook.cells@[i]@,
{
}

/// The first place of a text in a list is a place where it stands, and it stands at none before.
pub proof fn the_first_place_comes_first(list: Seq<Seq<char>>, text: Seq<char>, place: int)
    requires
        first_position(list, text, place),
    ensures
        0 <= place < list.len(),
        list[place] == text,
        forall|i: int| 0 <= i < place ==> list[i] != text,
        forall|other: int| first_position(list, text, other) ==> other == place,
{
}

/// A text with something to read in it is not blank; one of spaces, tabs and line breaks is.
pub proof fn blank_texts_have_nothing_to_read(text: Seq<char>, i: int)
    ensures
        0 <= i < text.len() && 0x21 <= text[i] as u32 <= 0x7e ==> !blank(text),
        (forall|j: int|
            0 <= j < text.len() ==> (#[trigger] text[j]) == ' ' || text[j] == '\t' || text[j]
                == '\n' || text[j] == '\r') ==> blank(text),
        text.len() == 0 ==> blank(text),
        blank(text) && 0 <= i < text.len() ==> is_white_space(text[i]),
{
    if 0 <= i < text.len() && 0x21 <= text[i] as u32 <= 0x7e {
        assert(!is_white_space(text[i]));
    }
}

/// The notebook that is saved is what the editor shows: one cell for each place of the order, under
/// the identifier there, with the text that the cell has now; and the metadata of the file.
pub proof fn the_notebook_is_what_the_editor_shows(
    state: EditorState,
    item: NotebookItemView,
    i: int,
)
    requires
        state.wf(),
        0 <= i < state.order.len(),
    ensures
        state.notebook(item).nbformat == 4,
        state.notebook(item).nbformat_minor == 5,
        state.notebook(item).metadata == item.notebook.metadata,
        state.notebook(item).cells.len() == state.order.len(),
        state.notebook(item).cells[i].id == state.order[i],
        match state.cells[state.order[i]] {
            EditorCellView::Code(cell) => {
                &&& state.notebook(item).cells[i].source == cell.source
                &&& state.notebook(item).cells[i].metadata == cell.metadata
                &&& state.notebook(item).cells[i].content is Code
                &&& state.notebook(item).cells[i].content->execution_count == cell.execution_count
            },
            EditorCellView::Markdown(cell) => {
                &&& state.notebook(item).cells[i].source == cell.source
                &&& state.notebook(item).cells[i].metadata == cell.metadata
                &&& state.notebook(item).cells[i].content is Markdown
                &&& state.notebook(item).cells[i].content->attachments == cell.attachments
            },
            EditorCellView::Raw(cell) => {
                &&& state.notebook(item).cells[i].source == cell.source
                &&& state.notebook(item).cells[i].metadata == cell.metadata
                &&& state.notebook(item).cells[i].content is Raw
            },
        },
{
    assert(state.order.contains(state.order[i]));
    assert(state.cells.contains_key(state.order[i]));
}

/// Saving changes nothing but what there is to save: the saved order is the present one, the
/// metadata and every cell are saved, and everything else stays.
pub proof fn saving_only_takes_note(state: EditorState, id: Seq<char>)
    ensures
        same_but_for_arrangement(
            EditorState {
                original_order: state.original_order,
                metadata_dirty: state.metadata_dirty,
                ..state.saved()
            },
            state,
        ),
        state.saved().order == state.order,
        state.saved().original_order == state.order,
        state.saved().selected == state.selected,
        state.saved().list == state.list,
        state.saved().drawn == state.drawn,
        !state.saved().metadata_dirty,
        state.saved().stale,
        state.saved().cells.contains_key(id) <==> state.cells.contains_key(id),
        state.cells.contains_key(id) ==> state.saved().cells[id] == state.cells[id].updated(
            CellUpdateView::Saved,
        ),
{
}

/// There is something to save if and only if the order is not the one that was saved, or the
/// metadata have changed, or some cell has.
pub proof fn what_there_is_to_save(state: EditorState, id: Seq<char>)
    ensures
        state.order != state.original_order ==> state.structure_changed() && state.dirty(),
        state.metadata_dirty ==> state.dirty(),
        state.cells.contains_key(id) && (match state.cells[id] {
            EditorCellView::Code(cell) => cell.dirty,
            EditorCellView::Markdown(cell) => cell.dirty,
            EditorCellView::Raw(_) => false,
        }) ==> state.dirty(),
        state.dirty() ==> state.order != state.original_order || state.metadata_dirty || exists|
            other: Seq<char>,
        | #[trigger]
            state.cells.contains_key(other) && match state.cells[other] {
                EditorCellView::Code(cell) => cell.dirty,
                EditorCellView::Markdown(cell) => cell.dirty,
                EditorCellView::Raw(_) => false,
            },
        state.structure_changed() ==> state.order != state.original_order,
{
}

/// An update of all cells leaves every other part of the editor as it was, and updates each cell.
pub proof fn updating_reaches_every_cell(
    state: EditorState,
    update: CellUpdateView,
    id: Seq<char>,
)
    ensures
        same_but_for_arrangement(state.with_update(update), state),
        state.with_update(update).order == state.order,
        state.with_update(update).selected == state.selected,
        state.with_update(update).list == state.list,
        state.with_update(update).stale == state.stale,
        state.with_update(update).drawn == state.drawn,
        state.with_update(update).cells.contains_key(id) <==> state.cells.contains_key(id),
        state.cells.contains_key(id) ==> state.with_update(update).cells[id]
            == state.cells[id].updated(update),
{
}

/// A change of the language of the notebook is one of the editor and of each code cell, and of
/// nothing else.
pub proof fn a_language_is_for_every_code_cell(
    state: EditorState,
    language: Option<u64>,
    id: Seq<char>,
)
    ensures
        state.with_language(language).language == language,
        (EditorState { language: state.language, ..state.with_language(language) })
            == state.with_update(CellUpdateView::Language(language)),
        state.cells.contains_key(id) && state.cells[id] is Code ==> state.with_language(
            language,
        ).cells[id]->Code_0.language == language && state.with_language(
            language,
        ).cells[id]->Code_0.source == state.cells[id]->Code_0.source,
        state.cells.contains_key(id) && !(state.cells[id] is Code) ==> state.with_language(
            language,
        ).cells[id] == state.cells[id],
{
    let after = state.with_language(language);
    assert(EditorState { language: state.language, ..after } =~= state.with_update(
        CellUpdateView::Language(language),
    ));
}

/// A history is noted by the editor and by each cell with a text to visit.
pub proof fn a_history_is_for_every_text(state: EditorState, history: u64, id: Seq<char>)
    ensures
        state.with_nav_history(history).nav_history == Some(history),
        (EditorState { nav_history: state.nav_history, ..state.with_nav_history(history) })
            == state.with_update(CellUpdateView::NavHistory(history)),
        state.cells.contains_key(id) && state.cells[id] is Code ==> state.with_nav_history(
            history,
        ).cells[id]->Code_0.nav_history == Some(history),
        state.cells.contains_key(id) && state.cells[id] is Markdown ==> state.with_nav_history(
            history,
        ).cells[id]->Markdown_0.nav_history == Some(history),
{
    let after = state.with_nav_history(history);
    assert(EditorState { nav_history: state.nav_history, ..after } =~= state.with_update(
        CellUpdateView::NavHistory(history),
    ));
}

/// A new editor shows the cells of the notebook in their order, the first one selected. Nothing
/// runs, nothing is wrong, and there is no kernel yet.
pub proof fn opening_shows_the_cells_in_order(
    worktree_id: u64,
    cells: Seq<NotebookCellView>,
    language: Option<u64>,
    i: int,
)
    requires
        cells.len() <= usize::MAX,
        0 <= i < cells.len(),
    ensures
        opened_editor(worktree_id, cells, language).order.len() == cells.len(),
        opened_editor(worktree_id, cells, language).order[i] == cells[i].id,
        opened_editor(worktree_id, cells, language).original_order[i] == cells[i].id,
        opened_editor(worktree_id, cells, language).original_order.len() == cells.len(),
        opened_editor(worktree_id, cells, language).cells.contains_key(cells[i].id),
        cell_ids(cells).no_duplicates() ==> opened_editor(
            worktree_id,
            cells,
            language,
        ).cells[cells[i].id] == loaded(cells[i], language),
        opened_editor(worktree_id, cells, language).selected == 0,
        opened_editor(worktree_id, cells, language).list.item_count == cells.len(),
        opened_editor(worktree_id, cells, language).list.revealed is None,
        opened_editor(worktree_id, cells, language).worktree_id == worktree_id,
        opened_editor(worktree_id, cells, language).language == language,
        opened_editor(worktree_id, cells, language).kernel is Shutdown,
        opened_editor(worktree_id, cells, language).specification is None,
        opened_editor(worktree_id, cells, language).executions == Map::<
            Seq<char>,
            Seq<char>,
        >::empty(),
        opened_editor(worktree_id, cells, language).completions == Map::<Seq<char>, int>::empty(),
        opened_editor(worktree_id, cells, language).queue.len() == 0,
        !opened_editor(worktree_id, cells, language).running_all,
        opened_editor(worktree_id, cells, language).nav_history is None,
        opened_editor(worktree_id, cells, language).last_error is None,
        !opened_editor(worktree_id, cells, language).metadata_dirty,
        opened_editor(worktree_id, cells, language).delivered.len() == 0,
        opened_editor(worktree_id, cells, language).lost.len() == 0,
        opened_editor(worktree_id, cells, language).drawn.len() == 0,
        !opened_editor(worktree_id, cells, language).stale,
{
    lemma_loaded_cells(cells, language);
    assert(cell_ids(cells)[i] == cells[i].id);
    if cell_ids(cells).no_duplicates() {
        distinct_cells_are_all_filed(cells, language, i);
    }
}

/// Of cells that share an identifier the last one is filed.
pub proof fn the_last_of_namesakes_is_filed(
    cells: Seq<NotebookCellView>,
    language: Option<u64>,
    i: int,
)
    requires
        0 <= i < cells.len(),
        forall|j: int| i < j < cells.len() ==> (#[trigger] cells[j]).id != cells[i].id,
    ensures
        loaded_cells(cells, language).contains_key(cells[i].id),
        loaded_cells(cells, language)[cells[i].id] == loaded(cells[i], language),
    decreases cells.len(),
{
    if i < cells.len() - 1 {
        let init = cells.drop_last();
        assert forall|j: int| i < j < init.len() implies (#[trigger] init[j]).id != init[i].id by {
            assert(cells[j].id != cells[i].id);
        }
        the_last_of_namesakes_is_filed(init, language, i);
        assert(cells[cells.len() - 1].id != cells[i].id);
    }
}

/// What is filed when cells are loaded is one of them.
pub proof fn only_stored_cells_are_filed(
    cells: Seq<NotebookCellView>,
    language: Option<u64>,
    id: Seq<char>,
)
    requires
        loaded_cells(cells, language).contains_key(id),
    ensures
        exists|i: int| 0 <= i < cells.len() && (#[trigger] cells[i]).id == id,
{
    lemma_loaded_cells(cells, language);
    let i = choose|i: int| 0 <= i < cell_ids(cells).len() && cell_ids(cells)[i] == id;
    assert(cells[i].id == id);
}

/// Reloading shows the cells of the file in their order, and leaves the selection, the kernel, what
/// is asked of it, and what went wrong as they were.
pub proof fn reloading_shows_the_cells_in_order(
    state: EditorState,
    cells: Seq<NotebookCellView>,
    i: int,
)
    requires
        cells.len() <= usize::MAX,
        0 <= i < cells.len(),
    ensures
        state.reloaded(cells).order.len() == cells.len(),
        state.reloaded(cells).order[i] == cells[i].id,
        state.reloaded(cells).original_order == state.reloaded(cells).order,
        state.reloaded(cells).cells.contains_key(cells[i].id),
        cell_ids(cells).no_duplicates() && state.nav_history is None ==> state.reloaded(
            cells,
        ).cells[cells[i].id] == loaded(cells[i], state.language),
        state.nav_history matches Some(history) ==> (cell_ids(cells).no_duplicates()
            ==> state.reloaded(cells).cells[cells[i].id] == loaded(
            cells[i],
            state.language,
        ).updated(CellUpdateView::NavHistory(history))),
        state.reloaded(cells).list.item_count == cells.len(),
        state.reloaded(cells).list.revealed is None,
        state.reloaded(cells).selected == state.selected,
        !state.reloaded(cells).metadata_dirty,
        state.reloaded(cells).stale,
        state.reloaded(cells).drawn == state.drawn,
        same_but_for_arrangement(
            EditorState {
                original_order: state.original_order,
                metadata_dirty: state.metadata_dirty,
                ..state.reloaded(cells)
            },
            state,
        ),
{
    lemma_loaded_cells(cells, state.language);
    assert(cell_ids(cells)[i] == cells[i].id);
    if cell_ids(cells).no_duplicates() {
        distinct_cells_are_all_filed(cells, state.language, i);
    }
}

/// The selected cell moves one place towards the beginning, the one that stood there takes its
/// place, and all others stay where they are. At the beginning nothing moves.
pub proof fn moving_up_changes_places(state: EditorState, i: int)
    requires
        state.selected < state.order.len(),
    ensures
        state.selected == 0 ==> state.moved_up() == state,
        state.selected > 0 ==> {
            &&& state.moved_up().order.len() == state.order.len()
            &&& state.moved_up().order[state.selected - 1] == state.order[state.selected as int]
            &&& state.moved_up().order[state.selected as int] == state.order[state.selected - 1]
            &&& 0 <= i < state.order.len() && i != state.selected && i != state.selected - 1
                ==> state.moved_up().order[i] == state.order[i]
            &&& state.moved_up().selected == state.selected - 1
            &&& state.moved_up().stale
        },
        state.moved_up().cells == state.cells,
        state.moved_up().list == state.list,
        state.moved_up().drawn == state.drawn,
        same_but_for_arrangement(state.moved_up(), state),
{
}

/// The selected cell moves one place towards the end, the one that stood there takes its place, and
/// all others stay where they are. At the end nothing moves.
pub proof fn moving_down_changes_places(state: EditorState, i: int)
    requires
        state.order.len() <= usize::MAX,
    ensures
        state.selected + 1 >= state.order.len() ==> state.moved_down() == state,
        state.selected + 1 < state.order.len() ==> {
            &&& state.moved_down().order.len() == state.order.len()
            &&& state.moved_down().order[state.selected + 1] == state.order[state.selected as int]
            &&& state.moved_down().order[state.selected as int] == state.order[state.selected + 1]
            &&& 0 <= i < state.order.len() && i != state.selected && i != state.selected + 1
                ==> state.moved_down().order[i] == state.order[i]
            &&& state.moved_down().selected == state.selected + 1
            &&& state.moved_down().stale
        },
        state.moved_down().cells == state.cells,
        state.moved_down().list == state.list,
        state.moved_down().drawn == state.drawn,
        same_but_for_arrangement(state.moved_down(), state),
{
}

/// A cell that is added stands at its place; those before it stay, those behind it move on by one.
/// It is selected, and no other cell changes.
pub proof fn adding_makes_room(
    state: EditorState,
    index: usize,
    cell: EditorCellView,
    i: int,
    other: Seq<char>,
)
    requires
        index <= state.order.len() < usize::MAX,
    ensures
        state.with_inserted(index, cell).order.len() == state.order.len() + 1,
        0 <= i < index ==> state.with_inserted(index, cell).order[i] == state.order[i],
        index <= i < state.order.len() ==> state.with_inserted(index, cell).order[i + 1]
            == state.order[i],
        match cell {
            EditorCellView::Code(cell) => state.with_inserted(
                index,
                EditorCellView::Code(cell),
            ).order[index as int] == cell.id,
            EditorCellView::Markdown(cell) => state.with_inserted(
                index,
                EditorCellView::Markdown(cell),
            ).order[index as int] == cell.id,
            EditorCellView::Raw(cell) => state.with_inserted(
                index,
                EditorCellView::Raw(cell),
            ).order[index as int] == cell.id,
        },
        state.with_inserted(index, cell).cells.contains_key(
            state.with_inserted(index, cell).order[index as int],
        ),
        state.nav_history is None ==> state.with_inserted(index, cell).cells[state.with_inserted(
            index,
            cell,
        ).order[index as int]] == cell,
        state.nav_history matches Some(history) ==> state.with_inserted(
            index,
            cell,
        ).cells[state.with_inserted(index, cell).order[index as int]] == cell.updated(
            CellUpdateView::NavHistory(history),
        ),
        other != state.with_inserted(index, cell).order[index as int] ==> {
            &&& state.with_inserted(index, cell).cells.contains_key(other)
                <==> state.cells.contains_key(other)
            &&& state.cells.contains_key(other) ==> state.with_inserted(index, cell).cells[other]
                == state.cells[other]
        },
        state.with_inserted(index, cell).selected == index,
        state.with_inserted(index, cell).list.item_count == state.order.len() + 1,
        state.with_inserted(index, cell).list.revealed is None,
        state.with_inserted(index, cell).stale,
        state.with_inserted(index, cell).drawn == state.drawn,
        same_but_for_arrangement(state.with_inserted(index, cell), state),
{
}

/// A stored cell is added right behind the selected one, or as the first where there is none, in
/// the language of the notebook.
pub proof fn cells_are_added_behind_the_selected_one(state: EditorState, cell: NotebookCellView)
    requires
        state.order.len() < usize::MAX,
        state.order.len() == 0 || state.selected < state.order.len(),
    ensures
        state.order.len() == 0 ==> state.with_added(cell) == state.with_inserted(
            0,
            loaded(cell, state.language),
        ),
        state.order.len() > 0 ==> state.with_added(cell) == state.with_inserted(
            (state.selected + 1) as usize,
            loaded(cell, state.language),
        ),
        state.order.len() > 0 ==> state.with_added(cell).selected == state.selected + 1,
        state.order.len() == 0 ==> state.with_added(cell).selected == 0,
        state.with_added(cell).order[state.with_added(cell).selected as int] == cell.id,
        match (cell.content, state.with_added(cell).cells[cell.id]) {
            (CellContentView::Code { .. }, EditorCellView::Code(added)) => added.source
                == cell.source && added.language == state.language,
            (CellContentView::Markdown { .. }, EditorCellView::Markdown(added)) => added.source
                == cell.source,
            (CellContentView::Raw, EditorCellView::Raw(added)) => added.source == cell.source,
            _ => false,
        },
{
}

/// A copy of the selected cell stands right behind it, with its text and its metadata, under the
/// given identifier. A copy of code has no outputs and was never run. The cell itself stays.
pub proof fn a_copy_stands_behind_its_cell(state: EditorState, id: Seq<char>, other: Seq<char>)
    requires
        state.wf(),
        state.selected < state.order.len() < usize::MAX,
        !state.order.contains(id),
    ensures
        state.with_duplicate(id).order.len() == state.order.len() + 1,
        state.with_duplicate(id).order[state.selected as int] == state.order[state.selected as int],
        state.with_duplicate(id).order[state.selected + 1] == id,
        state.with_duplicate(id).selected == state.selected + 1,
        match (
            state.cells[state.order[state.selected as int]],
            state.with_duplicate(id).cells[id],
        ) {
            (EditorCellView::Code(cell), EditorCellView::Code(copy)) => {
                &&& copy.source == cell.source
                &&& copy.metadata == cell.metadata
                &&& copy.id == id
                &&& copy.outputs.len() == 0
                &&& copy.execution_count is None
                &&& !copy.executing
            },
            (EditorCellView::Markdown(cell), EditorCellView::Markdown(copy)) => {
                &&& copy.source == cell.source
                &&& copy.metadata == cell.metadata
                &&& copy.id == id
                &&& copy.attachments == cell.attachments
            },
            (EditorCellView::Raw(cell), EditorCellView::Raw(copy)) => {
                &&& copy.source == cell.source
                &&& copy.metadata == cell.metadata
                &&& copy.id == id
            },
            _ => false,
        },
        state.with_duplicate(id).cells[state.order[state.selected as int]]
            == state.cells[state.order[state.selected as int]],
        state.with_duplicate(id).order.remove(state.selected + 1) == state.order,
        other != id ==> (state.with_duplicate(id).cells.contains_key(other)
            <==> state.cells.contains_key(other)),
        other != id && state.cells.contains_key(other) ==> state.with_duplicate(id).cells[other]
            == state.cells[other],
        state.with_duplicate(id).list.item_count == state.order.len() + 1,
        state.with_duplicate(id).drawn == state.drawn,
        same_but_for_arrangement(state.with_duplicate(id), state),
{
    assert(state.order.contains(state.order[state.selected as int]));
    assert(state.with_duplicate(id).order == state.order.insert(state.selected + 1, id));
    assert(state.order.insert(state.selected + 1, id).remove(state.selected + 1) =~= state.order);
}

/// Copying the selected cell draws one identifier, which is the one of the copy. Without a selected
/// cell nothing happens.
pub proof fn copying_draws_one_id(state: EditorState, after: EditorState)
    requires
        state.wf(),
        state.order.len() < usize::MAX,
        state.duplicates_selected(after),
    ensures
        state.selected >= state.order.len() ==> after == state,
        state.selected < state.order.len() ==> {
            &&& after.drawn.len() == state.drawn.len() + 1
            &&& after.drawn.drop_last() == state.drawn
            &&& is_uuid_text(after.drawn.last())
            &&& after.order.len() == state.order.len() + 1
            &&& after.selected == state.selected + 1
            &&& after.order[state.selected + 1] == after.drawn.last()
            &&& after == state.drew(after.drawn.last()).with_duplicate(after.drawn.last())
            &&& (EditorState { drawn: state.drawn, ..state.drew(after.drawn.last()) }) == state
        },
{
    if state.selected < state.order.len() {
        let id = choose|id: Seq<char>|
            is_uuid_text(id) && #[trigger] state.drew(id).with_duplicate(id) == after;
        assert(after.drawn =~= state.drawn.push(id));
        assert(after.drawn.drop_last() =~= state.drawn);
    }
}

/// Deleting takes the selected cell out of the order and out of the cells; the others stay, in
/// their order. The selection stays at its place, or goes to the last cell.
pub proof fn deleting_closes_the_gap(state: EditorState, i: int, other: Seq<char>)
    requires
        state.order.no_duplicates(),
        state.selected < state.order.len() <= usize::MAX,
    ensures
        state.without_selected().order.len() == state.order.len() - 1,
        0 <= i < state.selected ==> state.without_selected().order[i] == state.order[i],
        state.selected < i < state.order.len() ==> state.without_selected().order[i - 1]
            == state.order[i],
        !state.without_selected().cells.contains_key(state.order[state.selected as int]),
        other != state.order[state.selected as int] ==> {
            &&& state.without_selected().cells.contains_key(other) <==> state.cells.contains_key(
                other,
            )
            &&& state.cells.contains_key(other) ==> state.without_selected().cells[other]
                == state.cells[other]
        },
        state.selected + 1 < state.order.len() ==> state.without_selected().selected
            == state.selected,
        state.selected + 1 == state.order.len() && state.selected > 0
            ==> state.without_selected().selected == state.selected - 1,
        state.order.len() == 1 ==> state.without_selected().selected == 0,
        state.without_selected().list.item_count == state.order.len() - 1,
        state.without_selected().stale,
        state.without_selected().drawn == state.drawn,
        same_but_for_arrangement(state.without_selected(), state),
{
    one_is_lost(state.order, state.selected as int);
}

/// Deleting takes out every place of the selected identifier and no other: `places` are those that
/// are left, in their order. The selection stays at its place as far as there is one.
pub proof fn deleting_keeps_the_other_places(state: EditorState) -> (places: Seq<int>)
    requires
        state.selected < state.order.len() <= usize::MAX,
    ensures
        state.without_selected().order.len() == places.len(),
        forall|k: int|
            0 <= k < places.len() ==> 0 <= #[trigger] places[k] < state.order.len()
                && state.order[places[k]] != state.order[state.selected as int]
                && state.without_selected().order[k] == state.order[places[k]],
        forall|j: int, k: int|
            0 <= j < k < places.len() ==> #[trigger] places[j] < #[trigger] places[k],
        forall|i: int|
            0 <= i < state.order.len() && #[trigger] state.order[i]
                != state.order[state.selected as int] ==> places.contains(i),
        places.len() > state.selected ==> state.without_selected().selected == state.selected,
        0 < places.len() <= state.selected ==> state.without_selected().selected + 1
            == places.len(),
        places.len() == 0 ==> state.without_selected().selected == 0,
        state.without_selected().list.item_count == places.len(),
        state.without_selected().list.revealed is None,
{
    let id = state.order[state.selected as int];
    let others = |other: Seq<char>| other != id;
    lemma_without_id_filters(state.order, id);
    lemma_without_id(state.order, id, id);
    lemma_places(state.order, others)
}

/// An order without an identifier has the others, in their order.
proof fn lemma_without_id_filters(order: Seq<Seq<char>>, id: Seq<char>)
    ensures
        without_id(order, id) == order.filter(|other: Seq<char>| other != id),
    decreases order.len(),
{
    reveal(Seq::filter);
    if order.len() > 0 {
        lemma_without_id_filters(order.drop_last(), id);
    }
}

/// Where no cell is selected none is deleted.
pub proof fn nothing_selected_nothing_deleted(state: EditorState)
    requires
        state.selected >= state.order.len(),
    ensures
        state.without_selected() == state,
{
}

/// What a list without repetitions is without one of its elements.
proof fn one_is_lost(order: Seq<Seq<char>>, place: int)
    requires
        order.no_duplicates(),
        0 <= place < order.len(),
    ensures
        without_id(order, order[place]) == order.remove(place),
    decreases order.len(),
{
    let id = order[place];
    let init = order.drop_last();
    assert(init.no_duplicates());
    if place == order.len() - 1 {
        none_is_lost(init, id);
        assert(order.remove(place) =~= init);
    } else {
        assert(order.last() == order[order.len() - 1]);
        one_is_lost(init, place);
        assert(order.remove(place) =~= init.remove(place).push(order.last()));
    }
}

/// What a list is without an element that it does not have.
proof fn none_is_lost(order: Seq<Seq<char>>, id: Seq<char>)
    requires
        forall|i: int| 0 <= i < order.len() ==> order[i] != id,
    ensures
        without_id(order, id) == order,
    decreases order.len(),
{
    if order.len() > 0 {
        none_is_lost(order.drop_last(), id);
        assert(order.drop_last().push(order.last()) =~= order);
    }
}

/// Selecting a place selects that place and scrolls to it if asked to, and does nothing else.
pub proof fn selecting_a_place(state: EditorState, index: usize, jump: bool)
    ensures
        state.with_selected(index, jump).selected == index,
        jump ==> state.with_selected(index, jump).list.revealed == Some(index),
        !jump ==> state.with_selected(index, jump).list.revealed == state.list.revealed,
        state.with_selected(index, jump).list.item_count == state.list.item_count,
        state.with_selected(index, jump).order == state.order,
        state.with_selected(index, jump).cells == state.cells,
        state.with_selected(index, jump).stale == state.stale,
        state.with_selected(index, jump).drawn == state.drawn,
        same_but_for_arrangement(state.with_selected(index, jump), state),
{
}

/// With cells there, the next, the previous, the first and the last one are selected as their names
/// say, and scrolled to; the order and the cells stay. There is nothing behind the last and before
/// the first.
pub proof fn walking_through_the_cells(state: EditorState)
    requires
        0 < state.cells.dom().len() <= usize::MAX,
        state.selected < usize::MAX,
    ensures
        state.selected + 1 != state.cells.dom().len() ==> state.selected_next().selected
            == state.selected + 1,
        state.selected + 1 == state.cells.dom().len() ==> state.selected_next().selected
            == state.selected,
        state.selected > 0 ==> state.selected_previous().selected == state.selected - 1,
        state.selected == 0 ==> state.selected_previous().selected == 0,
        state.selected_first().selected == 0,
        state.selected_last().selected + 1 == state.cells.dom().len(),
        state.selected_next().list.revealed == Some(state.selected_next().selected),
        state.selected_previous().list.revealed == Some(state.selected_previous().selected),
        state.selected_first().list.revealed == Some(state.selected_first().selected),
        state.selected_last().list.revealed == Some(state.selected_last().selected),
        state.selected_next().stale && state.selected_previous().stale
            && state.selected_first().stale && state.selected_last().stale,
        state.selected_next().order == state.order && state.selected_previous().order == state.order
            && state.selected_first().order == state.order && state.selected_last().order
            == state.order,
        state.selected_next().cells == state.cells && state.selected_previous().cells == state.cells
            && state.selected_first().cells == state.cells && state.selected_last().cells
            == state.cells,
        same_but_for_arrangement(state.selected_next(), state),
        same_but_for_arrangement(state.selected_previous(), state),
        same_but_for_arrangement(state.selected_first(), state),
        same_but_for_arrangement(state.selected_last(), state),
        state.selected_next().list.item_count == state.list.item_count,
        state.selected_previous().list.item_count == state.list.item_count,
        state.selected_first().list.item_count == state.list.item_count,
        state.selected_last().list.item_count == state.list.item_count,
        state.selected_next().drawn == state.drawn && state.selected_previous().drawn == state.drawn
            && state.selected_first().drawn == state.drawn && state.selected_last().drawn
            == state.drawn,
{
}

/// Without cells there is nothing to select.
pub proof fn nothing_to_walk_through(state: EditorState)
    requires
        state.cells.dom().len() == 0,
    ensures
        state.selected_next() == state,
        state.selected_previous() == state,
        state.selected_first() == state,
        state.selected_last() == state,
{
}

/// Going to the next cell and back leads to where one was.
pub proof fn next_and_previous_cancel(state: EditorState)
    requires
        state.selected + 1 < state.cells.dom().len() <= usize::MAX,
    ensures
        state.selected_next().selected_previous().selected == state.selected,
        state.selected > 0 ==> state.selected_previous().selected_next().selected == state.selected,
{
}

/// The first cell is drawn as the first, the last as the last, and those in between as such.
pub proof fn positions_are_told(state: EditorState, index: usize)
    ensures
        index == 0 ==> state.position_at(index) == CellPosition::First,
        0 < index && index + 1 == state.cells.dom().len() ==> state.position_at(index)
            == CellPosition::Last,
        0 < index && index + 1 != state.cells.dom().len() ==> state.position_at(index)
            == CellPosition::Middle,
{
}

/// A cell that gets the focus is the selected one afterwards; nothing else changes. One that is not
/// there changes nothing.
pub proof fn the_focused_cell_is_selected(state: EditorState, id: Seq<char>)
    requires
        state.order.len() <= usize::MAX,
    ensures
        state.order.contains(id) ==> {
            &&& state.focused(id).selected < state.order.len()
            &&& state.order[state.focused(id).selected as int] == id
            &&& forall|i: int| 0 <= i < state.focused(id).selected ==> state.order[i] != id
            &&& state.focused(id).stale
        },
        !state.order.contains(id) ==> state.focused(id) == state,
        state.focused(id).order == state.order,
        state.focused(id).cells == state.cells,
        state.focused(id).list == state.list,
        state.focused(id).drawn == state.drawn,
        same_but_for_arrangement(state.focused(id), state),
{
    if state.order.contains(id) {
        let i = choose|i: int| 0 <= i < state.order.len() && state.order[i] == id;
        let place = lemma_some_first_place(state.order, id, i);
        assert(first_position(state.order, id, place));
        assert(first_position(state.order, id, first_place(state.order, id)));
    }
}

/// A text that stands somewhere in a list has a first place there.
proof fn lemma_some_first_place(list: Seq<Seq<char>>, text: Seq<char>, i: int) -> (place: int)
    requires
        0 <= i < list.len(),
        list[i] == text,
    ensures
        first_position(list, text, place),
    decreases i,
{
    if exists|j: int| 0 <= j < i && list[j] == text {
        let j = choose|j: int| 0 <= j < i && list[j] == text;
        lemma_some_first_place(list, text, j)
    } else {
        i
    }
}

/// A Markdown cell whose text is parsed anew shows that text; nothing else changes.
pub proof fn reparsing_shows_the_text(state: EditorState, id: Seq<char>, other: Seq<char>)
    requires
        state.cells.contains_key(id),
        state.cells[id] is Markdown,
    ensures
        state.with_reparsed(id).cells[id] is Markdown,
        state.with_reparsed(id).cells[id]->Markdown_0.rendered == joined(
            state.cells[id]->Markdown_0.source,
        ),
        state.with_reparsed(id).cells[id]->Markdown_0.source == state.cells[id]->Markdown_0.source,
        other != id ==> {
            &&& state.with_reparsed(id).cells.contains_key(other) <==> state.cells.contains_key(
                other,
            )
            &&& state.cells.contains_key(other) ==> state.with_reparsed(id).cells[other]
                == state.cells[other]
        },
        (EditorState { cells: state.cells, ..state.with_reparsed(id) }) == state,
{
}

/// Entering the selected cell puts the cursor into its text: code as it is, Markdown once it is
/// edited. A raw cell has no text to enter. No other cell changes.
pub proof fn entering_the_selected_cell(state: EditorState, cursor: Cursor, other: Seq<char>)
    requires
        state.wf(),
        state.selected < state.order.len(),
    ensures
        match state.cells[state.order[state.selected as int]] {
            EditorCellView::Code(_) => {
                &&& state.entered(cursor) == Some(
                    FocusView { cell_id: state.order[state.selected as int], cursor },
                )
                &&& state.with_entered() == state
            },
            EditorCellView::Markdown(cell) => {
                let after = state.with_entered().cells[state.order[state.selected as int]];
                &&& after is Markdown
                &&& after->Markdown_0.editing
                &&& after->Markdown_0.source == cell.source
                &&& after->Markdown_0.rendered == cell.rendered
                &&& state.entered(cursor) == Some(
                    FocusView { cell_id: state.order[state.selected as int], cursor },
                )
            },
            EditorCellView::Raw(_) => state.entered(cursor) is None && state.with_entered()
                == state,
        },
        other != state.order[state.selected as int] ==> {
            &&& state.with_entered().cells.contains_key(other) <==> state.cells.contains_key(other)
            &&& state.cells.contains_key(other) ==> state.with_entered().cells[other]
                == state.cells[other]
        },
        (EditorState { cells: state.cells, ..state.with_entered() }) == state,
{
    assert(state.order.contains(state.order[state.selected as int]));
}

/// Without a selected cell there is nothing to enter.
pub proof fn nothing_to_enter(state: EditorState, cursor: Cursor)
    requires
        state.selected >= state.order.len(),
    ensures
        state.entered(cursor) is None,
        state.with_entered() == state,
        state.selected_id() is None,
{
}

/// A cell without text that is added has no text, no metadata and what its kind asks for; what it
/// is called was drawn.
pub proof fn a_new_cell_is_empty(cell: NotebookCellView, content: CellContentView)
    requires
        is_new_cell(cell, content),
    ensures
        cell.source.len() == 0,
        cell.content == content,
        is_uuid_text(cell.id),
        !metadata_clashes(cell.metadata),
        metadata_json(cell.metadata) == JsonView::Object(Map::empty()),
{
}

/// Adding a code cell or a Markdown cell draws one identifier, and adds an empty cell of that kind
/// under it behind the selected one.
pub proof fn adding_a_cell_draws_one_id(
    state: EditorState,
    action: Action,
    after: EditorState,
    focus: Option<FocusView>,
)
    requires
        action == Action::AddCodeBlock || action == Action::AddMarkdownBlock,
        state.performs(action, after, focus),
        state.order.len() < usize::MAX,
        state.order.len() == 0 || state.selected < state.order.len(),
    ensures
        focus is None,
        after.drawn.len() == state.drawn.len() + 1,
        after.drawn.drop_last() == state.drawn,
        after.order.len() == state.order.len() + 1,
        after.selected == (if state.order.len() == 0 {
            0
        } else {
            state.selected + 1
        }),
        after.order[after.selected as int] == after.drawn.last(),
        after.order.remove(after.selected as int) == state.order,
        action == Action::AddCodeBlock ==> {
            &&& after.cells[after.drawn.last()] is Code
            &&& after.cells[after.drawn.last()]->Code_0.source.len() == 0
            &&& after.cells[after.drawn.last()]->Code_0.outputs.len() == 0
            &&& after.cells[after.drawn.last()]->Code_0.execution_count is None
            &&& !after.cells[after.drawn.last()]->Code_0.executing
            &&& after.cells[after.drawn.last()]->Code_0.language == state.language
        },
        action == Action::AddMarkdownBlock ==> {
            &&& after.cells[after.drawn.last()] is Markdown
            &&& after.cells[after.drawn.last()]->Markdown_0.source.len() == 0
            &&& after.cells[after.drawn.last()]->Markdown_0.attachments is None
            &&& after.cells[after.drawn.last()]->Markdown_0.editing
        },
        same_but_for_arrangement(after, state),
{
    let content = if action == Action::AddCodeBlock {
        CellContentView::Code { execution_count: None, outputs: Seq::empty() }
    } else {
        CellContentView::Markdown { attachments: None }
    };
    let cell = choose|cell: NotebookCellView| #[trigger]
        is_new_cell(cell, content) && after == state.drew(cell.id).with_added(cell);
    let drew = state.drew(cell.id);
    assert(after.drawn =~= state.drawn.push(cell.id));
    assert(after.drawn.drop_last() =~= state.drawn);
    cells_are_added_behind_the_selected_one(drew, cell);
    let index = after.selected as int;
    assert(after.order == state.order.insert(index, cell.id));
    assert(after.order.remove(index) =~= state.order);
    assert(joined(cell.source).len() == 0);
}

/// Each action on cells is what its name says.
pub proof fn actions_are_what_they_are_called(
    state: EditorState,
    after: EditorState,
    focus: Option<FocusView>,
)
    ensures
        state.performs(Action::MoveCellUp, after, focus) ==> after == state.moved_up() && focus
            is None,
        state.performs(Action::MoveCellDown, after, focus) ==> after == state.moved_down() && focus
            is None,
        state.performs(Action::DeleteCell, after, focus) ==> after == state.without_selected()
            && focus is None,
        state.performs(Action::DuplicateCell, after, focus) ==> state.duplicates_selected(after)
            && focus is None,
        state.performs(Action::ClearOutputs, after, focus) ==> after.cells == state.with_update(
            CellUpdateView::ClearOutputs,
        ).cells && after.order == state.order && after.stale && focus is None,
        state.performs(Action::OpenNotebook, after, focus) ==> (EditorState {
            stale: state.stale,
            ..after
        }) == state && after.stale && focus is None,
        state.performs(Action::MoveUp, after, focus) ==> after
            == state.selected_previous().with_entered() && focus
            == state.selected_previous().entered(Cursor::End),
        state.performs(Action::MoveDown, after, focus) ==> after
            == state.selected_next().with_entered() && focus == state.selected_next().entered(
            Cursor::Beginning,
        ),
        state.performs(Action::Run, after, focus) ==> state.runs_selected(after, focus),
{
}

/// Clearing outputs takes the outputs of every code cell and leaves its text, and every other cell,
/// as they were. Nothing else changes.
pub proof fn clearing_takes_only_outputs(
    state: EditorState,
    after: EditorState,
    focus: Option<FocusView>,
    id: Seq<char>,
)
    requires
        state.performs(Action::ClearOutputs, after, focus),
    ensures
        after.cells.contains_key(id) <==> state.cells.contains_key(id),
        state.cells.contains_key(id) ==> match (state.cells[id], after.cells[id]) {
            (EditorCellView::Code(before), EditorCellView::Code(cell)) => cell.outputs.len() == 0
                && cell.source == before.source && cell.execution_count == before.execution_count
                && cell.executing == before.executing && cell.dirty == before.dirty && cell.id
                == before.id,
            (EditorCellView::Markdown(before), EditorCellView::Markdown(cell)) => cell == before,
            (EditorCellView::Raw(before), EditorCellView::Raw(cell)) => cell == before,
            _ => false,
        },
        after.order == state.order,
        after.selected == state.selected,
        after.list == state.list,
        after.drawn == state.drawn,
        same_but_for_arrangement(after, state),
{
}

/// A message about what went wrong is kept and shown; without one there is none. Either changes
/// nothing else.
pub proof fn errors_are_kept_and_forgotten(state: EditorState, message: Seq<char>)
    ensures
        state.with_error(message).last_error == Some(message),
        state.with_error(message).stale,
        (EditorState {
            last_error: state.last_error,
            stale: state.stale,
            ..state.with_error(message)
        }) == state,
        state.without_error().last_error is None,
        state.last_error is Some ==> state.without_error().stale,
        (EditorState { last_error: state.last_error, stale: state.stale, ..state.without_error() })
            == state,
        state.notified().stale,
        (EditorState { stale: state.stale, ..state.notified() }) == state,
{
}

/// A cell that takes the place of another is found under its identifier, and nothing else changes.
pub proof fn replacing_a_cell(
    state: EditorState,
    id: Seq<char>,
    cell: EditorCellView,
    other: Seq<char>,
)
    ensures
        state.with_cell(id, cell).cells.contains_key(id),
        state.with_cell(id, cell).cells[id] == cell,
        other != id ==> {
            &&& state.with_cell(id, cell).cells.contains_key(other) <==> state.cells.contains_key(
                other,
            )
            &&& state.cells.contains_key(other) ==> state.with_cell(id, cell).cells[other]
                == state.cells[other]
        },
        (EditorState { cells: state.cells, ..state.with_cell(id, cell) }) == state,
{
}

/// A code cell is one that is there and holds code.
pub proof fn code_cells_hold_code(state: EditorState, id: Seq<char>)
    ensures
        state.has_code_cell(id) <==> state.cells.contains_key(id) && state.cells[id] is Code,
        state.selected < state.order.len() ==> state.selected_id() == Some(
            state.order[state.selected as int],
        ),
        state.selected >= state.order.len() ==> state.selected_id() is None,
        state.cell_count() == state.cells.dom().len(),
        state.executing() <==> exists|other: Seq<char>| #[trigger]
            state.cells.contains_key(other) && state.cells[other] is Code
                && state.cells[other]->Code_0.executing,
{
    if state.executing() {
        let other = choose|other: Seq<char>| #[trigger]
            state.cells.contains_key(other) && state.cells[other].executing();
        assert(state.cells[other] is Code);
    }
    if exists|other: Seq<char>| #[trigger]
        state.cells.contains_key(other) && state.cells[other] is Code
            && state.cells[other]->Code_0.executing {
        let other = choose|other: Seq<char>| #[trigger]
            state.cells.contains_key(other) && state.cells[other] is Code
                && state.cells[other]->Code_0.executing;
        assert(state.cells[other].executing());
        assert(CellTest::Executing.holds(state.cells[other]));
    }
}

/// Scrolling shows a place and changes nothing else.
pub proof fn scrolling_only_shows(state: EditorState, index: usize)
    ensures
        state.scrolled_to(index).list.revealed == Some(index),
        state.scrolled_to(index).list.item_count == state.list.item_count,
        (EditorState { list: state.list, ..state.scrolled_to(index) }) == state,
{
}

/// Drawing the cell at a place tells that cell whether it is the selected one and where it stands,
/// and changes nothing else, in it or elsewhere.
pub proof fn drawing_tells_a_cell_its_place(state: EditorState, index: usize, other: Seq<char>)
    requires
        index < state.order.len(),
        state.cells.contains_key(state.order[index as int]),
    ensures
        match (
            state.cells[state.order[index as int]],
            state.with_drawn(index).cells[state.order[index as int]],
        ) {
            (EditorCellView::Code(before), EditorCellView::Code(cell)) => cell.selected == (index
                == state.selected) && cell.position == Some(state.position_at(index)) && cell.source
                == before.source && cell.outputs == before.outputs && cell.id == before.id
                && cell.dirty == before.dirty && cell.executing == before.executing,
            (EditorCellView::Markdown(before), EditorCellView::Markdown(cell)) => cell.selected == (
            index == state.selected) && cell.position == Some(state.position_at(index))
                && cell.source == before.source && cell.rendered == before.rendered && cell.id
                == before.id && cell.dirty == before.dirty && cell.editing == before.editing,
            (EditorCellView::Raw(before), EditorCellView::Raw(cell)) => cell.selected == (index
                == state.selected) && cell.position == Some(state.position_at(index)) && cell.source
                == before.source && cell.id == before.id,
            _ => false,
        },
        other != state.order[index as int] && state.cells.contains_key(other)
            ==> state.with_drawn(index).cells[other] == state.cells[other],
        (EditorState { cells: state.cells, ..state.with_drawn(index) }) == state,
{
}

/// The text that is selected is that of the selected cell, unless the cell is a raw one, which has
/// none to edit.
pub proof fn the_selected_text_is_that_of_the_selected_cell(state: EditorState)
    ensures
        state.selected < state.order.len() && !(state.cells[state.order[state.selected as int]]
            is Raw) ==> state.selected_text() == Some(state.order[state.selected as int]),
        state.selected < state.order.len() && state.cells[state.order[state.selected as int]] is Raw
            ==> state.selected_text() is None,
        state.selected >= state.order.len() ==> state.selected_text() is None,
{
}

/// While a place is selected, or there are no cells and none is, and there is room for one cell
/// more, everything that can be asked for can be done.
pub proof fn whatever_is_asked_for_can_be_done(state: EditorState, action: Action)
    requires
        state.selected < state.order.len() || (state.order.len() == 0 && state.selected == 0),
        state.order.len() < usize::MAX,
    ensures
        state.can_perform(action),
{
}

/// What is asked for can be done in any state unless it moves or adds a cell and there is no place
/// to move it from, to add it at, or to hold it.
pub proof fn what_can_always_be_done(state: EditorState)
    ensures
        state.can_perform(Action::OpenNotebook),
        state.can_perform(Action::RunAll),
        state.can_perform(Action::ClearOutputs),
        state.can_perform(Action::MoveCellDown),
        state.can_perform(Action::DeleteCell),
        state.can_perform(Action::RestartKernel),
        state.can_perform(Action::InterruptKernel),
        state.can_perform(Action::MoveUp),
        state.order.len() < usize::MAX ==> state.can_perform(Action::DuplicateCell)
            && state.can_perform(Action::Run),
        state.selected < usize::MAX ==> state.can_perform(Action::MoveDown),
        state.can_perform(Action::MoveCellUp) ==> state.selected == 0 || state.selected
            < state.order.len(),
        state.can_perform(Action::AddCodeBlock) <==> state.can_perform(Action::AddMarkdownBlock),
        state.can_perform(Action::AddCodeBlock) ==> state.order.len() < usize::MAX && (
        state.order.len() == 0 || state.selected < state.order.len()),
{
}

/// The character is white space if and only if Unicode counts it as such: the control characters
/// from tab to carriage return, the spaces, and the separators of lines and paragraphs.
pub proof fn what_counts_as_white_space(c: char)
    ensures
        is_white_space(c) <==> (c == '\t' || c == '\n' || c == '\u{b}' || c == '\u{c}' || c == '\r'
            || c == ' ' || c == '\u{85}' || c == '\u{a0}' || c == '\u{1680}' || '\u{2000}' <= c
            <= '\u{200a}' || c == '\u{2028}' || c == '\u{2029}' || c == '\u{202f}' || c
            == '\u{205f}' || c == '\u{3000}'),
{
}

/// What always holds of an editor: the order names the cells and nothing else, each cell is filed
/// under its own identifier, and the list has an item for each place.
pub proof fn the_order_names_the_cells(state: EditorState, editor: NotebookEditor, id: Seq<char>)
    requires
        state.wf(),
        editor.wf(),
    ensures
        state.order.contains(id) <==> state.cells.contains_key(id),
        state.cells.contains_key(id) ==> match state.cells[id] {
            EditorCellView::Code(cell) => cell.id == id,
            EditorCellView::Markdown(cell) => cell.id == id,
            EditorCellView::Raw(cell) => cell.id == id,
        },
        state.cells.contains_key(id) ==> valid_cell_id(id),
        state.cells.dom().finite(),
        state.list.item_count == state.order.len(),
        editor@.wf(),
        editor.cell_map.wf(),
        editor.execution_requests.wf(),
        editor.completion_requests.wf(),
{
}

} // verus!
