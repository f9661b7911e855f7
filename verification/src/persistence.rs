//! What of a notebook survives being saved and read again.

use vstd::prelude::*;

use crate::cell::{loaded, CellUpdateView, CodeCellView, EditorCellView};
use crate::document::{
    alike_metadata, content_outputs, contents_of, has_output, regular, regular_cell,
    regular_metadata, regular_output, restored, same_cell, same_cells,
};
use crate::editor::{duplicated, is_new_cell, lemma_loaded_cells, loaded_cells, opened_editor};
use crate::item::NotebookItemView;
use crate::kernel::KernelSpecificationView;
use crate::laws::{distinct_cells_are_all_filed, loading_keeps_a_cell, reloading_shows_the_file};
use crate::notebook::{cell_ids, CellContentView, NotebookCellView, StoredNotebookView};
use crate::state::EditorState;

verus! {

/// A cell that can be read again once it has been written in a notebook.
pub open spec fn regular_stored(cell: NotebookCellView) -> bool {
    &&& regular_cell(cell.metadata, cell.content)
    &&& forall|output: nbformat::v4::Output| #[trigger]
        content_outputs(cell.content).contains(output) ==> regular_output(output)
}

impl EditorState {
    /// Each cell that the editor shows, and what the notebook says about itself, can be read again
    /// once it has been saved.
    pub open spec fn regular(self, item: NotebookItemView) -> bool {
        &&& regular_metadata(item.notebook.metadata)
        &&& forall|id: Seq<char>| #[trigger]
            self.cells.contains_key(id) ==> regular_stored(self.cells[id].stored())
    }
}

/// The cells of a notebook that can be read again can be read again one by one.
proof fn lemma_cell_is_regular(notebook: StoredNotebookView, i: int)
    requires
        regular(notebook),
        0 <= i < notebook.cells.len(),
    ensures
        regular_stored(notebook.cells[i]),
{
    let cell = notebook.cells[i];
    assert(regular_cell(cell.metadata, cell.content));
    assert forall|output: nbformat::v4::Output|
        #[trigger] content_outputs(cell.content).contains(output) implies regular_output(
        output,
    ) by {
        assert(contents_of(notebook.cells)[i] == cell.content);
        assert(has_output(contents_of(notebook.cells), output));
    }
}

/// What a regular editor shows can be read again once it has been saved.
pub proof fn a_regular_editor_shows_a_regular_notebook(state: EditorState, item: NotebookItemView)
    requires
        state.wf(),
        state.order.no_duplicates(),
        state.regular(item),
    ensures
        regular(state.notebook(item)),
{
    let notebook = state.notebook(item);
    assert forall|i: int| 0 <= i < notebook.cells.len() implies regular_stored(
        #[trigger] notebook.cells[i],
    ) && notebook.cells[i].id == state.order[i] by {
        assert(state.order.contains(state.order[i]));
        assert(state.cells.contains_key(state.order[i]));
    }
    assert(cell_ids(notebook.cells) =~= state.order);
    assert forall|output: nbformat::v4::Output|
        #[trigger] has_output(contents_of(notebook.cells), output) implies regular_output(
        output,
    ) by {
        let contents = contents_of(notebook.cells);
        let i = choose|i: int|
            0 <= i < contents.len() && content_outputs(#[trigger] contents[i]).contains(output);
        assert(content_outputs(notebook.cells[i].content).contains(output));
        assert(regular_stored(notebook.cells[i]));
    }
}

/// Each loaded cell is one of those that were stored.
proof fn lemma_loaded_is_stored(
    cells: Seq<NotebookCellView>,
    language: Option<u64>,
    id: Seq<char>,
) -> (i: int)
    requires
        cell_ids(cells).no_duplicates(),
        loaded_cells(cells, language).contains_key(id),
    ensures
        0 <= i < cells.len(),
        cells[i].id == id,
        loaded_cells(cells, language)[id] == loaded(cells[i], language),
        loaded_cells(cells, language)[id].stored() == cells[i],
{
    lemma_loaded_cells(cells, language);
    let i = choose|i: int| 0 <= i < cell_ids(cells).len() && cell_ids(cells)[i] == id;
    distinct_cells_are_all_filed(cells, language, i);
    loading_keeps_a_cell(cells[i], language);
    i
}

/// What has been read from a file can be saved and read again.
pub proof fn opening_makes_a_regular_editor(
    worktree_id: u64,
    item: NotebookItemView,
    language: Option<u64>,
)
    requires
        regular(item.notebook),
    ensures
        opened_editor(worktree_id, item.notebook.cells, language).regular(item),
        opened_editor(worktree_id, item.notebook.cells, language).order.no_duplicates(),
{
    let cells = item.notebook.cells;
    let state = opened_editor(worktree_id, cells, language);
    assert forall|id: Seq<char>| #[trigger]
        state.cells.contains_key(id) implies regular_stored(state.cells[id].stored()) by {
        let i = lemma_loaded_is_stored(cells, language, id);
        lemma_cell_is_regular(item.notebook, i);
    }
}

/// What has been read from a file again can be saved and read again.
pub proof fn reloading_makes_a_regular_editor(
    state: EditorState,
    item: NotebookItemView,
    notebook: StoredNotebookView,
)
    requires
        regular(notebook),
    ensures
        state.reloaded(notebook.cells).regular(item.with_notebook(notebook)),
        state.reloaded(notebook.cells).order.no_duplicates(),
{
    let after = state.reloaded(notebook.cells);
    assert forall|id: Seq<char>| #[trigger]
        after.cells.contains_key(id) implies regular_stored(after.cells[id].stored()) by {
        let i = lemma_loaded_is_stored(notebook.cells, state.language, id);
        lemma_cell_is_regular(notebook, i);
    }
}

/// A cell that is added can be read again.
pub proof fn a_new_cell_is_regular(cell: NotebookCellView, content: CellContentView)
    requires
        is_new_cell(cell, content),
        content_outputs(content).len() == 0,
        content matches CellContentView::Markdown { attachments } ==> attachments is None,
    ensures
        regular_stored(cell),
{
}

/// A copy of a cell can be read again where the cell can.
proof fn lemma_duplicate_is_regular(cell: NotebookCellView, id: Seq<char>)
    requires
        regular_stored(cell),
    ensures
        regular_stored(duplicated(cell, id)),
{
}

/// No update of a cell adds an output that would be saved.
proof fn lemma_update_keeps_regular(cell: EditorCellView, update: CellUpdateView)
    requires
        regular_stored(cell.stored()),
    ensures
        regular_stored(cell.updated(update).stored()),
{
    if let EditorCellView::Code(code) = cell {
        let after = code.updated(update);
        if after.outputs.len() > code.outputs.len() {
            assert(after.outputs.drop_last() =~= code.outputs);
            assert(after.outputs.last() is Message);
        }
    }
}

/// What the editor itself does to a code cell that it runs keeps the cell regular: the outputs of
/// an earlier run go, and a remark is not saved.
pub proof fn running_keeps_a_cell_regular(cell: CodeCellView, remark: Seq<char>)
    requires
        regular_stored(EditorCellView::Code(cell).stored()),
    ensures
        regular_stored(EditorCellView::Code(cell.started()).stored()),
        regular_stored(EditorCellView::Code(cell.ended(remark)).stored()),
{
    assert(cell.ended(remark).outputs.drop_last() =~= cell.outputs);
}

/// Adding a cell that can be read again keeps the editor regular.
pub proof fn inserting_keeps_an_editor_regular(
    state: EditorState,
    item: NotebookItemView,
    index: usize,
    cell: NotebookCellView,
)
    requires
        state.regular(item),
        regular_stored(cell),
    ensures
        state.with_inserted(index, loaded(cell, state.language)).regular(item),
{
    let joining = loaded(cell, state.language);
    let after = state.with_inserted(index, joining);
    loading_keeps_a_cell(cell, state.language);
    assert forall|id: Seq<char>| #[trigger]
        after.cells.contains_key(id) implies regular_stored(after.cells[id].stored()) by {
        if id == joining.cell_id() {
            if let Some(history) = state.nav_history {
                lemma_update_keeps_regular(joining, CellUpdateView::NavHistory(history));
            }
        } else {
            assert(state.cells.contains_key(id));
        }
    }
}

/// Arranging, copying and removing cells keeps the editor regular.
pub proof fn arranging_keeps_an_editor_regular(
    state: EditorState,
    item: NotebookItemView,
    id: Seq<char>,
)
    requires
        state.wf(),
        state.regular(item),
    ensures
        state.moved_up().regular(item),
        state.moved_down().regular(item),
        state.with_duplicate(id).regular(item),
        state.without_selected().regular(item),
{
    if state.selected < state.order.len() {
        let selected = state.order[state.selected as int];
        assert(state.order.contains(selected));
        assert(state.cells.contains_key(selected));
        let cell = state.cells[selected].stored();
        lemma_duplicate_is_regular(cell, id);
        inserting_keeps_an_editor_regular(
            state,
            item,
            state.insertion_index(),
            duplicated(cell, id),
        );
        let left = state.without_selected();
        assert forall|other: Seq<char>| #[trigger]
            left.cells.contains_key(other) implies regular_stored(left.cells[other].stored()) by {
            assert(state.cells.contains_key(other));
        }
    }
}

/// What happens to each cell without regard to the others, saving among it, keeps the editor
/// regular.
pub proof fn updating_keeps_an_editor_regular(
    state: EditorState,
    item: NotebookItemView,
    update: CellUpdateView,
)
    requires
        state.regular(item),
    ensures
        state.with_update(update).regular(item),
        state.saved().regular(item),
{
    let after = state.with_update(update);
    assert forall|id: Seq<char>| #[trigger]
        after.cells.contains_key(id) implies regular_stored(after.cells[id].stored()) by {
        assert(state.cells.contains_key(id));
        lemma_update_keeps_regular(state.cells[id], update);
    }
    let saved = state.saved();
    assert forall|id: Seq<char>| #[trigger]
        saved.cells.contains_key(id) implies regular_stored(saved.cells[id].stored()) by {
        assert(state.cells.contains_key(id));
        lemma_update_keeps_regular(state.cells[id], CellUpdateView::Saved);
    }
}

/// Using a notebook with another kernel keeps the editor regular.
pub proof fn launching_keeps_an_editor_regular(
    state: EditorState,
    item: NotebookItemView,
    specification: KernelSpecificationView,
)
    requires
        state.regular(item),
    ensures
        state.launching(specification).regular(item.used_with(specification)),
{
    let after = state.launching(specification);
    assert forall|id: Seq<char>| #[trigger]
        after.cells.contains_key(id) implies regular_stored(after.cells[id].stored()) by {
        assert(state.cells.contains_key(id));
    }
}

/// An editor that is reloaded from the file that it was saved to shows the same cells in the same
/// order, each of its kind and with its text, and has nothing to save. Where what it showed is
/// regular, the notebook says the same about itself.
pub proof fn a_saved_notebook_comes_back(
    state: EditorState,
    item: NotebookItemView,
    back: StoredNotebookView,
    id: Seq<char>,
)
    requires
        state.wf(),
        state.order.no_duplicates(),
        restored(state.notebook(item), back),
    ensures
        state.reloaded(back.cells).order == state.order,
        state.reloaded(back.cells).cells.dom() == state.cells.dom(),
        !state.reloaded(back.cells).structure_changed(),
        !state.reloaded(back.cells).metadata_dirty,
        !state.reloaded(back.cells).dirty(),
        state.cells.contains_key(id) ==> same_cell(
            state.cells[id].stored(),
            state.reloaded(back.cells).cells[id].stored(),
        ),
        regular(state.notebook(item)) ==> alike_metadata(
            item.notebook.metadata,
            back.metadata,
        ),
{
    let cells = state.notebook(item).cells;
    let after = state.reloaded(back.cells);
    assert(same_cells(cells, back.cells));
    assert forall|i: int| 0 <= i < cells.len() implies #[trigger] cell_ids(back.cells)[i]
        == state.order[i] by {
        assert(same_cell(cells[i], back.cells[i]));
        assert(state.order.contains(state.order[i]));
        assert(state.cells.contains_key(state.order[i]));
    }
    assert(after.order =~= state.order);
    reloading_shows_the_file(state, item, back.cells);
    lemma_loaded_cells(back.cells, state.language);
    assert forall|other: Seq<char>|
        after.cells.dom().contains(other) <==> state.cells.dom().contains(other) by {
        assert(loaded_cells(back.cells, state.language).contains_key(other) <==> cell_ids(
            back.cells,
        ).contains(other));
        assert(state.order.contains(other) <==> state.cells.contains_key(other));
    }
    assert(after.cells.dom() =~= state.cells.dom());
    if state.cells.contains_key(id) {
        assert(state.order.contains(id));
        let i = choose|i: int| 0 <= i < state.order.len() && state.order[i] == id;
        assert(same_cell(cells[i], back.cells[i]));
        assert(after.notebook(item).cells[i] == after.cells[id].stored());
    }
}

} // verus!
