//! What a notebook editor holds.

use std::collections::VecDeque;
use vstd::prelude::*;

use crate::cell::{all_updated, CellTest, CellUpdateView, EditorCell, EditorCellView};
use crate::id_map::IdMap;
use crate::ids::{valid_cell_id, CellId, IdSource};
use crate::kernel::{Kernel, KernelSpecification, KernelSpecificationView, KernelView};
use crate::message::{Deliveries, Delivery, PendingCompletion};
use crate::text::{opt_text, texts};

verus! {

/// The list in which cells are drawn.
#[derive(Clone, Copy, PartialEq, Eq, Structural, Debug)]
pub struct CellList {
    /// How many cells it has.
    pub item_count: usize,
    /// The cell that it was last scrolled to.
    pub revealed: Option<usize>,
}

/// An editor of a notebook.
pub struct NotebookEditor {
    pub worktree_id: u64,
    /// The language in which code is shown.
    pub notebook_language: Option<u64>,
    pub cell_list: CellList,
    pub selected_cell_index: usize,
    pub cell_order: Vec<CellId>,
    /// The order that was last saved.
    pub original_cell_order: Vec<CellId>,
    pub cell_map: IdMap<EditorCell>,
    pub kernel: Kernel,
    pub kernel_specification: Option<KernelSpecification>,
    /// The cells that are being run, by the requests that run them.
    pub execution_requests: IdMap<CellId>,
    /// Those who wait for completions, by the requests that ask for them.
    pub completion_requests: IdMap<PendingCompletion>,
    /// The cells that are still to be run one after the other.
    pub run_all_queue: VecDeque<CellId>,
    pub run_all_in_progress: bool,
    /// The history that records which places were visited.
    pub nav_history: Option<u64>,
    pub last_error: Option<String>,
    pub notebook_metadata_dirty: bool,
    /// Whether the editor has to be drawn again.
    pub stale: bool,
    /// The completions that have been handed out.
    pub delivered: Deliveries,
    /// Where the identifiers of new cells come from.
    pub ids: IdSource,
}

/// What a [`NotebookEditor`] stands for.
#[verifier::ext_equal]
pub struct EditorState {
    pub worktree_id: u64,
    pub language: Option<u64>,
    pub list: CellList,
    pub selected: usize,
    pub order: Seq<Seq<char>>,
    pub original_order: Seq<Seq<char>>,
    pub cells: Map<Seq<char>, EditorCellView>,
    pub kernel: KernelView,
    pub specification: Option<KernelSpecificationView>,
    pub executions: Map<Seq<char>, Seq<char>>,
    pub completions: Map<Seq<char>, int>,
    pub queue: Seq<Seq<char>>,
    pub running_all: bool,
    pub nav_history: Option<u64>,
    pub last_error: Option<Seq<char>>,
    pub metadata_dirty: bool,
    pub stale: bool,
    pub delivered: Seq<Delivery>,
    /// The completions that nobody waited for any more.
    pub lost: Seq<Delivery>,
    /// The identifiers that were drawn for new cells.
    pub drawn: Seq<Seq<char>>,
}

impl View for NotebookEditor {
    type V = EditorState;

    open spec fn view(&self) -> EditorState {
        EditorState {
            worktree_id: self.worktree_id,
            language: self.notebook_language,
            list: self.cell_list,
            selected: self.selected_cell_index,
            order: texts(self.cell_order@),
            original_order: texts(self.original_cell_order@),
            cells: self.cell_map@,
            kernel: self.kernel@,
            specification: match self.kernel_specification {
                Some(specification) => Some(specification@),
                None => None,
            },
            executions: self.execution_requests@,
            completions: self.completion_requests@,
            queue: texts(self.run_all_queue@),
            running_all: self.run_all_in_progress,
            nav_history: self.nav_history,
            last_error: opt_text(self.last_error),
            metadata_dirty: self.notebook_metadata_dirty,
            stale: self.stale,
            delivered: self.delivered.log(),
            lost: self.delivered.lost(),
            drawn: self.ids.log(),
        }
    }
}

impl EditorState {
    /// The order lists the identifiers of the cells and no others, each cell is filed under its
    /// own identifier, the notebook format accepts each identifier, and the list has an item for
    /// each place in the order.
    pub open spec fn wf(self) -> bool {
        &&& forall|id: Seq<char>|
            #[trigger] self.order.contains(id) <==> self.cells.contains_key(id)
        &&& forall|id: Seq<char>| #[trigger]
            self.cells.contains_key(id) ==> self.cells[id].cell_id() == id && valid_cell_id(id)
        &&& self.cells.dom().finite()
        &&& self.list.item_count == self.order.len()
    }

    /// The selection is a place in the order, or the first place where there are none.
    pub open spec fn selection_valid(self) -> bool {
        self.selected < self.order.len() || (self.order.len() == 0 && self.selected == 0)
    }

    /// Whether `id` is that of a code cell.
    pub open spec fn has_code_cell(self, id: Seq<char>) -> bool {
        self.cells.contains_key(id) && self.cells[id] is Code
    }

    /// The editor with a cell in place of the one with its identifier.
    pub open spec fn with_cell(self, id: Seq<char>, cell: EditorCellView) -> EditorState {
        EditorState { cells: self.cells.insert(id, cell), ..self }
    }

    /// The editor after an update of each cell.
    pub open spec fn with_update(self, update: CellUpdateView) -> EditorState {
        EditorState { cells: all_updated(self.cells, update), ..self }
    }

    /// The editor with a message about what went wrong last.
    pub open spec fn with_error(self, message: Seq<char>) -> EditorState {
        EditorState { last_error: Some(message), stale: true, ..self }
    }

    /// The editor without such a message. It is drawn again only if there was one.
    pub open spec fn without_error(self) -> EditorState {
        EditorState { last_error: None, stale: self.stale || self.last_error is Some, ..self }
    }

    /// The editor once it has to be drawn again.
    pub open spec fn notified(self) -> EditorState {
        EditorState { stale: true, ..self }
    }

    /// The editor once it has drawn an identifier.
    pub open spec fn drew(self, id: Seq<char>) -> EditorState {
        EditorState { drawn: self.drawn.push(id), ..self }
    }

    /// Whether some cell is being run.
    pub open spec fn executing(self) -> bool {
        CellTest::Executing.holds_of_some(self.cells)
    }
}

/// Other cells under the same identifiers keep the editor well-formed.
pub proof fn lemma_same_ids_wf(state: EditorState, cells: Map<Seq<char>, EditorCellView>)
    requires
        state.wf(),
        cells.dom() =~= state.cells.dom(),
        forall|id: Seq<char>| #[trigger] cells.contains_key(id) ==> cells[id].cell_id() == id,
    ensures
        (EditorState { cells, ..state }).wf(),
{
    let after = EditorState { cells, ..state };
    assert forall|id: Seq<char>| #[trigger]
        after.order.contains(id) <==> after.cells.contains_key(id) by {
        assert(state.order.contains(id) <==> state.cells.contains_key(id));
    }
    assert forall|id: Seq<char>| #[trigger]
        after.cells.contains_key(id) implies after.cells[id].cell_id() == id && valid_cell_id(
        id,
    ) by {
        assert(state.cells.contains_key(id));
    }
}

/// Changing a cell keeps the editor well-formed.
pub proof fn lemma_with_cell_wf(state: EditorState, id: Seq<char>, cell: EditorCellView)
    requires
        state.wf(),
        state.cells.contains_key(id),
        cell.cell_id() == id,
    ensures
        state.with_cell(id, cell).wf(),
{
    lemma_same_ids_wf(state, state.cells.insert(id, cell));
}

/// Updating each cell keeps the editor well-formed.
pub proof fn lemma_with_update_wf(state: EditorState, update: CellUpdateView)
    requires
        state.wf(),
    ensures
        state.with_update(update).wf(),
{
    lemma_same_ids_wf(state, all_updated(state.cells, update));
}

impl NotebookEditor {
    /// What the editor stands for is well-formed, and no map has an identifier twice.
    pub open spec fn wf(&self) -> bool {
        &&& self.cell_map.wf()
        &&& self.execution_requests.wf()
        &&& self.completion_requests.wf()
        &&& self@.wf()
    }

    /// Takes note of what went wrong.
    pub fn set_last_error(&mut self, message: String)
        requires
            old(self).wf(),
        ensures
            final(self).wf(),
            final(self)@ == old(self)@.with_error(message@),
    {
        self.last_error = Some(message);
        self.stale = true;
    }

    /// Forgets what went wrong.
    pub fn clear_last_error(&mut self)
        requires
            old(self).wf(),
        ensures
            final(self).wf(),
            final(self)@ == old(self)@.without_error(),
    {
        if self.last_error.is_some() {
            self.last_error = None;
            self.stale = true;
        }
    }
}

} // verus!
