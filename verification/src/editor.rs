//! Opening a notebook in an editor, arranging its cells, and saving it.

use std::collections::VecDeque;
use vstd::prelude::*;

use crate::cell::{
    all_updated, empty_cell_metadata, loaded, CellPosition, CellTest, CellUpdate, CellUpdateView,
    EditorCell, EditorCellView,
};
use crate::document::{
    is_text_of_notebook, outcome, regular, render_notebook, repair_notebook, repaired, restored,
    OpenError,
};
use crate::id_map::IdMap;
use crate::ids::{is_uuid_text, lemma_uuid_is_valid, valid_cell_id, CellId, IdSource};
use crate::item::{NotebookItem, NotebookItemView};
use crate::json::JsonView;
use crate::kernel::{specification_views, Directories, Kernel, KernelSpecification, KernelView};
use crate::message::Deliveries;
use crate::notebook::{
    cell_ids, cell_views, metadata_clashes, metadata_json, valid_ids, CellContent, CellContentView,
    NotebookCell, NotebookCellView, StoredNotebook, StoredNotebookView,
};
use crate::session::{is_choice, Launch};
use crate::state::{lemma_with_cell_wf, lemma_with_update_wf, CellList, EditorState, NotebookEditor};
use crate::text::{blank, copy_strings, is_white_space, opt_text, same_strings, texts};

verus! {

/// What is written to a file.
pub struct SavedFile {
    pub path: String,
    pub text: String,
}

/// A file that the user has to choose, to be opened in an editor of its own.
pub struct WantedFile {
    pub extension: String,
}

/// The cells of a notebook as the editor files them. Of cells that share an identifier the last is
/// kept.
pub open spec fn loaded_cells(cells: Seq<NotebookCellView>, language: Option<u64>) -> Map<
    Seq<char>,
    EditorCellView,
>
    decreases cells.len(),
{
    if cells.len() == 0 {
        Map::empty()
    } else {
        loaded_cells(cells.drop_last(), language).insert(
            cells.last().id,
            loaded(cells.last(), language),
        )
    }
}

/// An editor that has just loaded a notebook and has no kernel.
pub open spec fn opened_editor(
    worktree_id: u64,
    cells: Seq<NotebookCellView>,
    language: Option<u64>,
) -> EditorState {
    EditorState {
        worktree_id,
        language,
        list: CellList { item_count: cells.len() as usize, revealed: None },
        selected: 0,
        order: cell_ids(cells),
        original_order: cell_ids(cells),
        cells: loaded_cells(cells, language),
        kernel: KernelView::Shutdown,
        specification: None,
        executions: Map::empty(),
        completions: Map::empty(),
        queue: Seq::empty(),
        running_all: false,
        nav_history: None,
        last_error: None,
        metadata_dirty: false,
        stale: false,
        delivered: Seq::empty(),
        lost: Seq::empty(),
        drawn: Seq::empty(),
    }
}

/// The stored form of the cells with the given identifiers, in their order.
pub open spec fn stored_cells(
    order: Seq<Seq<char>>,
    cells: Map<Seq<char>, EditorCellView>,
) -> Seq<NotebookCellView> {
    order.map_values(|id: Seq<char>| cells[id].stored())
}

/// A cell as it is stored anew under another identifier: without what came of running it.
pub open spec fn duplicated(cell: NotebookCellView, id: Seq<char>) -> NotebookCellView {
    NotebookCellView {
        id,
        content: match cell.content {
            CellContentView::Code { .. } => CellContentView::Code {
                execution_count: None,
                outputs: Seq::empty(),
            },
            other => other,
        },
        ..cell
    }
}

/// A cell without text that is added has an identifier of the form of a random UUID and empty
/// metadata.
pub open spec fn is_new_cell(cell: NotebookCellView, content: CellContentView) -> bool {
    &&& is_uuid_text(cell.id)
    &&& metadata_json(cell.metadata) == JsonView::Object(Map::empty())
    &&& !metadata_clashes(cell.metadata)
    &&& cell.source == Seq::<Seq<char>>::empty()
    &&& cell.content == content
}

/// The identifiers of `order` without each occurrence of `id`.
pub open spec fn without_id(order: Seq<Seq<char>>, id: Seq<char>) -> Seq<Seq<char>>
    decreases order.len(),
{
    if order.len() == 0 {
        Seq::empty()
    } else if order.last() == id {
        without_id(order.drop_last(), id)
    } else {
        without_id(order.drop_last(), id).push(order.last())
    }
}

impl EditorState {
    /// Whether cells have been added, removed or moved since the last save.
    pub open spec fn structure_changed(self) -> bool {
        self.order != self.original_order
    }

    /// Whether there is something to save.
    pub open spec fn dirty(self) -> bool {
        self.structure_changed() || CellTest::Dirty.holds_of_some(self.cells)
            || self.metadata_dirty
    }

    /// The editor once it has been saved.
    pub open spec fn saved(self) -> EditorState {
        EditorState {
            original_order: self.order,
            metadata_dirty: false,
            stale: true,
            ..self.with_update(CellUpdateView::Saved)
        }
    }

    /// The notebook that the editor shows, with the given metadata.
    pub open spec fn notebook(self, item: NotebookItemView) -> StoredNotebookView {
        StoredNotebookView {
            metadata: item.notebook.metadata,
            nbformat: 4,
            nbformat_minor: 5,
            cells: stored_cells(self.order, self.cells),
        }
    }

    /// A cell as it is when it joins the editor: its text is recorded in the history.
    pub open spec fn joined_cell(self, cell: EditorCellView) -> EditorCellView {
        match self.nav_history {
            Some(history) => cell.updated(CellUpdateView::NavHistory(history)),
            None => cell,
        }
    }

    /// The editor with one more cell, which is selected.
    pub open spec fn with_inserted(
        self,
        index: usize,
        cell: EditorCellView,
    ) -> EditorState {
        let order = self.order.insert(index as int, cell.cell_id());
        EditorState {
            order,
            cells: self.cells.insert(cell.cell_id(), self.joined_cell(cell)),
            selected: index,
            list: CellList { item_count: order.len() as usize, revealed: None },
            stale: true,
            ..self
        }
    }

    /// Where a new cell goes: behind the selected one.
    pub open spec fn insertion_index(self) -> usize {
        if self.order.len() == 0 {
            0
        } else {
            (self.selected + 1) as usize
        }
    }

    /// The editor with one more cell behind the selected one.
    pub open spec fn with_added(self, cell: NotebookCellView) -> EditorState {
        self.with_inserted(self.insertion_index(), loaded(cell, self.language))
    }

    /// The editor with a copy of the selected cell behind it, if a cell is selected.
    pub open spec fn with_duplicate(self, id: Seq<char>) -> EditorState {
        if self.selected < self.order.len() {
            let selected = self.order[self.selected as int];
            self.with_added(duplicated(self.cells[selected].stored(), id))
        } else {
            self
        }
    }

    /// `after` is what the editor may become by copying the selected cell, for which an identifier
    /// is drawn. Where no cell is selected, nothing happens.
    pub open spec fn duplicates_selected(self, after: EditorState) -> bool {
        if self.selected < self.order.len() {
            exists|id: Seq<char>|
                is_uuid_text(id) && #[trigger] self.drew(id).with_duplicate(id) == after
        } else {
            after == self
        }
    }

    /// The editor without the selected cell.
    pub open spec fn without_selected(self) -> EditorState {
        if self.selected < self.order.len() {
            let id = self.order[self.selected as int];
            let order = without_id(self.order, id);
            EditorState {
                order,
                cells: self.cells.remove(id),
                selected: if order.len() == 0 {
                    0
                } else if self.selected >= order.len() {
                    (order.len() - 1) as usize
                } else {
                    self.selected
                },
                list: CellList { item_count: order.len() as usize, revealed: None },
                stale: true,
                ..self
            }
        } else {
            self
        }
    }

    /// The editor with two neighbours in the order exchanged, of which the second place is
    /// selected.
    pub open spec fn with_exchanged(self, from: int, to: int) -> EditorState {
        EditorState {
            order: self.order.update(from, self.order[to]).update(to, self.order[from]),
            selected: to as usize,
            stale: true,
            ..self
        }
    }

    /// The editor once the selected cell has moved towards the beginning, unless it is there.
    pub open spec fn moved_up(self) -> EditorState {
        if self.selected > 0 {
            self.with_exchanged(self.selected as int, self.selected - 1)
        } else {
            self
        }
    }

    /// The editor once the selected cell has moved towards the end, unless it is there.
    pub open spec fn moved_down(self) -> EditorState {
        if self.selected + 1 < self.order.len() {
            self.with_exchanged(self.selected as int, self.selected + 1)
        } else {
            self
        }
    }

    /// The editor with another place selected, to which the list may be scrolled.
    pub open spec fn with_selected(self, index: usize, jump: bool) -> EditorState {
        EditorState {
            selected: index,
            list: if jump {
                CellList { revealed: Some(index), ..self.list }
            } else {
                self.list
            },
            ..self
        }
    }

    /// How many cells there are.
    pub open spec fn cell_count(self) -> nat {
        self.cells.dom().len()
    }

    /// The editor once the next cell has been selected. At the last it stays there.
    pub open spec fn selected_next(self) -> EditorState {
        if self.cell_count() > 0 {
            self.with_selected(
                if self.selected == self.cell_count() - 1 {
                    self.selected
                } else {
                    (self.selected + 1) as usize
                },
                true,
            ).notified()
        } else {
            self
        }
    }

    /// The editor once the previous cell has been selected. At the first it stays there.
    pub open spec fn selected_previous(self) -> EditorState {
        if self.cell_count() > 0 {
            self.with_selected(
                if self.selected == 0 {
                    0
                } else {
                    (self.selected - 1) as usize
                },
                true,
            ).notified()
        } else {
            self
        }
    }

    /// The editor once the first cell has been selected.
    pub open spec fn selected_first(self) -> EditorState {
        if self.cell_count() > 0 {
            self.with_selected(0, true).notified()
        } else {
            self
        }
    }

    /// The editor once the last cell has been selected.
    pub open spec fn selected_last(self) -> EditorState {
        if self.cell_count() > 0 {
            self.with_selected((self.cell_count() - 1) as usize, true).notified()
        } else {
            self
        }
    }

    /// The editor with another language for code.
    pub open spec fn with_language(self, language: Option<u64>) -> EditorState {
        EditorState { language, ..self.with_update(CellUpdateView::Language(language)) }
    }

    /// The editor with a history of the places visited.
    pub open spec fn with_nav_history(self, history: u64) -> EditorState {
        EditorState {
            nav_history: Some(history),
            ..self.with_update(CellUpdateView::NavHistory(history))
        }
    }

    /// The editor once it shows what its file now holds. The selection stays where it is.
    pub open spec fn reloaded(self, cells: Seq<NotebookCellView>) -> EditorState {
        let fresh = loaded_cells(cells, self.language);
        EditorState {
            order: cell_ids(cells),
            original_order: cell_ids(cells),
            cells: match self.nav_history {
                Some(history) => all_updated(
                    fresh,
                    CellUpdateView::NavHistory(history),
                ),
                None => fresh,
            },
            list: CellList { item_count: cells.len() as usize, revealed: None },
            metadata_dirty: false,
            stale: true,
            ..self
        }
    }

    /// Where the cell at a place stands among the cells.
    pub open spec fn position_at(self, index: usize) -> CellPosition {
        if index == 0 {
            CellPosition::First
        } else if index == self.cell_count() - 1 {
            CellPosition::Last
        } else {
            CellPosition::Middle
        }
    }

    /// The editor once the list has been scrolled to a place.
    pub open spec fn scrolled_to(self, index: usize) -> EditorState {
        EditorState { list: CellList { revealed: Some(index), ..self.list }, ..self }
    }

    /// The editor once the cell at a place has been drawn: the cell knows where it stands and
    /// whether it is selected.
    pub open spec fn with_drawn(self, index: usize) -> EditorState {
        let id = self.order[index as int];
        self.with_cell(
            id,
            self.cells[id].placed(index == self.selected, self.position_at(index)),
        )
    }

    /// The selected cell, if its text can be edited.
    pub open spec fn selected_text(self) -> Option<Seq<char>> {
        match self.selected_id() {
            Some(id) => if self.cells[id] is Raw {
                None
            } else {
                Some(id)
            },
            None => None,
        }
    }
}

/// What is left of an order without an identifier.
pub proof fn lemma_without_id(order: Seq<Seq<char>>, id: Seq<char>, other: Seq<char>)
    ensures
        without_id(order, id).contains(other) <==> order.contains(other) && other != id,
        without_id(order, id).len() <= order.len(),
    decreases order.len(),
{
    if order.len() > 0 {
        let init = order.drop_last();
        let left = without_id(init, id);
        lemma_without_id(init, id, other);
        lemma_push_contains(init, order.last(), other);
        lemma_push_contains(left, order.last(), other);
        assert(init.push(order.last()) =~= order);
    }
}

/// A longer sequence holds what the shorter one does and the last element.
proof fn lemma_push_contains<A>(s: Seq<A>, last: A, x: A)
    ensures
        s.push(last).contains(x) <==> s.contains(x) || x == last,
{
    let longer = s.push(last);
    if s.contains(x) {
        let i = choose|i: int| 0 <= i < s.len() && s[i] == x;
        assert(longer[i] == x);
    }
    if longer.contains(x) && x != last {
        let i = choose|i: int| 0 <= i < longer.len() && longer[i] == x;
        assert(s[i] == x);
    }
    assert(longer[s.len() as int] == last);
}

/// The loaded cells are filed under the identifiers of the stored ones.
pub proof fn lemma_loaded_cells(cells: Seq<NotebookCellView>, language: Option<u64>)
    ensures
        loaded_cells(cells, language).dom().finite(),
        forall|id: Seq<char>| #[trigger]
            loaded_cells(cells, language).contains_key(id) <==> cell_ids(cells).contains(id),
        forall|id: Seq<char>| #[trigger]
            loaded_cells(cells, language).contains_key(id) ==> loaded_cells(
                cells,
                language,
            )[id].cell_id() == id,
    decreases cells.len(),
{
    if cells.len() > 0 {
        let init = cells.drop_last();
        lemma_loaded_cells(init, language);
        assert(cell_ids(cells) =~= cell_ids(init).push(cells.last().id));
        assert forall|id: Seq<char>| #[trigger]
            loaded_cells(cells, language).contains_key(id) <==> cell_ids(cells).contains(id) by {
            lemma_push_contains(cell_ids(init), cells.last().id, id);
        }
    } else {
        assert(!cell_ids(cells).contains(cell_ids(cells)[0]));
    }
}

/// Cells that are shown as they were loaded form a well-formed editor.
pub proof fn lemma_loaded_wf(
    state: EditorState,
    cells: Seq<NotebookCellView>,
    language: Option<u64>,
)
    requires
        valid_ids(cells),
        state.order == cell_ids(cells),
        state.cells == loaded_cells(cells, language),
        state.list.item_count == cells.len(),
    ensures
        state.wf(),
{
    lemma_loaded_cells(cells, language);
    assert forall|id: Seq<char>|
        #[trigger] state.cells.contains_key(id) implies state.cells[id].cell_id()
        == id && valid_cell_id(id) by {
        let i = choose|i: int| 0 <= i < cells.len() && cell_ids(cells)[i] == id;
        assert(valid_cell_id(cells[i].id));
    }
}

/// Loads the cells of a notebook.
fn load_cells(cells: &Vec<NotebookCell>, language: Option<u64>) -> (result: (
    Vec<CellId>,
    IdMap<EditorCell>,
))
    ensures
        texts(result.0@) == cell_ids(cell_views(cells@)),
        result.0@.len() == cells@.len(),
        result.1.wf(),
        result.1@ == loaded_cells(cell_views(cells@), language),
{
    let mut order: Vec<CellId> = Vec::new();
    let mut map: IdMap<EditorCell> = IdMap::new();
    let ghost views = cell_views(cells@);
    let mut i: usize = 0;
    while i < cells.len()
        invariant
            0 <= i <= cells@.len(),
            views == cell_views(cells@),
            texts(order@) == cell_ids(views.take(i as int)),
            map.wf(),
            map@ == loaded_cells(views.take(i as int), language),
        decreases cells@.len() - i,
    {
        let ghost before = order@;
        let cell = &cells[i];
        order.push(cell.id.clone());
        map.insert(cell.id.clone(), EditorCell::load(cell, language));
        proof {
            let next = views.take(i + 1);
            assert(next.drop_last() =~= views.take(i as int));
            assert(next.last() == cell@);
            assert(texts(order@) =~= texts(before).push(cell.id@));
            assert(cell_ids(next) =~= cell_ids(views.take(i as int)).push(cell.id@));
        }
        i += 1;
    }
    assert(views.take(i as int) =~= views);
    assert(order@.len() == texts(order@).len());
    (order, map)
}

impl NotebookEditor {
    /// Opens a notebook in an editor, where `language` is the language of the notebook as far as it
    /// is known, and starts a kernel.
    pub fn new<P>(
        item: &mut NotebookItem,
        language: Option<u64>,
        available: &Vec<KernelSpecification>,
        directories: Directories<P>,
    ) -> (result: (NotebookEditor, Launch<P>))
        requires
            old(item).wf(),
        ensures
            result.0.wf(),
            final(item).wf(),
            is_choice(None, old(item)@, specification_views(available@), result.1.specification@),
            result.1.is_of(result.1.specification@, directories),
            !result.1.shut_down,
            result.0@ == opened_editor(
                old(item)@.project_path.worktree_id,
                old(item)@.notebook.cells,
                language,
            ).launching(result.1.specification@),
            final(item)@ == old(item)@.used_with(result.1.specification@),
    {
        let (cell_order, cell_map) = load_cells(&item.notebook.cells, language);
        let original_cell_order = copy_strings(&cell_order);
        let cell_list = CellList { item_count: cell_order.len(), revealed: None };
        let mut editor = NotebookEditor {
            worktree_id: item.project_path.worktree_id,
            notebook_language: language,
            cell_list,
            selected_cell_index: 0,
            cell_order,
            original_cell_order,
            cell_map,
            kernel: Kernel::Shutdown,
            kernel_specification: None,
            execution_requests: IdMap::new(),
            completion_requests: IdMap::new(),
            run_all_queue: VecDeque::new(),
            run_all_in_progress: false,
            nav_history: None,
            last_error: None,
            notebook_metadata_dirty: false,
            stale: false,
            delivered: Deliveries::new(),
            ids: IdSource::new(),
        };
        proof {
            let cells = item@.notebook.cells;
            assert(texts(editor.run_all_queue@) =~= Seq::<Seq<char>>::empty());
            assert(editor@ == opened_editor(item@.project_path.worktree_id, cells, language));
            lemma_loaded_wf(editor@, cells, language);
        }
        let launch = editor.launch_kernel(item, available, directories);
        (editor, launch)
    }

    /// Opens the same notebook in another editor.
    pub fn clone_on_split<P>(
        &self,
        item: &mut NotebookItem,
        language: Option<u64>,
        available: &Vec<KernelSpecification>,
        directories: Directories<P>,
    ) -> (result: (NotebookEditor, Launch<P>))
        requires
            old(item).wf(),
        ensures
            result.0.wf(),
            final(item).wf(),
            is_choice(None, old(item)@, specification_views(available@), result.1.specification@),
            result.1.is_of(result.1.specification@, directories),
            !result.1.shut_down,
            result.0@ == opened_editor(
                old(item)@.project_path.worktree_id,
                old(item)@.notebook.cells,
                language,
            ).launching(result.1.specification@),
            final(item)@ == old(item)@.used_with(result.1.specification@),
    {
        NotebookEditor::new(item, language, available, directories)
    }

    /// Shows code in the language of the notebook.
    pub fn refresh_language(&mut self, language: Option<u64>)
        requires
            old(self).wf(),
        ensures
            final(self).wf(),
            final(self)@ == old(self)@.with_language(language),
    {
        let ghost before = self@;
        self.notebook_language = language;
        self.cell_map.apply_all(&CellUpdate::Language(language));
        proof {
            lemma_with_update_wf(before, CellUpdateView::Language(language));
        }
    }

    /// Whether cells have been added, removed or moved since the last save.
    pub fn has_structural_changes(&self) -> (changed: bool)
        ensures
            changed == self@.structure_changed(),
    {
        !same_strings(&self.cell_order, &self.original_cell_order)
    }

    /// Whether some cell differs from what was saved.
    pub fn has_content_changes(&self) -> (changed: bool)
        requires
            self.wf(),
        ensures
            changed == CellTest::Dirty.holds_of_some(self@.cells),
    {
        self.cell_map.any(CellTest::Dirty)
    }

    /// Whether the metadata of the notebook differ from what was saved.
    pub fn has_metadata_changes(&self) -> (changed: bool)
        ensures
            changed == self@.metadata_dirty,
    {
        self.notebook_metadata_dirty
    }

    /// Whether there is something to save.
    pub fn is_dirty(&self) -> (dirty: bool)
        requires
            self.wf(),
        ensures
            dirty == self@.dirty(),
    {
        self.has_structural_changes() || self.has_content_changes() || self.has_metadata_changes()
    }

    /// The notebook that the editor shows.
    pub fn to_notebook(&self, item: &NotebookItem) -> (notebook: StoredNotebook)
        requires
            self.wf(),
        ensures
            notebook@ == self@.notebook(item@),
            notebook.wf(),
    {
        let mut cells: Vec<NotebookCell> = Vec::new();
        let mut i: usize = 0;
        while i < self.cell_order.len()
            invariant
                self.wf(),
                0 <= i <= self.cell_order@.len(),
                cells@.len() == i,
                forall|j: int|
                    0 <= j < i ==> (#[trigger] cells@[j])@ == self@.cells[self@.order[j]].stored(),
            decreases self.cell_order@.len() - i,
        {
            let id = &self.cell_order[i];
            assert(self@.order[i as int] == id@);
            assert(self@.order.contains(id@));
            if let Some(cell) = self.cell_map.get(id) {
                cells.push(cell.to_notebook_cell());
            }
            i += 1;
        }
        assert(cell_views(cells@) =~= stored_cells(self@.order, self@.cells));
        let notebook = StoredNotebook {
            metadata: item.notebook.metadata.copy(),
            nbformat: 4,
            nbformat_minor: 5,
            cells,
        };
        proof {
            assert forall|j: int| 0 <= j < notebook@.cells.len() implies valid_cell_id(
                (#[trigger] notebook@.cells[j]).id,
            ) by {
                let id = self@.order[j];
                assert(self@.order.contains(id));
                assert(self@.cells[id].stored().id == self@.cells[id].cell_id());
            }
        }
        notebook
    }

    /// Takes note that the notebook has been saved.
    pub fn mark_as_saved(&mut self)
        requires
            old(self).wf(),
        ensures
            final(self).wf(),
            final(self)@ == old(self)@.saved(),
    {
        let ghost before = self@;
        self.original_cell_order = copy_strings(&self.cell_order);
        self.cell_map.apply_all(&CellUpdate::Saved);
        self.notebook_metadata_dirty = false;
        self.stale = true;
        proof {
            lemma_with_update_wf(before, CellUpdateView::Saved);
        }
    }

    /// What is written to the file of the notebook when it is saved.
    pub fn save(&self, item: &NotebookItem) -> (result: Result<SavedFile, serde_json::Error>)
        requires
            self.wf(),
        ensures
            result is Ok,
            result->Ok_0.path@ == item@.path,
            is_text_of_notebook(self@.notebook(item@), result->Ok_0.text@),
            !blank(result->Ok_0.text@),
    {
        self.save_as(item, item.path.clone())
    }

    /// What is written to another file when the notebook is saved there.
    pub fn save_as(&self, item: &NotebookItem, path: String) -> (result: Result<
        SavedFile,
        serde_json::Error,
    >)
        requires
            self.wf(),
        ensures
            result is Ok,
            result->Ok_0.path@ == path@,
            is_text_of_notebook(self@.notebook(item@), result->Ok_0.text@),
            !blank(result->Ok_0.text@),
    {
        match render_notebook(self.to_notebook(item)) {
            Ok(text) => {
                assert(!is_white_space(text@[0]));
                Ok(SavedFile { path, text })
            },
            Err(error) => Err(error),
        }
    }

    /// Shows what the file of the notebook now holds, if that is a notebook. Cells without an
    /// identifier get a fresh one. From a file that a notebook was written to that notebook comes
    /// back, if it is regular.
    pub fn reload(&mut self, item: &mut NotebookItem, content: &str) -> (result: Result<
        (),
        OpenError,
    >)
        requires
            old(self).wf(),
            old(item).wf(),
        ensures
            final(self).wf(),
            final(item).wf(),
            match result {
                Ok(()) => exists|ids: Seq<Seq<char>>, notebook: StoredNotebookView| #[trigger]
                    repaired(content@, ids, Ok(notebook)) && {
                        &&& final(self)@ == old(self)@.reloaded(notebook.cells)
                        &&& final(item)@ == old(item)@.drew_all(ids).with_notebook(notebook)
                        &&& regular(notebook)
                    },
                Err(error) => {
                    &&& exists|ids: Seq<Seq<char>>| #[trigger]
                        repaired(content@, ids, Err(error)) && final(item)@
                            == old(item)@.drew_all(ids)
                    &&& final(self)@ == old(self)@
                },
            },
            blank(content@) ==> result matches Err(OpenError::InvalidJson(_)),
            forall|written: StoredNotebookView| #[trigger]
                is_text_of_notebook(written, content@) && written.nbformat == 4
                    && written.nbformat_minor == 5 ==> {
                    &&& regular(written) ==> result is Ok
                    &&& result is Ok ==> restored(written, final(item)@.notebook)
                },
    {
        let ghost before = item@;
        let repaired_notebook = repair_notebook(content, &mut item.ids);
        let ghost ids = choose|ids: Seq<Seq<char>>| #[trigger]
            repaired(content@, ids, outcome(repaired_notebook)) && item.ids.log() == before.drawn
                + ids;
        assert(item@ == before.drew_all(ids));
        match repaired_notebook {
            Ok(notebook) => {
                assert(repaired(content@, ids, Ok(notebook@)));
                self.show_notebook(item, notebook);
                Ok(())
            },
            Err(error) => {
                assert(repaired(content@, ids, Err(error)));
                Err(error)
            },
        }
    }

    /// Shows another notebook in place of the one shown.
    pub fn show_notebook(&mut self, item: &mut NotebookItem, notebook: StoredNotebook)
        requires
            old(self).wf(),
            notebook.wf(),
        ensures
            final(self).wf(),
            final(item).wf(),
            final(self)@ == old(self)@.reloaded(notebook@.cells),
            final(item)@ == old(item)@.with_notebook(notebook@),
    {
        let ghost before = self@;
        let ghost cells = notebook@.cells;
        let (cell_order, cell_map) = load_cells(&notebook.cells, self.notebook_language);
        self.original_cell_order = copy_strings(&cell_order);
        self.cell_list = CellList { item_count: cell_order.len(), revealed: None };
        self.cell_order = cell_order;
        self.cell_map = cell_map;
        proof {
            lemma_loaded_wf(self@, cells, before.language);
        }
        let ghost fresh = self@;
        if let Some(history) = self.nav_history {
            self.cell_map.apply_all(&CellUpdate::NavHistory(history));
            proof {
                lemma_with_update_wf(fresh, CellUpdateView::NavHistory(history));
            }
        }
        item.set_notebook(notebook);
        self.notebook_metadata_dirty = false;
        self.stale = true;
    }

    /// Records in a history which places of the notebook are visited.
    pub fn set_nav_history(&mut self, history: u64)
        requires
            old(self).wf(),
        ensures
            final(self).wf(),
            final(self)@ == old(self)@.with_nav_history(history),
    {
        let ghost before = self@;
        self.nav_history = Some(history);
        self.cell_map.apply_all(&CellUpdate::NavHistory(history));
        proof {
            lemma_with_update_wf(before, CellUpdateView::NavHistory(history));
        }
    }

    /// Draws the editor again because a notebook is opened. The host has to let the user choose its
    /// file.
    pub fn open_notebook(&mut self) -> (wanted: WantedFile)
        requires
            old(self).wf(),
        ensures
            final(self).wf(),
            final(self)@ == old(self)@.notified(),
            wanted.extension@ == "ipynb"@,
    {
        self.stale = true;
        WantedFile { extension: "ipynb".to_string() }
    }

    /// Moves the selected cell towards the beginning.
    pub fn move_cell_up(&mut self)
        requires
            old(self).wf(),
            old(self)@.selected > 0 ==> old(self)@.selected < old(self)@.order.len(),
        ensures
            final(self).wf(),
            final(self)@ == old(self)@.moved_up(),
    {
        let ghost before = self@;
        if self.selected_cell_index > 0 {
            let index: usize = self.selected_cell_index;
            let id = self.cell_order.remove(index);
            self.cell_order.insert(index - 1, id);
            self.selected_cell_index = index - 1;
            self.stale = true;
            proof {
                lemma_exchanged_wf(before, index as int, index - 1);
                assert(self@.order =~= before.moved_up().order);
            }
        }
    }

    /// Moves the selected cell towards the end.
    pub fn move_cell_down(&mut self)
        requires
            old(self).wf(),
        ensures
            final(self).wf(),
            final(self)@ == old(self)@.moved_down(),
    {
        let ghost before = self@;
        if self.cell_order.len() > 0 && self.selected_cell_index < self.cell_order.len() - 1 {
            let index: usize = self.selected_cell_index;
            let id = self.cell_order.remove(index);
            self.cell_order.insert(index + 1, id);
            self.selected_cell_index = index + 1;
            self.stale = true;
            proof {
                lemma_exchanged_wf(before, index as int, index + 1);
                assert(self@.order =~= before.moved_down().order);
            }
        }
    }

    /// Adds a cell, which is selected.
    pub fn insert_cell(&mut self, index: usize, cell: EditorCell)
        requires
            old(self).wf(),
            index <= old(self)@.order.len(),
            old(self)@.order.len() < usize::MAX,
            valid_cell_id(cell@.cell_id()),
        ensures
            final(self).wf(),
            final(self)@ == old(self)@.with_inserted(index, cell@),
    {
        let ghost before = self@;
        let ghost joining = cell@;
        let mut cell = cell;
        if let Some(history) = self.nav_history {
            cell.apply(&CellUpdate::NavHistory(history));
        }
        let id = match &cell {
            EditorCell::Code(cell) => cell.id.clone(),
            EditorCell::Markdown(cell) => cell.id.clone(),
            EditorCell::Raw(cell) => cell.id.clone(),
        };
        self.cell_order.insert(index, id.clone());
        self.cell_map.insert(id, cell);
        self.selected_cell_index = index;
        self.cell_list = CellList { item_count: self.cell_order.len(), revealed: None };
        self.stale = true;
        proof {
            lemma_inserted_wf(before, index, joining);
            assert(self@.order =~= before.with_inserted(index, joining).order);
        }
    }

    /// Adds a stored cell behind the selected one.
    pub fn add_cell(&mut self, cell: &NotebookCell)
        requires
            old(self).wf(),
            old(self)@.order.len() == 0 || old(self)@.selected < old(self)@.order.len(),
            old(self)@.order.len() < usize::MAX,
            valid_cell_id(cell.id@),
        ensures
            final(self).wf(),
            final(self)@ == old(self)@.with_added(cell@),
    {
        let index: usize = if self.cell_order.len() == 0 {
            0
        } else {
            self.selected_cell_index + 1
        };
        self.insert_cell(index, EditorCell::load(cell, self.notebook_language));
    }

    /// Adds a Markdown cell behind the selected one.
    pub fn add_markdown_block(&mut self)
        requires
            old(self).wf(),
            old(self)@.order.len() == 0 || old(self)@.selected < old(self)@.order.len(),
            old(self)@.order.len() < usize::MAX,
        ensures
            final(self).wf(),
            exists|cell: NotebookCellView| #[trigger]
                is_new_cell(cell, CellContentView::Markdown { attachments: None }) && final(self)@
                    == old(self)@.drew(cell.id).with_added(cell),
    {
        let cell = NotebookCell {
            id: self.ids.draw(),
            metadata: empty_cell_metadata(),
            source: Vec::new(),
            content: CellContent::Markdown { attachments: None },
        };
        proof {
            lemma_uuid_is_valid(cell.id@);
            assert(cell@.source =~= Seq::<Seq<char>>::empty());
            assert(is_new_cell(cell@, CellContentView::Markdown { attachments: None }));
        }
        self.add_cell(&cell);
    }

    /// Adds a code cell behind the selected one.
    pub fn add_code_block(&mut self)
        requires
            old(self).wf(),
            old(self)@.order.len() == 0 || old(self)@.selected < old(self)@.order.len(),
            old(self)@.order.len() < usize::MAX,
        ensures
            final(self).wf(),
            exists|cell: NotebookCellView| #[trigger]
                is_new_cell(
                    cell,
                    CellContentView::Code { execution_count: None, outputs: Seq::empty() },
                ) && final(self)@ == old(self)@.drew(cell.id).with_added(cell),
    {
        let cell = NotebookCell {
            id: self.ids.draw(),
            metadata: empty_cell_metadata(),
            source: Vec::new(),
            content: CellContent::Code { execution_count: None, outputs: Vec::new() },
        };
        proof {
            lemma_uuid_is_valid(cell.id@);
            assert(cell@.source =~= Seq::<Seq<char>>::empty());
            assert(is_new_cell(
                cell@,
                CellContentView::Code { execution_count: None, outputs: Seq::empty() },
            ));
        }
        self.add_cell(&cell);
    }

    /// Adds a copy of the selected cell behind it, without what came of running it.
    pub fn duplicate_selected_cell(&mut self)
        requires
            old(self).wf(),
            old(self)@.order.len() < usize::MAX,
        ensures
            final(self).wf(),
            old(self)@.duplicates_selected(final(self)@),
    {
        if self.selected_cell_index < self.cell_order.len() {
            let ghost before = self@;
            let id = self.ids.draw();
            proof {
                lemma_uuid_is_valid(id@);
                assert(self@ == before.drew(id@));
            }
            self.duplicate_selected_cell_as(id);
        }
    }

    /// Adds a copy of the selected cell behind it under the given identifier.
    pub fn duplicate_selected_cell_as(&mut self, id: CellId)
        requires
            old(self).wf(),
            old(self)@.order.len() < usize::MAX,
            valid_cell_id(id@),
        ensures
            final(self).wf(),
            final(self)@ == old(self)@.with_duplicate(id@),
    {
        let ghost before = self@;
        let selected = match self.selected_cell_id() {
            Some(selected) => selected,
            None => {
                return;
            },
        };
        assert(before.order.contains(selected@));
        let mut cell = match self.cell_map.get(&selected) {
            Some(cell) => cell.to_notebook_cell(),
            None => {
                return;
            },
        };
        let ghost stored = cell@;
        let ghost new_id = id@;
        cell.id = id;
        if let CellContent::Code { .. } = &cell.content {
            cell.content = CellContent::Code { execution_count: None, outputs: Vec::new() };
        }
        assert(cell@ == duplicated(stored, new_id));
        self.add_cell(&cell);
    }

    /// Removes the selected cell.
    pub fn delete_selected_cell(&mut self)
        requires
            old(self).wf(),
        ensures
            final(self).wf(),
            final(self)@ == old(self)@.without_selected(),
    {
        let ghost before = self@;
        let id = match self.selected_cell_id() {
            Some(id) => id,
            None => {
                return;
            },
        };
        let mut kept: Vec<CellId> = Vec::new();
        let mut i: usize = 0;
        while i < self.cell_order.len()
            invariant
                0 <= i <= self.cell_order@.len(),
                texts(kept@) == without_id(texts(self.cell_order@).take(i as int), id@),
            decreases self.cell_order@.len() - i,
        {
            let ghost kept_before = kept@;
            if self.cell_order[i] != id {
                kept.push(self.cell_order[i].clone());
            }
            proof {
                let order = texts(self.cell_order@);
                let next = order.take(i + 1);
                assert(next.drop_last() =~= order.take(i as int));
                assert(next.last() == self.cell_order@[i as int]@);
                if next.last() != id@ {
                    assert(texts(kept@) =~= texts(kept_before).push(next.last()));
                }
            }
            i += 1;
        }
        assert(texts(self.cell_order@).take(i as int) =~= before.order);
        self.cell_order = kept;
        self.cell_map.remove(&id);
        if self.cell_order.len() == 0 {
            self.selected_cell_index = 0;
        } else if self.selected_cell_index >= self.cell_order.len() {
            self.selected_cell_index = self.cell_order.len() - 1;
        }
        self.cell_list = CellList { item_count: self.cell_order.len(), revealed: None };
        self.stale = true;
        proof {
            lemma_without_selected_wf(before);
        }
    }

    /// How many cells there are.
    pub fn cell_count(&self) -> (count: usize)
        requires
            self.wf(),
        ensures
            count == self@.cell_count(),
    {
        self.cell_map.len()
    }

    /// Which place is selected.
    pub fn selected_index(&self) -> (index: usize)
        ensures
            index == self@.selected,
    {
        self.selected_cell_index
    }

    /// The cell whose text is selected: the selected cell, if its text can be edited.
    pub fn selected_editor(&self) -> (id: Option<CellId>)
        requires
            self.wf(),
        ensures
            opt_text(id) == self@.selected_text(),
    {
        let id = match self.selected_cell_id() {
            Some(id) => id,
            None => {
                return None;
            },
        };
        assert(self@.order.contains(id@));
        match self.cell_map.get(&id) {
            Some(EditorCell::Raw(_)) => None,
            Some(_) => Some(id),
            None => None,
        }
    }

    /// Selects a place, and scrolls to it where asked to.
    pub fn set_selected_index(&mut self, index: usize, jump_to_index: bool)
        requires
            old(self).wf(),
        ensures
            final(self).wf(),
            final(self)@ == old(self)@.with_selected(index, jump_to_index),
    {
        self.selected_cell_index = index;
        if jump_to_index {
            self.jump_to_cell(index);
        }
    }

    /// Scrolls to a place.
    pub fn jump_to_cell(&mut self, index: usize)
        requires
            old(self).wf(),
        ensures
            final(self).wf(),
            final(self)@ == old(self)@.scrolled_to(index),
    {
        self.cell_list = CellList { item_count: self.cell_list.item_count, revealed: Some(index) };
    }

    /// Selects the next cell.
    pub fn select_next(&mut self)
        requires
            old(self).wf(),
            old(self)@.cell_count() > 0 ==> old(self)@.selected < usize::MAX
                || old(self)@.selected == old(self)@.cell_count() - 1,
        ensures
            final(self).wf(),
            final(self)@ == old(self)@.selected_next(),
    {
        let count = self.cell_count();
        if count > 0 {
            let index = self.selected_index();
            let next: usize = if index == count - 1 {
                count - 1
            } else {
                index + 1
            };
            self.set_selected_index(next, true);
            self.stale = true;
        }
    }

    /// Selects the previous cell.
    pub fn select_previous(&mut self)
        requires
            old(self).wf(),
        ensures
            final(self).wf(),
            final(self)@ == old(self)@.selected_previous(),
    {
        let count = self.cell_count();
        if count > 0 {
            let index = self.selected_index();
            let previous: usize = if index == 0 {
                0
            } else {
                index - 1
            };
            self.set_selected_index(previous, true);
            self.stale = true;
        }
    }

    /// Selects the first cell.
    pub fn select_first(&mut self)
        requires
            old(self).wf(),
        ensures
            final(self).wf(),
            final(self)@ == old(self)@.selected_first(),
    {
        let count = self.cell_count();
        if count > 0 {
            self.set_selected_index(0, true);
            self.stale = true;
        }
    }

    /// Selects the last cell.
    pub fn select_last(&mut self)
        requires
            old(self).wf(),
        ensures
            final(self).wf(),
            final(self)@ == old(self)@.selected_last(),
    {
        let count = self.cell_count();
        if count > 0 {
            self.set_selected_index(count - 1, true);
            self.stale = true;
        }
    }

    /// Where the cell at a place stands among the cells.
    pub fn cell_position(&self, index: usize) -> (position: CellPosition)
        requires
            self.wf(),
            index == 0 || self@.cell_count() > 0,
        ensures
            position == self@.position_at(index),
    {
        if index == 0 {
            CellPosition::First
        } else if index == self.cell_count() - 1 {
            CellPosition::Last
        } else {
            CellPosition::Middle
        }
    }

    /// Takes note of how the cell at a place is drawn.
    pub fn render_cell(&mut self, index: usize)
        requires
            old(self).wf(),
            index < old(self)@.order.len(),
        ensures
            final(self).wf(),
            final(self)@ == old(self)@.with_drawn(index),
    {
        let ghost before = self@;
        let ghost id = before.order[index as int];
        proof {
            assert(before.order.contains(id));
            lemma_some_cell(before.cells.dom(), id);
        }
        let position = self.cell_position(index);
        let selected: bool = index == self.selected_cell_index;
        if let Some(cell) = self.cell_map.get_mut(&self.cell_order[index]) {
            cell.place(selected, position);
        }
        proof {
            let cell = before.cells[id].placed(selected, position);
            lemma_with_cell_wf(before, id, cell);
            assert(self@.cells == before.cells.insert(id, cell));
        }
    }
}

/// A set with an element is not empty.
proof fn lemma_some_cell(ids: Set<Seq<char>>, id: Seq<char>)
    requires
        ids.finite(),
        ids.contains(id),
    ensures
        ids.len() > 0,
{
    if ids.len() == 0 {
        assert(ids =~= Set::empty());
    }
}

/// Exchanging two places keeps the editor well-formed.
proof fn lemma_exchanged_wf(state: EditorState, from: int, to: int)
    requires
        state.wf(),
        0 <= from < state.order.len(),
        0 <= to < state.order.len(),
    ensures
        state.with_exchanged(from, to).wf(),
{
    let after = state.with_exchanged(from, to);
    assert forall|id: Seq<char>| #[trigger]
        after.order.contains(id) <==> after.cells.contains_key(id) by {
        assert(state.order.contains(id) <==> state.cells.contains_key(id));
        let place = |i: int|
            if i == from {
                to
            } else if i == to {
                from
            } else {
                i
            };
        if state.order.contains(id) {
            let i = choose|i: int| 0 <= i < state.order.len() && state.order[i] == id;
            assert(after.order[place(i)] == id);
        }
        if after.order.contains(id) {
            let i = choose|i: int| 0 <= i < after.order.len() && after.order[i] == id;
            assert(state.order[place(i)] == id);
        }
    }
}

/// Adding a cell keeps the editor well-formed.
proof fn lemma_inserted_wf(state: EditorState, index: usize, cell: EditorCellView)
    requires
        state.wf(),
        index <= state.order.len(),
        state.order.len() < usize::MAX,
        valid_cell_id(cell.cell_id()),
    ensures
        state.with_inserted(index, cell).wf(),
{
    let after = state.with_inserted(index, cell);
    let new_id = cell.cell_id();
    assert(state.joined_cell(cell).cell_id() == new_id);
    assert forall|id: Seq<char>| #[trigger]
        after.order.contains(id) <==> after.cells.contains_key(id) by {
        assert(state.order.contains(id) <==> state.cells.contains_key(id));
        if state.order.contains(id) {
            let i = choose|i: int| 0 <= i < state.order.len() && state.order[i] == id;
            assert(after.order[if i < index {
                i
            } else {
                i + 1
            }] == id);
        }
        if after.order.contains(id) && id != new_id {
            let i = choose|i: int| 0 <= i < after.order.len() && after.order[i] == id;
            assert(state.order[if i < index {
                i
            } else {
                i - 1
            }] == id);
        }
        assert(after.order[index as int] == new_id);
    }
    assert forall|id: Seq<char>|
        #[trigger] after.cells.contains_key(id) implies after.cells[id].cell_id()
        == id && valid_cell_id(id) by {
        if id != new_id {
            assert(state.cells.contains_key(id));
        }
    }
}

/// Removing a cell keeps the editor well-formed.
proof fn lemma_without_selected_wf(state: EditorState)
    requires
        state.wf(),
        state.order.len() <= usize::MAX,
    ensures
        state.without_selected().wf(),
{
    if state.selected < state.order.len() {
        let after = state.without_selected();
        let gone = state.order[state.selected as int];
        assert forall|id: Seq<char>| #[trigger]
            after.order.contains(id) <==> after.cells.contains_key(id) by {
            assert(state.order.contains(id) <==> state.cells.contains_key(id));
            lemma_without_id(state.order, gone, id);
        }
        assert forall|id: Seq<char>|
            #[trigger] after.cells.contains_key(id) implies after.cells[id].cell_id()
            == id && valid_cell_id(id) by {
            assert(state.cells.contains_key(id));
        }
        lemma_without_id(state.order, gone, gone);
    }
}

} // verus!
