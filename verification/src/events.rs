//! What cells report to the editor, and what the user asks it to do.

use vstd::prelude::*;

use crate::cell::{CellUpdateView, EditorCell, EditorCellView};
use crate::controls::Action;
use crate::editor::{is_new_cell, WantedFile};
use crate::execution::{is_attempt, is_script, opt_focus, Attempt, Cursor, Focus, FocusView};
use crate::ids::CellId;
use crate::item::NotebookItem;
use crate::kernel::Directories;
use crate::notebook::{CellContentView, NotebookCellView};
use crate::session::Launch;
use crate::state::{lemma_with_cell_wf, EditorState, NotebookEditor};
use crate::text::{first_position, position_of};

verus! {

/// What a cell reports.
pub enum CellEvent {
    /// The user wants to run a cell.
    Run(CellId),
    /// The cell got the focus.
    FocusedIn,
    /// The text of the cell got the focus.
    TextFocused,
    /// The user is done with editing the text.
    FinishedEditing,
}

/// What a [`CellEvent`] stands for.
#[verifier::ext_equal]
pub enum CellEventView {
    Run(Seq<char>),
    FocusedIn,
    TextFocused,
    FinishedEditing,
}

impl View for CellEvent {
    type V = CellEventView;

    open spec fn view(&self) -> CellEventView {
        match self {
            CellEvent::Run(id) => CellEventView::Run(id@),
            CellEvent::FocusedIn => CellEventView::FocusedIn,
            CellEvent::TextFocused => CellEventView::TextFocused,
            CellEvent::FinishedEditing => CellEventView::FinishedEditing,
        }
    }
}

/// The first place of `id` in the order.
pub open spec fn first_place(order: Seq<Seq<char>>, id: Seq<char>) -> int {
    choose|place: int| first_position(order, id, place)
}

impl EditorState {
    /// The editor once a cell has got the focus, which selects it.
    pub open spec fn focused(self, id: Seq<char>) -> EditorState {
        if self.order.contains(id) {
            EditorState { selected: first_place(self.order, id) as usize, stale: true, ..self }
        } else {
            self
        }
    }

    /// The editor once the text of a Markdown cell has been parsed anew.
    pub open spec fn with_reparsed(self, id: Seq<char>) -> EditorState {
        self.with_cell(id, EditorCellView::Markdown(self.cells[id]->Markdown_0.reparsed()))
    }

    /// `after` is what the editor may become by the report of a cell. A code cell is run or
    /// selected, a Markdown cell is shown anew or selected; others report nothing.
    pub open spec fn hears(
        self,
        cell_id: Seq<char>,
        event: CellEventView,
        after: EditorState,
    ) -> bool {
        if !self.cells.contains_key(cell_id) {
            after == self
        } else {
            match (self.cells[cell_id], event) {
                (EditorCellView::Code(_), CellEventView::Run(id)) => exists|script: Seq<Attempt>|
                    is_script(script, self.queue.len() + 1) && #[trigger] self.executed(id, script)
                        == after,
                (EditorCellView::Code(_), CellEventView::FinishedEditing) => after == self,
                (EditorCellView::Code(_), _) => after == self.focused(cell_id),
                (EditorCellView::Markdown(_), CellEventView::TextFocused) => after == self.focused(
                    cell_id,
                ),
                (EditorCellView::Markdown(_), CellEventView::FocusedIn) => after == self,
                (EditorCellView::Markdown(_), _) => after == self.with_reparsed(cell_id),
                (EditorCellView::Raw(_), _) => after == self,
            }
        }
    }

    /// The cell whose text the user types in once it has been selected by moving the cursor out of
    /// another one.
    pub open spec fn entered(self, cursor: Cursor) -> Option<FocusView> {
        match self.selected_id() {
            Some(id) => if self.cells[id] is Raw {
                None
            } else {
                Some(FocusView { cell_id: id, cursor })
            },
            None => None,
        }
    }

    /// The editor once the selected cell is entered: a Markdown cell is edited then.
    pub open spec fn with_entered(self) -> EditorState {
        match self.selected_id() {
            Some(id) => match self.cells[id] {
                EditorCellView::Markdown(cell) => self.with_cell(
                    id,
                    EditorCellView::Markdown(cell.with_editing(true)),
                ),
                _ => self,
            },
            None => self,
        }
    }
}

impl NotebookEditor {
    /// Selects the cell that got the focus.
    pub fn cell_focused(&mut self, cell_id: &CellId)
        requires
            old(self).wf(),
        ensures
            final(self).wf(),
            final(self)@ == old(self)@.focused(cell_id@),
    {
        if let Some(index) = position_of(&self.cell_order, cell_id) {
            proof {
                let place = first_place(self@.order, cell_id@);
                assert(first_position(self@.order, cell_id@, index as int));
                assert(first_position(self@.order, cell_id@, place));
                assert(place == index);
                assert(self@.order[index as int] == cell_id@);
            }
            self.selected_cell_index = index;
            self.stale = true;
        }
    }

    /// Does what follows from the report of a cell. A code cell is run or selected, a Markdown cell
    /// is shown anew or selected; others report nothing.
    pub fn handle_cell_event(&mut self, cell_id: &CellId, event: CellEvent)
        requires
            old(self).wf(),
        ensures
            final(self).wf(),
            old(self)@.hears(cell_id@, event@, final(self)@),
    {
        let ghost before = self@;
        match self.cell_map.get(cell_id) {
            Some(EditorCell::Code(_)) => match event {
                CellEvent::Run(id) => self.execute_cell(id),
                CellEvent::FinishedEditing => {},
                _ => self.cell_focused(cell_id),
            },
            Some(EditorCell::Markdown(_)) => match event {
                CellEvent::TextFocused => self.cell_focused(cell_id),
                CellEvent::FocusedIn => {},
                _ => {
                    if let Some(EditorCell::Markdown(cell)) = self.cell_map.get_mut(cell_id) {
                        cell.reparse_markdown();
                    }
                    proof {
                        let cell = EditorCellView::Markdown(
                            before.cells[cell_id@]->Markdown_0.reparsed(),
                        );
                        lemma_with_cell_wf(before, cell_id@, cell);
                        assert(self@.cells == before.cells.insert(cell_id@, cell));
                    }
                },
            },
            _ => {},
        }
    }

    /// Puts the cursor into the text of the selected cell.
    pub fn enter_selected_cell(&mut self, cursor: Cursor) -> (focus: Option<Focus>)
        requires
            old(self).wf(),
        ensures
            final(self).wf(),
            final(self)@ == old(self)@.with_entered(),
            opt_focus(focus) == old(self)@.entered(cursor),
    {
        let ghost before = self@;
        let id = match self.selected_cell_id() {
            Some(id) => id,
            None => {
                return None;
            },
        };
        assert(before.order.contains(id@));
        match self.cell_map.get_mut(&id) {
            Some(EditorCell::Code(_)) => {
                assert(self@.cells =~= before.cells);
                Some(Focus { cell_id: id, cursor })
            },
            Some(EditorCell::Markdown(cell)) => {
                cell.set_editing(true);
                proof {
                    let cell = EditorCellView::Markdown(
                        before.cells[id@]->Markdown_0.with_editing(true),
                    );
                    lemma_with_cell_wf(before, id@, cell);
                    assert(self@.cells == before.cells.insert(id@, cell));
                }
                Some(Focus { cell_id: id, cursor })
            },
            _ => {
                assert(self@.cells =~= before.cells);
                None
            },
        }
    }

    /// Moves the cursor out of the text of a cell at its beginning: to the end of the text of the
    /// previous one.
    pub fn move_up(&mut self) -> (focus: Option<Focus>)
        requires
            old(self).wf(),
        ensures
            final(self).wf(),
            final(self)@ == old(self)@.selected_previous().with_entered(),
            opt_focus(focus) == old(self)@.selected_previous().entered(Cursor::End),
    {
        self.select_previous();
        self.enter_selected_cell(Cursor::End)
    }

    /// Moves the cursor out of the text of a cell at its end: to the beginning of the text of the
    /// next one.
    pub fn move_down(&mut self) -> (focus: Option<Focus>)
        requires
            old(self).wf(),
            old(self)@.cell_count() > 0 ==> old(self)@.selected < usize::MAX
                || old(self)@.selected == old(self)@.cell_count() - 1,
        ensures
            final(self).wf(),
            final(self)@ == old(self)@.selected_next().with_entered(),
            opt_focus(focus) == old(self)@.selected_next().entered(Cursor::Beginning),
    {
        self.select_next();
        self.enter_selected_cell(Cursor::Beginning)
    }
}

impl EditorState {
    /// Whether an action can be performed: what it moves or adds has a place.
    pub open spec fn can_perform(self, action: Action) -> bool {
        match action {
            Action::MoveCellUp => self.selected == 0 || self.selected < self.order.len(),
            Action::AddMarkdownBlock | Action::AddCodeBlock => {
                &&& self.order.len() == 0 || self.selected < self.order.len()
                &&& self.order.len() < usize::MAX
            },
            Action::DuplicateCell | Action::Run => self.order.len() < usize::MAX,
            Action::MoveDown => self.cell_count() == 0 || self.selected < usize::MAX
                || self.selected == self.cell_count() - 1,
            _ => true,
        }
    }

    /// `after` is what the editor may become by an action that concerns the cells or interrupts the
    /// kernel, and `focus` the cell whose text the user types in then.
    pub open spec fn performs(
        self,
        action: Action,
        after: EditorState,
        focus: Option<FocusView>,
    ) -> bool {
        match action {
            Action::OpenNotebook => after == self.notified() && focus is None,
            Action::ClearOutputs => after == self.with_update(
                CellUpdateView::ClearOutputs,
            ).notified() && focus is None,
            Action::RunAll => focus is None && exists|script: Seq<Attempt>|
                is_script(script, self.code_cells().len())
                    && #[trigger] self.queued_all().advanced(script) == after,
            Action::Run => self.runs_selected(after, focus),
            Action::MoveCellUp => after == self.moved_up() && focus is None,
            Action::MoveCellDown => after == self.moved_down() && focus is None,
            Action::AddMarkdownBlock => focus is None && exists|cell: NotebookCellView| #[trigger]
                is_new_cell(cell, CellContentView::Markdown { attachments: None }) && after
                    == self.drew(cell.id).with_added(cell),
            Action::AddCodeBlock => focus is None && exists|cell: NotebookCellView| #[trigger]
                is_new_cell(
                    cell,
                    CellContentView::Code { execution_count: None, outputs: Seq::empty() },
                ) && after == self.drew(cell.id).with_added(cell),
            Action::DuplicateCell => focus is None && self.duplicates_selected(after),
            Action::DeleteCell => after == self.without_selected() && focus is None,
            Action::MoveUp => {
                &&& after == self.selected_previous().with_entered()
                &&& focus == self.selected_previous().entered(Cursor::End)
            },
            Action::MoveDown => {
                &&& after == self.selected_next().with_entered()
                &&& focus == self.selected_next().entered(Cursor::Beginning)
            },
            Action::InterruptKernel => focus is None && exists|attempt: Attempt|
                is_attempt(attempt) && #[trigger] self.interrupted(attempt) == after,
            Action::RestartKernel => focus is None && match self.specification {
                Some(specification) => after == self.restarted(specification),
                None => after == self,
            },
        }
    }
}

/// What the host has to do after an action.
pub struct Performed<P> {
    /// The cell whose text gets the focus.
    pub focus: Option<Focus>,
    /// The kernel to start.
    pub launch: Option<Launch<P>>,
    /// The file to open.
    pub wanted: Option<WantedFile>,
}

impl NotebookEditor {
    /// Whether an action can be performed.
    pub fn can_perform(&self, action: Action) -> (result: bool)
        requires
            self.wf(),
        ensures
            result == self@.can_perform(action),
    {
        let selected: usize = self.selected_cell_index;
        let len: usize = self.cell_order.len();
        match action {
            Action::MoveCellUp => selected == 0 || selected < len,
            Action::AddMarkdownBlock => (len == 0 || selected < len) && len < usize::MAX,
            Action::AddCodeBlock => (len == 0 || selected < len) && len < usize::MAX,
            Action::DuplicateCell => len < usize::MAX,
            Action::Run => len < usize::MAX,
            Action::MoveDown => {
                let count = self.cell_count();
                count == 0 || selected < usize::MAX || selected == count - 1
            },
            _ => true,
        }
    }

    /// Does what the user asked for. Only a restart concerns the file of the notebook, and only
    /// after one is there a kernel to start. Only to open a notebook does the user have to choose a
    /// file.
    pub fn perform<P>(
        &mut self,
        item: &mut NotebookItem,
        action: Action,
        directories: Directories<P>,
    ) -> (performed: Performed<P>)
        requires
            old(self).wf(),
            old(item).wf(),
            old(self)@.can_perform(action),
        ensures
            final(self).wf(),
            final(item).wf(),
            old(self)@.performs(action, final(self)@, opt_focus(performed.focus)),
            if action == Action::RestartKernel && old(self)@.specification is Some {
                &&& performed.launch is Some
                &&& performed.launch->0.is_of(old(self)@.specification->0, directories)
                &&& performed.launch->0.shut_down == (old(self)@.kernel is Running)
                &&& final(item)@ == old(item)@.used_with(old(self)@.specification->0)
            } else {
                &&& performed.launch is None
                &&& final(item)@ == old(item)@
            },
            match performed.wanted {
                Some(wanted) => action == Action::OpenNotebook && wanted.extension@ == "ipynb"@,
                None => action != Action::OpenNotebook,
            },
    {
        let mut focus: Option<Focus> = None;
        let mut launch: Option<Launch<P>> = None;
        let mut wanted: Option<WantedFile> = None;
        match action {
            Action::OpenNotebook => {
                wanted = Some(self.open_notebook());
            },
            Action::ClearOutputs => self.clear_outputs(),
            Action::RunAll => self.run_cells(),
            Action::Run => {
                focus = self.run_current_cell();
            },
            Action::MoveCellUp => self.move_cell_up(),
            Action::MoveCellDown => self.move_cell_down(),
            Action::AddMarkdownBlock => self.add_markdown_block(),
            Action::AddCodeBlock => self.add_code_block(),
            Action::DuplicateCell => self.duplicate_selected_cell(),
            Action::DeleteCell => self.delete_selected_cell(),
            Action::MoveUp => {
                focus = self.move_up();
            },
            Action::MoveDown => {
                focus = self.move_down();
            },
            Action::InterruptKernel => self.interrupt_kernel(),
            Action::RestartKernel => {
                launch = self.restart_kernel(item, directories);
            },
        }
        Performed { focus, launch, wanted }
    }
}

} // verus!
