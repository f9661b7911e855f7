//! Running cells, one at a time or all of them in their order.

use std::collections::VecDeque;
use vstd::prelude::*;

use crate::cell::{CellTest, CellUpdate, CellUpdateView, EditorCell, EditorCellView};
use crate::editor::is_new_cell;
use crate::id_map::without_value;
use crate::ids::{is_uuid_text, CellId};
use crate::message::{
    complete_message, execute_message, execute_request, id_of_message, interrupt_message,
    is_refusal, message_id, receiver_channel, reply_channel, sender_channel, CompletionReply,
    PendingCompletion, RequestView, SentRequest,
};
use crate::notebook::{CellContentView, NotebookCellView};
use crate::state::{lemma_with_cell_wf, lemma_with_update_wf, EditorState, NotebookEditor};
use crate::text::{followed_by, joined, opt_text, texts};

verus! {

/// What chance and the kernel add to an attempt to run a cell.
#[verifier::ext_equal]
pub struct Attempt {
    /// The identifier of the request.
    pub message_id: Seq<char>,
    /// Why the request was not taken, if it was not.
    pub refusal: Option<Seq<char>>,
}

/// What can come up in an attempt to run a cell.
pub open spec fn is_attempt(attempt: Attempt) -> bool {
    &&& is_uuid_text(attempt.message_id)
    &&& attempt.refusal matches Some(text) ==> is_refusal(text)
}

/// Why a request was not taken, if it was not.
pub open spec fn refusal_in(answer: Option<Result<(), String>>) -> Option<Seq<char>> {
    match answer {
        Some(Err(error)) => Some(error@),
        _ => None,
    }
}

/// What the user is told when a cell could not be run.
pub open spec fn failure_message(answer: Option<Result<(), String>>) -> Seq<char> {
    match answer {
        Some(Err(error)) => "Failed to execute cell: "@ + error@,
        _ => "Kernel is not running."@,
    }
}

/// What can come up in that many attempts to run cells, or more.
pub open spec fn is_script(script: Seq<Attempt>, attempts: nat) -> bool {
    &&& attempts <= script.len()
    &&& forall|i: int| 0 <= i < script.len() ==> is_attempt(#[trigger] script[i])
}

/// Where the cursor goes in a text that gets the focus.
#[derive(Clone, Copy, PartialEq, Eq, Structural, Debug)]
pub enum Cursor {
    Unmoved,
    Beginning,
    End,
}

/// The cell whose text the user types in from now on.
pub struct Focus {
    pub cell_id: CellId,
    pub cursor: Cursor,
}

/// What a [`Focus`] stands for.
#[verifier::ext_equal]
pub struct FocusView {
    pub cell_id: Seq<char>,
    pub cursor: Cursor,
}

impl View for Focus {
    type V = FocusView;

    open spec fn view(&self) -> FocusView {
        FocusView { cell_id: self.cell_id@, cursor: self.cursor }
    }
}

/// What an optional [`Focus`] stands for.
pub open spec fn opt_focus(focus: Option<Focus>) -> Option<FocusView> {
    match focus {
        Some(focus) => Some(focus@),
        None => None,
    }
}

/// Why there will be no completions.
pub enum CompletionError {
    NotACodeCell,
    /// The kernel was not sent the question, for the given reason.
    Refused(String),
    KernelNotRunning,
}

/// What a [`CompletionError`] stands for.
#[verifier::ext_equal]
pub enum CompletionErrorView {
    NotACodeCell,
    Refused(Seq<char>),
    KernelNotRunning,
}

impl View for CompletionError {
    type V = CompletionErrorView;

    open spec fn view(&self) -> CompletionErrorView {
        match self {
            CompletionError::NotACodeCell => CompletionErrorView::NotACodeCell,
            CompletionError::Refused(reason) => CompletionErrorView::Refused(reason@),
            CompletionError::KernelNotRunning => CompletionErrorView::KernelNotRunning,
        }
    }
}

impl CompletionErrorView {
    /// The error in words.
    pub open spec fn in_words(self) -> Seq<char> {
        match self {
            CompletionErrorView::NotACodeCell => "completion requested for non-code cell"@,
            CompletionErrorView::Refused(reason) => "failed to request completions: "@ + reason,
            CompletionErrorView::KernelNotRunning => "kernel is not running"@,
        }
    }
}

impl CompletionError {
    /// The error in words.
    pub fn message(&self) -> (message: String)
        ensures
            message@ == self@.in_words(),
    {
        match self {
            CompletionError::NotACodeCell => "completion requested for non-code cell".to_string(),
            CompletionError::Refused(reason) => followed_by(
                "failed to request completions: ",
                reason.as_str(),
            ),
            CompletionError::KernelNotRunning => "kernel is not running".to_string(),
        }
    }
}

impl EditorState {
    /// The editor once a code cell has begun to run for the request with the given identifier.
    pub open spec fn started(self, id: Seq<char>, message_id: Seq<char>) -> EditorState {
        EditorState {
            cells: self.cells.insert(
                id,
                EditorCellView::Code(self.cells[id]->Code_0.started()),
            ),
            executions: self.executions.insert(message_id, id),
            ..self
        }
    }

    /// The editor once the run of a code cell has failed: nothing is expected for it any more, and
    /// the cell and the editor say why.
    pub open spec fn failed(self, id: Seq<char>, message: Seq<char>) -> EditorState {
        EditorState {
            cells: if self.has_code_cell(id) {
                self.cells.insert(id, EditorCellView::Code(self.cells[id]->Code_0.ended(message)))
            } else {
                self.cells
            },
            executions: without_value(self.executions, id),
            ..self.with_error(message)
        }
    }

    /// The editor once the kernel has been sent a request.
    pub open spec fn with_request(self, request: SentRequest) -> EditorState {
        EditorState { kernel: self.kernel.with_request(request), ..self }
    }

    /// The editor once the kernel's channel has not taken a request.
    pub open spec fn with_refused(self, request: SentRequest) -> EditorState {
        EditorState { kernel: self.kernel.with_refused(request), ..self }
    }

    /// The request to run a code cell.
    pub open spec fn run_request(self, id: Seq<char>, attempt: Attempt) -> SentRequest {
        SentRequest {
            id: attempt.message_id,
            request: execute_request(joined(self.cells[id]->Code_0.source)),
        }
    }

    /// The editor once an attempt to run a code cell has failed, because no kernel runs or because
    /// its channel has not taken the request.
    pub open spec fn run_failed(self, id: Seq<char>, attempt: Attempt) -> EditorState {
        let started = self.started(id, attempt.message_id);
        if self.kernel is Running {
            started.with_refused(self.run_request(id, attempt)).failed(
                id,
                "Failed to execute cell: "@ + attempt.refusal->0,
            )
        } else {
            started.failed(id, "Kernel is not running."@)
        }
    }

    /// The editor after an attempt to run a cell, with `script` as what came up in this attempt
    /// and in those that followed because it failed.
    pub open spec fn executed(self, id: Seq<char>, script: Seq<Attempt>) -> EditorState
        decreases self.queue.len(), 1int,
    {
        if !self.has_code_cell(id) {
            self
        } else {
            let attempt = script.first();
            if self.kernel is Running && attempt.refusal is None {
                self.started(id, attempt.message_id).with_request(
                    self.run_request(id, attempt),
                ).without_error()
            } else {
                self.run_failed(id, attempt).advanced(script.drop_first())
            }
        }
    }

    /// The editor after the next cell in the queue has got its turn, unless cells are not being
    /// run one after the other, or one is still running. At the end of the queue the run is over.
    pub open spec fn advanced(self, script: Seq<Attempt>) -> EditorState
        decreases self.queue.len(), 0int,
    {
        if !self.running_all || self.executing() {
            self
        } else if self.queue.len() == 0 {
            EditorState { running_all: false, stale: true, ..self }
        } else {
            EditorState { queue: self.queue.drop_first(), ..self }.executed(
                self.queue.first(),
                script,
            )
        }
    }

    /// The editor once every run and every question about completions has been given up.
    pub open spec fn cancelled(self, reason: Seq<char>) -> EditorState {
        EditorState {
            executions: Map::empty(),
            completions: Map::empty(),
            queue: Seq::empty(),
            running_all: false,
            ..self.with_update(CellUpdateView::Cancel(reason))
        }
    }

    /// The identifiers of the code cells, in their order.
    pub open spec fn code_cells(self) -> Seq<Seq<char>> {
        self.order.filter(|id: Seq<char>| self.has_code_cell(id))
    }

    /// The identifier of the selected cell.
    pub open spec fn selected_id(self) -> Option<Seq<char>> {
        if self.selected < self.order.len() {
            Some(self.order[self.selected as int])
        } else {
            None
        }
    }

    /// The editor once it no longer runs cells one after the other.
    pub open spec fn stopped(self) -> EditorState {
        EditorState { queue: Seq::empty(), running_all: false, ..self }
    }

    /// The editor once the selection has moved on by one place, if there is a next one.
    pub open spec fn moved_on(self) -> EditorState {
        if self.selected + 1 < self.order.len() {
            EditorState { selected: (self.selected + 1) as usize, stale: true, ..self }
        } else {
            self
        }
    }

    /// The cell whose text the user types in once the selection has moved on.
    pub open spec fn focus_moved_on(self) -> Option<FocusView> {
        if self.selected + 1 < self.order.len() && self.has_code_cell(
            self.order[self.selected + 1],
        ) {
            Some(FocusView { cell_id: self.order[self.selected + 1], cursor: Cursor::Unmoved })
        } else {
            None
        }
    }

    /// `after` is what the editor may become by moving to the next cell: behind the last one, or
    /// where there is none, a code cell is added. `focus` is the cell whose text the user types in
    /// then.
    pub open spec fn moves_on(self, after: EditorState, focus: Option<FocusView>) -> bool {
        if self.selected + 1 < self.order.len() {
            after == self.moved_on() && focus == self.focus_moved_on()
        } else if self.order.len() == 0 || self.selected < self.order.len() {
            focus is None && exists|cell: NotebookCellView| #[trigger]
                is_new_cell(
                    cell,
                    CellContentView::Code { execution_count: None, outputs: Seq::empty() },
                ) && after == self.drew(cell.id).with_added(cell)
        } else {
            after == self && focus is None
        }
    }

    /// `after` is what the editor may become by running the selected cell, and `focus` the cell
    /// whose text the user types in then.
    pub open spec fn runs_selected(self, after: EditorState, focus: Option<FocusView>) -> bool {
        match self.selected_id() {
            None => after == self.stopped() && focus is None,
            Some(id) => match self.cells[id] {
                EditorCellView::Code(_) => focus is None && exists|script: Seq<Attempt>|
                    is_script(script, 1) && #[trigger] self.stopped().executed(id, script) == after,
                EditorCellView::Markdown(cell) => if cell.editing {
                    let shown = self.stopped().with_cell(
                        id,
                        EditorCellView::Markdown(cell.with_editing(false).reparsed()),
                    );
                    shown.moves_on(after, focus)
                } else {
                    after == self.stopped() && focus is None
                },
                EditorCellView::Raw(_) => after == self.stopped() && focus is None,
            },
        }
    }

    /// The editor after an attempt to interrupt the kernel.
    pub open spec fn interrupted(self, attempt: Attempt) -> EditorState {
        if !(self.kernel is Running) {
            self.with_error("Kernel is not running."@)
        } else {
            match attempt.refusal {
                None => self.with_request(
                    SentRequest { id: attempt.message_id, request: RequestView::Interrupt },
                ).without_error().notified(),
                Some(refusal) => self.with_refused(
                    SentRequest { id: attempt.message_id, request: RequestView::Interrupt },
                ).with_error("Failed to interrupt kernel: "@ + refusal),
            }
        }
    }

    /// The editor once nobody waits for an answer to the given request.
    pub open spec fn without_question(self, request: Seq<char>) -> EditorState {
        EditorState { completions: self.completions.remove(request), ..self }
    }

    /// The editor after an attempt to ask for completions for the sake of `channel`.
    pub open spec fn asked(
        self,
        id: Seq<char>,
        code: Seq<char>,
        cursor_pos: usize,
        attempt: Attempt,
        channel: int,
    ) -> EditorState {
        let withdrawn = self.without_question(attempt.message_id);
        let request = SentRequest {
            id: attempt.message_id,
            request: RequestView::Complete { code, cursor_pos },
        };
        if !self.has_code_cell(id) {
            self
        } else if !(self.kernel is Running) {
            withdrawn.with_error("Kernel is not running."@)
        } else {
            match attempt.refusal {
                None => EditorState {
                    completions: self.completions.insert(attempt.message_id, channel),
                    ..self
                }.with_request(request).without_error(),
                Some(refusal) => withdrawn.with_refused(request).with_error(
                    "Failed to request completions: "@ + refusal,
                ),
            }
        }
    }

    /// What becomes of a question about completions.
    pub open spec fn answer(self, id: Seq<char>, attempt: Attempt, channel: int) -> Result<
        int,
        CompletionErrorView,
    > {
        if !self.has_code_cell(id) {
            Err(CompletionErrorView::NotACodeCell)
        } else if !(self.kernel is Running) {
            Err(CompletionErrorView::KernelNotRunning)
        } else {
            match attempt.refusal {
                None => Ok(channel),
                Some(refusal) => Err(CompletionErrorView::Refused(refusal)),
            }
        }
    }

    /// The editor once all code cells have been queued to be run.
    pub open spec fn queued_all(self) -> EditorState {
        EditorState { queue: self.code_cells(), running_all: true, ..self }
    }
}

impl NotebookEditor {
    /// Takes note that a code cell has begun to run.
    pub fn start_execution(&mut self, cell_id: &CellId, message_id: String)
        requires
            old(self).wf(),
            old(self)@.has_code_cell(cell_id@),
        ensures
            final(self).wf(),
            final(self)@ == old(self)@.started(cell_id@, message_id@),
    {
        let ghost before = self@;
        if let Some(EditorCell::Code(cell)) = self.cell_map.get_mut(cell_id) {
            cell.start_execution();
        }
        proof {
            let cell = EditorCellView::Code(before.cells[cell_id@]->Code_0.started());
            lemma_with_cell_wf(before, cell_id@, cell);
            assert(self@.cells == before.cells.insert(cell_id@, cell));
        }
        self.execution_requests.insert(message_id, cell_id.clone());
    }

    /// Takes note that the run of a cell has failed.
    pub fn fail_execution(&mut self, cell_id: &CellId, message: String)
        requires
            old(self).wf(),
        ensures
            final(self).wf(),
            final(self)@ == old(self)@.failed(cell_id@, message@),
    {
        let ghost before = self@;
        self.execution_requests.remove_value(cell_id);
        self.set_last_error(message.clone());
        if let Some(EditorCell::Code(cell)) = self.cell_map.get_mut(cell_id) {
            cell.end_execution(message);
        }
        proof {
            if before.has_code_cell(cell_id@) {
                let cell = EditorCellView::Code(before.cells[cell_id@]->Code_0.ended(message@));
                lemma_with_cell_wf(before, cell_id@, cell);
                assert(self@.cells == before.cells.insert(cell_id@, cell));
            } else {
                assert(self@.cells =~= before.cells);
            }
        }
    }

    /// Runs a code cell.
    pub fn execute_cell(&mut self, cell_id: CellId)
        requires
            old(self).wf(),
        ensures
            final(self).wf(),
            exists|script: Seq<Attempt>|
                is_script(script, old(self)@.queue.len() + 1) && #[trigger] old(self)@.executed(
                    cell_id@,
                    script,
                ) == final(self)@,
        decreases old(self)@.queue.len(), 2int,
    {
        let ghost before = self@;
        let code = match self.cell_map.get(&cell_id) {
            Some(EditorCell::Code(cell)) => cell.text(),
            _ => {
                proof {
                    let script = lemma_some_script(before.queue.len() + 1);
                    assert(before.executed(cell_id@, script) == self@);
                }
                return;
            },
        };
        let message = execute_message(code);
        let message_id = id_of_message(&message);
        let ghost id = message_id@;
        self.start_execution(&cell_id, message_id);
        let ghost started = self@;
        let answer = self.kernel.send(message);
        let ghost given = answer;
        let ghost attempt = Attempt { message_id: id, refusal: refusal_in(answer) };
        let ghost sent = self@;
        self.execution_answered(&cell_id, answer);
        proof {
            if given is Some && given->0 is Ok {
                let rest = lemma_some_script(before.queue.len());
                lemma_script(attempt, rest, before.queue.len());
                assert(before.executed(cell_id@, seq![attempt] + rest) == self@);
            } else {
                let failed = sent.failed(cell_id@, failure_message(given));
                assert(failed == before.run_failed(cell_id@, attempt));
                let rest = choose|rest: Seq<Attempt>|
                    is_script(rest, sent.queue.len()) && #[trigger] failed.advanced(rest) == self@;
                lemma_script(attempt, rest, before.queue.len());
                assert(before.executed(cell_id@, seq![attempt] + rest) == self@);
            }
        }
    }

    /// Takes note of what became of the request to run a cell: whether there was a kernel to send
    /// it to, and whether it was taken.
    pub fn execution_answered(&mut self, cell_id: &CellId, answer: Option<Result<(), String>>)
        requires
            old(self).wf(),
        ensures
            final(self).wf(),
            match answer {
                Some(Ok(())) => final(self)@ == old(self)@.without_error(),
                _ => exists|script: Seq<Attempt>|
                    is_script(script, old(self)@.queue.len()) && #[trigger] old(self)@.failed(
                        cell_id@,
                        failure_message(answer),
                    ).advanced(script) == final(self)@,
            },
        decreases old(self)@.queue.len(), 1int,
    {
        match answer {
            Some(Ok(())) => self.clear_last_error(),
            Some(Err(error)) => {
                let message = followed_by("Failed to execute cell: ", error.as_str());
                self.fail_execution(cell_id, message);
                self.execute_next_queued_cell();
            },
            None => {
                self.fail_execution(cell_id, "Kernel is not running.".to_string());
                self.execute_next_queued_cell();
            },
        }
    }

    /// Gives the next cell in the queue its turn, if it is its turn.
    pub fn execute_next_queued_cell(&mut self)
        requires
            old(self).wf(),
        ensures
            final(self).wf(),
            exists|script: Seq<Attempt>|
                is_script(script, old(self)@.queue.len()) && #[trigger] old(self)@.advanced(script)
                    == final(self)@,
        decreases old(self)@.queue.len(), 0int,
    {
        let ghost before = self@;
        if !self.run_all_in_progress {
            proof {
                let script = lemma_some_script(before.queue.len());
                assert(before.advanced(script) == self@);
            }
            return;
        }
        if self.cell_map.any(CellTest::Executing) {
            proof {
                let script = lemma_some_script(before.queue.len());
                assert(before.advanced(script) == self@);
            }
            return;
        }
        if let Some(next) = self.run_all_queue.pop_front() {
            let ghost popped = self@;
            proof {
                assert(popped.queue =~= before.queue.drop_first());
                assert(next@ == before.queue.first());
            }
            self.execute_cell(next);
            proof {
                let script = choose|script: Seq<Attempt>|
                    is_script(script, popped.queue.len() + 1) && #[trigger] popped.executed(
                        next@,
                        script,
                    ) == self@;
                assert(before.advanced(script) == self@);
            }
        } else {
            self.run_all_in_progress = false;
            self.stale = true;
            proof {
                let script = lemma_some_script(before.queue.len());
                assert(before.advanced(script) == self@);
            }
        }
    }
}

impl NotebookEditor {
    /// Whether some cell shows outputs.
    pub fn has_outputs(&self) -> (result: bool)
        requires
            self.wf(),
        ensures
            result == CellTest::HasOutputs.holds_of_some(self@.cells),
    {
        self.cell_map.any(CellTest::HasOutputs)
    }

    /// Clears the outputs of all cells.
    pub fn clear_outputs(&mut self)
        requires
            old(self).wf(),
        ensures
            final(self).wf(),
            final(self)@ == old(self)@.with_update(CellUpdateView::ClearOutputs).notified(),
    {
        let ghost before = self@;
        self.cell_map.apply_all(&CellUpdate::ClearOutputs);
        self.stale = true;
        proof {
            lemma_with_update_wf(before, CellUpdateView::ClearOutputs);
        }
    }

    /// Gives up every run and every question about completions.
    pub fn cancel_pending_executions(&mut self, reason: &str)
        requires
            old(self).wf(),
        ensures
            final(self).wf(),
            final(self)@ == old(self)@.cancelled(reason@),
    {
        let ghost before = self@;
        self.execution_requests.clear();
        self.completion_requests.clear();
        self.run_all_queue.clear();
        self.run_all_in_progress = false;
        let reason: String = reason.to_string();
        self.cell_map.apply_all(&CellUpdate::Cancel(&reason));
        proof {
            lemma_with_update_wf(before, CellUpdateView::Cancel(reason@));
            assert(self@.queue =~= Seq::<Seq<char>>::empty());
        }
    }

    /// The identifiers of the code cells, in their order.
    pub fn code_cell_ids(&self) -> (ids: VecDeque<CellId>)
        requires
            self.wf(),
        ensures
            texts(ids@) == self@.code_cells(),
    {
        let mut ids: VecDeque<CellId> = VecDeque::new();
        let ghost wanted = |id: Seq<char>| self@.has_code_cell(id);
        let mut i: usize = 0;
        while i < self.cell_order.len()
            invariant
                self.wf(),
                0 <= i <= self.cell_order@.len(),
                wanted == (|id: Seq<char>| self@.has_code_cell(id)),
                texts(ids@) == self@.order.take(i as int).filter(wanted),
            decreases self.cell_order@.len() - i,
        {
            let ghost before = ids@;
            let id = &self.cell_order[i];
            let is_code: bool = match self.cell_map.get(id) {
                Some(EditorCell::Code(_)) => true,
                _ => false,
            };
            if is_code {
                ids.push_back(id.clone());
            }
            proof {
                reveal(Seq::filter);
                let next = self@.order.take(i + 1);
                assert(next.drop_last() =~= self@.order.take(i as int));
                assert(next.last() == id@);
                if is_code {
                    assert(texts(ids@) =~= texts(before).push(id@));
                }
            }
            i += 1;
        }
        assert(self@.order.take(i as int) =~= self@.order);
        ids
    }

    /// Runs all code cells one after the other.
    pub fn run_cells(&mut self)
        requires
            old(self).wf(),
        ensures
            final(self).wf(),
            exists|script: Seq<Attempt>|
                is_script(script, old(self)@.code_cells().len())
                    && #[trigger] old(self)@.queued_all().advanced(script) == final(self)@,
    {
        let ghost before = self@;
        self.run_all_queue = self.code_cell_ids();
        self.run_all_in_progress = true;
        assert(self@ == before.queued_all());
        self.execute_next_queued_cell();
    }

    /// The identifier of the selected cell.
    pub fn selected_cell_id(&self) -> (id: Option<CellId>)
        ensures
            opt_text(id) == self@.selected_id(),
    {
        if self.selected_cell_index < self.cell_order.len() {
            Some(self.cell_order[self.selected_cell_index].clone())
        } else {
            None
        }
    }

    /// Moves the selection on by one place, and the focus to the text of a code cell that is there.
    /// At the end a code cell is added.
    pub fn move_to_next_cell(&mut self) -> (focus: Option<Focus>)
        requires
            old(self).wf(),
            old(self)@.order.len() < usize::MAX,
        ensures
            final(self).wf(),
            old(self)@.moves_on(final(self)@, opt_focus(focus)),
    {
        let len: usize = self.cell_order.len();
        if len > 0 && self.selected_cell_index < len - 1 {
            self.selected_cell_index = self.selected_cell_index + 1;
            self.stale = true;
            let id = &self.cell_order[self.selected_cell_index];
            match self.cell_map.get(id) {
                Some(EditorCell::Code(_)) => Some(
                    Focus { cell_id: id.clone(), cursor: Cursor::Unmoved },
                ),
                _ => None,
            }
        } else if len == 0 || self.selected_cell_index < len {
            self.add_code_block();
            None
        } else {
            None
        }
    }

    /// Runs the selected cell: code is sent to the kernel, Markdown that is being edited is shown,
    /// and then the selection moves on.
    pub fn run_current_cell(&mut self) -> (focus: Option<Focus>)
        requires
            old(self).wf(),
            old(self)@.order.len() < usize::MAX,
        ensures
            final(self).wf(),
            old(self)@.runs_selected(final(self)@, opt_focus(focus)),
    {
        let ghost before = self@;
        self.run_all_in_progress = false;
        self.run_all_queue.clear();
        assert(self@ == before.stopped());
        let id = match self.selected_cell_id() {
            Some(id) => id,
            None => {
                return None;
            },
        };
        proof {
            assert(before.order.contains(id@));
        }
        let mut editing: bool = false;
        match self.cell_map.get(&id) {
            Some(EditorCell::Code(_)) => {
                self.execute_cell(id);
                return None;
            },
            Some(EditorCell::Markdown(cell)) => {
                editing = cell.is_editing();
            },
            _ => {},
        }
        if !editing {
            return None;
        }
        if let Some(EditorCell::Markdown(cell)) = self.cell_map.get_mut(&id) {
            cell.run();
        }
        proof {
            let cell = before.cells[id@]->Markdown_0.with_editing(false).reparsed();
            lemma_with_cell_wf(before, id@, EditorCellView::Markdown(cell));
            assert(self@ == before.stopped().with_cell(id@, EditorCellView::Markdown(cell)));
        }
        self.move_to_next_cell()
    }

    /// Asks the kernel to stop what it is doing.
    pub fn interrupt_kernel(&mut self)
        requires
            old(self).wf(),
        ensures
            final(self).wf(),
            exists|attempt: Attempt|
                is_attempt(attempt) && #[trigger] old(self)@.interrupted(attempt) == final(self)@,
    {
        let ghost before = self@;
        let message = interrupt_message();
        let ghost message_id = message_id(message);
        let answer = self.kernel.send(message);
        let ghost attempt = Attempt { message_id, refusal: refusal_in(answer) };
        self.interrupt_answered(answer);
        assert(before.interrupted(attempt) == self@);
    }

    /// Takes note of what became of the request to stop: whether there was a kernel to send it to,
    /// and whether it was taken.
    pub fn interrupt_answered(&mut self, answer: Option<Result<(), String>>)
        requires
            old(self).wf(),
        ensures
            final(self).wf(),
            final(self)@ == match answer {
                Some(Ok(())) => old(self)@.without_error().notified(),
                Some(Err(error)) => old(self)@.with_error(
                    "Failed to interrupt kernel: "@ + error@,
                ),
                None => old(self)@.with_error("Kernel is not running."@),
            },
    {
        match answer {
            Some(Ok(())) => {
                self.clear_last_error();
                self.stale = true;
            },
            Some(Err(error)) => {
                self.set_last_error(followed_by("Failed to interrupt kernel: ", error.as_str()));
            },
            None => {
                self.set_last_error("Kernel is not running.".to_string());
            },
        }
    }

    /// Asks the kernel how to complete the code of a cell. The answer comes out of the receiver.
    pub fn request_cell_completions(
        &mut self,
        cell_id: &CellId,
        code: String,
        cursor_pos: usize,
    ) -> (result: Result<futures::channel::oneshot::Receiver<CompletionReply>, CompletionError>)
        requires
            old(self).wf(),
        ensures
            final(self).wf(),
            exists|attempt: Attempt, channel: int| #[trigger]
                old(self)@.asked(cell_id@, code@, cursor_pos, attempt, channel) == final(self)@ && {
                    &&& is_attempt(attempt)
                    &&& match result {
                        Ok(receiver) => old(self)@.answer(cell_id@, attempt, channel) == Ok::<
                            int,
                            CompletionErrorView,
                        >(receiver_channel(receiver)),
                        Err(error) => old(self)@.answer(cell_id@, attempt, channel) == Err::<
                            int,
                            CompletionErrorView,
                        >(error@),
                    }
                },
    {
        let ghost before = self@;
        let is_code: bool = match self.cell_map.get(cell_id) {
            Some(EditorCell::Code(_)) => true,
            _ => false,
        };
        if !is_code {
            proof {
                let script = lemma_some_script(1);
                let attempt = script[0];
                assert(before.asked(cell_id@, code@, cursor_pos, attempt, 0) == self@);
            }
            return Err(CompletionError::NotACodeCell);
        }
        let ghost text = code@;
        let message = complete_message(code, cursor_pos);
        let request_id = id_of_message(&message);
        let ghost message_id = message_id(message);
        let (sender, receiver) = reply_channel();
        let ghost channel = sender_channel(sender);
        self.completion_requests.insert(request_id.clone(), PendingCompletion { sender });
        let answer = self.kernel.send(message);
        let ghost given = answer;
        let ghost attempt = Attempt { message_id, refusal: refusal_in(answer) };
        let result = self.question_answered(&request_id, answer);
        proof {
            if !(given is Some && given->0 is Ok) {
                assert(self@.completions =~= before.completions.remove(message_id));
            }
            assert(before.asked(cell_id@, text, cursor_pos, attempt, channel) == self@);
        }
        match result {
            Ok(()) => Ok(receiver),
            Err(error) => Err(error),
        }
    }

    /// Takes note of what became of a question about completions: whether there was a kernel to
    /// send it to, and whether it was taken. Nobody waits for an answer to a question that was not.
    pub fn question_answered(
        &mut self,
        request_id: &String,
        answer: Option<Result<(), String>>,
    ) -> (result: Result<(), CompletionError>)
        requires
            old(self).wf(),
        ensures
            final(self).wf(),
            match answer {
                Some(Ok(())) => {
                    &&& result is Ok
                    &&& final(self)@ == old(self)@.without_error()
                },
                Some(Err(error)) => {
                    &&& result is Err
                    &&& result->Err_0@ == CompletionErrorView::Refused(error@)
                    &&& final(self)@ == old(self)@.without_question(request_id@).with_error(
                        "Failed to request completions: "@ + error@,
                    )
                },
                None => {
                    &&& result is Err
                    &&& result->Err_0@ == CompletionErrorView::KernelNotRunning
                    &&& final(self)@ == old(self)@.without_question(request_id@).with_error(
                        "Kernel is not running."@,
                    )
                },
            },
    {
        match answer {
            Some(Ok(())) => {
                self.clear_last_error();
                Ok(())
            },
            Some(Err(error)) => {
                self.completion_requests.remove(request_id);
                self.set_last_error(
                    followed_by("Failed to request completions: ", error.as_str()),
                );
                Err(CompletionError::Refused(error))
            },
            None => {
                self.completion_requests.remove(request_id);
                self.set_last_error("Kernel is not running.".to_string());
                Err(CompletionError::KernelNotRunning)
            },
        }
    }
}

/// One more attempt before those of a script.
proof fn lemma_script(attempt: Attempt, rest: Seq<Attempt>, attempts: nat)
    requires
        is_script(rest, attempts),
        is_attempt(attempt),
    ensures
        is_script(seq![attempt] + rest, attempts + 1),
        (seq![attempt] + rest).first() == attempt,
        (seq![attempt] + rest).drop_first() == rest,
{
    let script = seq![attempt] + rest;
    assert(script.drop_first() =~= rest);
    assert forall|i: int| 0 <= i < script.len() implies is_attempt(#[trigger] script[i]) by {
        if i > 0 {
            assert(script[i] == rest[i - 1]);
        }
    }
}

/// There are scripts for any number of attempts.
pub proof fn lemma_some_script(attempts: nat) -> (script: Seq<Attempt>)
    ensures
        is_script(script, attempts),
{
    let message_id = Seq::new(
        36,
        |i: int|
            if i == 8 || i == 13 || i == 18 || i == 23 {
                '-'
            } else if i == 14 {
                '4'
            } else {
                '8'
            },
    );
    assert(is_uuid_text(message_id));
    Seq::new(attempts, |i: int| Attempt { message_id, refusal: None })
}

} // verus!
