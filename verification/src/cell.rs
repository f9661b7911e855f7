//! Cells as the editor holds them.

use vstd::prelude::*;

use crate::id_map::{key_index, lemma_entry, lemma_values_replaced, IdMap};
use crate::ids::CellId;
use crate::json::JsonView;
use crate::notebook::{
    metadata_clashes, metadata_json, CellContent, CellContentView, NotebookCell, NotebookCellView,
};
use crate::text::{copy_strings, join, joined, texts};

verus! {

/// Builds an `nbformat::v4::CellMetadata` in which every field is `None` and there are no
/// additional members. `serde_json` makes an object without members of it.
#[verifier::external_body]
pub(crate) fn empty_cell_metadata() -> (metadata: nbformat::v4::CellMetadata)
    ensures
        metadata_json(metadata) == JsonView::Object(Map::empty()),
        !metadata_clashes(metadata),
{
    nbformat::v4::CellMetadata {
        id: None, collapsed: None, scrolled: None, deletable: None, editable: None, format: None,
        name: None, tags: None, jupyter: None, execution: None,
        additional: std::collections::HashMap::new(),
    }
}

/// Where a cell stands among the cells.
#[derive(Clone, Copy, PartialEq, Eq, Structural, Debug)]
pub enum CellPosition {
    First,
    Middle,
    Last,
}

/// What a code cell shows below its text.
pub enum CellOutput {
    /// An output of the kernel.
    Notebook(nbformat::v4::Output),
    /// A remark of the editor, which is not saved.
    Message(String),
}

/// What a [`CellOutput`] stands for.
#[verifier::ext_equal]
pub enum CellOutputView {
    Notebook(nbformat::v4::Output),
    Message(Seq<char>),
}

impl View for CellOutput {
    type V = CellOutputView;

    open spec fn view(&self) -> CellOutputView {
        match self {
            CellOutput::Notebook(output) => CellOutputView::Notebook(*output),
            CellOutput::Message(text) => CellOutputView::Message(text@),
        }
    }
}

/// What each of `outputs` stands for.
pub open spec fn output_views(outputs: Seq<CellOutput>) -> Seq<CellOutputView> {
    outputs.map_values(|output: CellOutput| output@)
}

/// `outputs` as a cell shows them that has just been loaded.
pub open spec fn shown_outputs(outputs: Seq<nbformat::v4::Output>) -> Seq<CellOutputView> {
    outputs.map_values(|output: nbformat::v4::Output| CellOutputView::Notebook(output))
}

/// Those of `outputs` that are saved.
pub open spec fn saved_outputs(outputs: Seq<CellOutputView>) -> Seq<nbformat::v4::Output>
    decreases outputs.len(),
{
    if outputs.len() == 0 {
        Seq::empty()
    } else {
        let init = saved_outputs(outputs.drop_last());
        match outputs.last() {
            CellOutputView::Notebook(output) => init.push(output),
            CellOutputView::Message(_) => init,
        }
    }
}

/// Outputs that are shown as they were loaded are saved as they were.
pub proof fn lemma_shown_outputs_are_saved(outputs: Seq<nbformat::v4::Output>)
    ensures
        saved_outputs(shown_outputs(outputs)) == outputs,
    decreases outputs.len(),
{
    if outputs.len() > 0 {
        lemma_shown_outputs_are_saved(outputs.drop_last());
        assert(shown_outputs(outputs).drop_last() =~= shown_outputs(outputs.drop_last()));
        assert(outputs.drop_last().push(outputs.last()) =~= outputs);
    }
}

/// A cell with code.
pub struct CodeCell {
    pub id: CellId,
    pub metadata: nbformat::v4::CellMetadata,
    pub execution_count: Option<i32>,
    /// The text of the cell, line by line.
    pub source: Vec<String>,
    pub outputs: Vec<CellOutput>,
    /// Whether it differs from what was saved.
    pub dirty: bool,
    pub executing: bool,
    /// The language that its text is shown in.
    pub language: Option<u64>,
    /// The history that records where its text was visited.
    pub nav_history: Option<u64>,
    pub selected: bool,
    pub position: Option<CellPosition>,
    /// Whether it has to be drawn again.
    pub stale: bool,
}

/// What a [`CodeCell`] stands for.
#[verifier::ext_equal]
pub struct CodeCellView {
    pub id: Seq<char>,
    pub metadata: nbformat::v4::CellMetadata,
    pub execution_count: Option<i32>,
    pub source: Seq<Seq<char>>,
    pub outputs: Seq<CellOutputView>,
    pub dirty: bool,
    pub executing: bool,
    pub language: Option<u64>,
    pub nav_history: Option<u64>,
    pub selected: bool,
    pub position: Option<CellPosition>,
    pub stale: bool,
}

impl View for CodeCell {
    type V = CodeCellView;

    open spec fn view(&self) -> CodeCellView {
        CodeCellView {
            id: self.id@,
            metadata: self.metadata,
            execution_count: self.execution_count,
            source: texts(self.source@),
            outputs: output_views(self.outputs@),
            dirty: self.dirty,
            executing: self.executing,
            language: self.language,
            nav_history: self.nav_history,
            selected: self.selected,
            position: self.position,
            stale: self.stale,
        }
    }
}

/// A cell with Markdown.
pub struct MarkdownCell {
    pub id: CellId,
    pub metadata: nbformat::v4::CellMetadata,
    pub attachments: Option<serde_json::Value>,
    /// The text of the cell, line by line.
    pub source: Vec<String>,
    /// The text that is shown while the cell is not edited.
    pub rendered: String,
    /// Whether it differs from what was saved.
    pub dirty: bool,
    pub editing: bool,
    /// The history that records where its text was visited.
    pub nav_history: Option<u64>,
    pub selected: bool,
    pub position: Option<CellPosition>,
    /// Whether it has to be drawn again.
    pub stale: bool,
}

/// What a [`MarkdownCell`] stands for.
#[verifier::ext_equal]
pub struct MarkdownCellView {
    pub id: Seq<char>,
    pub metadata: nbformat::v4::CellMetadata,
    pub attachments: Option<serde_json::Value>,
    pub source: Seq<Seq<char>>,
    pub rendered: Seq<char>,
    pub dirty: bool,
    pub editing: bool,
    pub nav_history: Option<u64>,
    pub selected: bool,
    pub position: Option<CellPosition>,
    pub stale: bool,
}

impl View for MarkdownCell {
    type V = MarkdownCellView;

    open spec fn view(&self) -> MarkdownCellView {
        MarkdownCellView {
            id: self.id@,
            metadata: self.metadata,
            attachments: self.attachments,
            source: texts(self.source@),
            rendered: self.rendered@,
            dirty: self.dirty,
            editing: self.editing,
            nav_history: self.nav_history,
            selected: self.selected,
            position: self.position,
            stale: self.stale,
        }
    }
}

/// A cell that is shown as it is.
pub struct RawCell {
    pub id: CellId,
    pub metadata: nbformat::v4::CellMetadata,
    /// The text of the cell, line by line.
    pub source: Vec<String>,
    pub selected: bool,
    pub position: Option<CellPosition>,
}

/// What a [`RawCell`] stands for.
#[verifier::ext_equal]
pub struct RawCellView {
    pub id: Seq<char>,
    pub metadata: nbformat::v4::CellMetadata,
    pub source: Seq<Seq<char>>,
    pub selected: bool,
    pub position: Option<CellPosition>,
}

impl View for RawCell {
    type V = RawCellView;

    open spec fn view(&self) -> RawCellView {
        RawCellView {
            id: self.id@,
            metadata: self.metadata,
            source: texts(self.source@),
            selected: self.selected,
            position: self.position,
        }
    }
}

/// A cell in the editor.
pub enum EditorCell {
    Code(CodeCell),
    Markdown(MarkdownCell),
    Raw(RawCell),
}

/// What an [`EditorCell`] stands for.
#[verifier::ext_equal]
pub enum EditorCellView {
    Code(CodeCellView),
    Markdown(MarkdownCellView),
    Raw(RawCellView),
}

impl View for EditorCell {
    type V = EditorCellView;

    open spec fn view(&self) -> EditorCellView {
        match self {
            EditorCell::Code(cell) => EditorCellView::Code(cell@),
            EditorCell::Markdown(cell) => EditorCellView::Markdown(cell@),
            EditorCell::Raw(cell) => EditorCellView::Raw(cell@),
        }
    }
}

/// What happens to a cell without regard to the others.
pub enum CellUpdate<'a> {
    /// What it holds has been saved.
    Saved,
    /// Its outputs are cleared.
    ClearOutputs,
    /// Its execution, if it has one, ends with a remark.
    Cancel(&'a String),
    /// Its text is shown in another language.
    Language(Option<u64>),
    /// A history records where its text is visited.
    NavHistory(u64),
}

/// What a [`CellUpdate`] stands for.
#[verifier::ext_equal]
pub enum CellUpdateView {
    Saved,
    ClearOutputs,
    Cancel(Seq<char>),
    Language(Option<u64>),
    NavHistory(u64),
}

impl<'a> View for CellUpdate<'a> {
    type V = CellUpdateView;

    open spec fn view(&self) -> CellUpdateView {
        match self {
            CellUpdate::Saved => CellUpdateView::Saved,
            CellUpdate::ClearOutputs => CellUpdateView::ClearOutputs,
            CellUpdate::Cancel(reason) => CellUpdateView::Cancel(reason@),
            CellUpdate::Language(language) => CellUpdateView::Language(*language),
            CellUpdate::NavHistory(history) => CellUpdateView::NavHistory(*history),
        }
    }
}

impl CodeCellView {
    /// The cell once it has begun to run: the outputs of an earlier run are gone.
    pub open spec fn started(self) -> CodeCellView {
        CodeCellView { outputs: Seq::empty(), executing: true, stale: true, ..self }
    }

    /// The cell once its run has ended with a remark.
    pub open spec fn ended(self, remark: Seq<char>) -> CodeCellView {
        CodeCellView {
            executing: false,
            outputs: self.outputs.push(CellOutputView::Message(remark)),
            stale: true,
            ..self
        }
    }

    /// The cell after an update.
    pub open spec fn updated(self, update: CellUpdateView) -> CodeCellView {
        match update {
            CellUpdateView::Saved => CodeCellView { dirty: false, ..self },
            CellUpdateView::ClearOutputs => CodeCellView {
                outputs: Seq::empty(),
                stale: true,
                ..self
            },
            CellUpdateView::Cancel(reason) => if self.executing {
                self.ended(reason)
            } else {
                CodeCellView { stale: true, ..self }
            },
            CellUpdateView::Language(language) => CodeCellView { language, ..self },
            CellUpdateView::NavHistory(history) => CodeCellView {
                nav_history: Some(history),
                ..self
            },
        }
    }
}

impl MarkdownCellView {
    /// The cell once its text has been parsed anew.
    pub open spec fn reparsed(self) -> MarkdownCellView {
        MarkdownCellView { rendered: joined(self.source), stale: true, ..self }
    }

    /// The cell once it is edited, or no longer.
    pub open spec fn with_editing(self, editing: bool) -> MarkdownCellView {
        MarkdownCellView { editing, stale: true, ..self }
    }

    /// The cell after an update.
    pub open spec fn updated(self, update: CellUpdateView) -> MarkdownCellView {
        match update {
            CellUpdateView::Saved => MarkdownCellView { dirty: false, ..self },
            CellUpdateView::NavHistory(history) => MarkdownCellView {
                nav_history: Some(history),
                ..self
            },
            _ => self,
        }
    }
}

impl EditorCellView {
    /// The identifier of the cell.
    pub open spec fn cell_id(self) -> Seq<char> {
        match self {
            EditorCellView::Code(cell) => cell.id,
            EditorCellView::Markdown(cell) => cell.id,
            EditorCellView::Raw(cell) => cell.id,
        }
    }

    /// Whether the cell differs from what was saved.
    pub open spec fn dirty(self) -> bool {
        match self {
            EditorCellView::Code(cell) => cell.dirty,
            EditorCellView::Markdown(cell) => cell.dirty,
            EditorCellView::Raw(_) => false,
        }
    }

    /// Whether the cell shows outputs.
    pub open spec fn has_outputs(self) -> bool {
        self matches EditorCellView::Code(cell) && cell.outputs.len() > 0
    }

    /// Whether the cell is being run.
    pub open spec fn executing(self) -> bool {
        self matches EditorCellView::Code(cell) && cell.executing
    }

    /// The cell after an update. A cell without a text editor is never updated.
    pub open spec fn updated(self, update: CellUpdateView) -> EditorCellView {
        match self {
            EditorCellView::Code(cell) => EditorCellView::Code(cell.updated(update)),
            EditorCellView::Markdown(cell) => EditorCellView::Markdown(cell.updated(update)),
            EditorCellView::Raw(_) => self,
        }
    }

    /// The cell as it is drawn at a position.
    pub open spec fn placed(self, selected: bool, position: CellPosition) -> EditorCellView {
        match self {
            EditorCellView::Code(cell) => EditorCellView::Code(
                CodeCellView { selected, position: Some(position), ..cell },
            ),
            EditorCellView::Markdown(cell) => EditorCellView::Markdown(
                MarkdownCellView { selected, position: Some(position), ..cell },
            ),
            EditorCellView::Raw(cell) => EditorCellView::Raw(
                RawCellView { selected, position: Some(position), ..cell },
            ),
        }
    }

    /// The cell as the notebook format stores it.
    pub open spec fn stored(self) -> NotebookCellView {
        match self {
            EditorCellView::Code(cell) => NotebookCellView {
                id: cell.id,
                metadata: cell.metadata,
                source: cell.source,
                content: CellContentView::Code {
                    execution_count: cell.execution_count,
                    outputs: saved_outputs(cell.outputs),
                },
            },
            EditorCellView::Markdown(cell) => NotebookCellView {
                id: cell.id,
                metadata: cell.metadata,
                source: cell.source,
                content: CellContentView::Markdown { attachments: cell.attachments },
            },
            EditorCellView::Raw(cell) => NotebookCellView {
                id: cell.id,
                metadata: cell.metadata,
                source: cell.source,
                content: CellContentView::Raw,
            },
        }
    }
}

/// A stored cell as the editor loads it. A Markdown cell without text starts out being edited.
pub open spec fn loaded(cell: NotebookCellView, language: Option<u64>) -> EditorCellView {
    match cell.content {
        CellContentView::Code { execution_count, outputs } => EditorCellView::Code(
            CodeCellView {
                id: cell.id,
                metadata: cell.metadata,
                execution_count,
                source: cell.source,
                outputs: shown_outputs(outputs),
                dirty: false,
                executing: false,
                language,
                nav_history: None,
                selected: false,
                position: None,
                stale: false,
            },
        ),
        CellContentView::Markdown { attachments } => EditorCellView::Markdown(
            MarkdownCellView {
                id: cell.id,
                metadata: cell.metadata,
                attachments,
                source: cell.source,
                rendered: joined(cell.source),
                dirty: false,
                editing: joined(cell.source).len() == 0,
                nav_history: None,
                selected: false,
                position: None,
                stale: false,
            },
        ),
        CellContentView::Raw => EditorCellView::Raw(
            RawCellView {
                id: cell.id,
                metadata: cell.metadata,
                source: cell.source,
                selected: false,
                position: None,
            },
        ),
    }
}

impl CodeCell {
    /// The text of the cell.
    pub fn text(&self) -> (text: String)
        ensures
            text@ == joined(self@.source),
    {
        join(&self.source)
    }

    /// Whether it shows outputs.
    pub fn has_outputs(&self) -> (result: bool)
        ensures
            result == (self@.outputs.len() > 0),
    {
        self.outputs.len() > 0
    }

    /// Takes note that it has begun to run.
    pub fn start_execution(&mut self)
        ensures
            final(self)@ == old(self)@.started(),
    {
        if self.has_outputs() {
            self.outputs.clear();
        }
        self.executing = true;
        self.stale = true;
        assert(self@.outputs =~= Seq::<CellOutputView>::empty());
    }

    /// Takes note that its run has ended, with a remark.
    pub fn end_execution(&mut self, remark: String)
        ensures
            final(self)@ == old(self)@.ended(remark@),
    {
        let ghost before = self@.outputs;
        self.executing = false;
        self.outputs.push(CellOutput::Message(remark));
        self.stale = true;
        assert(self@.outputs =~= before.push(CellOutputView::Message(remark@)));
    }

    /// Does what an update asks for.
    pub fn apply(&mut self, update: &CellUpdate)
        ensures
            final(self)@ == old(self)@.updated(update@),
    {
        match update {
            CellUpdate::Saved => {
                self.dirty = false;
            },
            CellUpdate::ClearOutputs => {
                self.outputs.clear();
                self.stale = true;
                assert(self@.outputs =~= Seq::<CellOutputView>::empty());
            },
            CellUpdate::Cancel(reason) => {
                if self.executing {
                    self.end_execution((*reason).clone());
                }
                self.stale = true;
            },
            CellUpdate::Language(language) => {
                self.language = *language;
            },
            CellUpdate::NavHistory(history) => {
                self.nav_history = Some(*history);
            },
        }
    }
}

impl MarkdownCell {
    /// Parses its text anew.
    pub fn reparse_markdown(&mut self)
        ensures
            final(self)@ == old(self)@.reparsed(),
    {
        self.rendered = join(&self.source);
        self.stale = true;
    }

    /// Whether it is being edited.
    pub fn is_editing(&self) -> (editing: bool)
        ensures
            editing == self@.editing,
    {
        self.editing
    }

    /// Starts or stops editing.
    pub fn set_editing(&mut self, editing: bool)
        ensures
            final(self)@ == old(self)@.with_editing(editing),
    {
        self.editing = editing;
        self.stale = true;
    }

    /// Stops editing and shows what the text has become.
    pub fn run(&mut self)
        ensures
            final(self)@ == old(self)@.with_editing(false).reparsed(),
    {
        self.set_editing(false);
        self.reparse_markdown();
    }

    /// Does what an update asks for.
    pub fn apply(&mut self, update: &CellUpdate)
        ensures
            final(self)@ == old(self)@.updated(update@),
    {
        match update {
            CellUpdate::Saved => {
                self.dirty = false;
            },
            CellUpdate::NavHistory(history) => {
                self.nav_history = Some(*history);
            },
            _ => {},
        }
    }
}

/// Those of `outputs` that are saved.
fn outputs_to_save(outputs: &Vec<CellOutput>) -> (saved: Vec<nbformat::v4::Output>)
    ensures
        saved@ == saved_outputs(output_views(outputs@)),
{
    let mut saved: Vec<nbformat::v4::Output> = Vec::new();
    let mut i: usize = 0;
    while i < outputs.len()
        invariant
            0 <= i <= outputs@.len(),
            saved@ == saved_outputs(output_views(outputs@).take(i as int)),
        decreases outputs@.len() - i,
    {
        let ghost next = output_views(outputs@).take(i + 1);
        proof {
            assert(next.drop_last() =~= output_views(outputs@).take(i as int));
            assert(next.last() == outputs@[i as int]@);
        }
        if let CellOutput::Notebook(output) = &outputs[i] {
            saved.push(output.clone());
        }
        i += 1;
    }
    assert(output_views(outputs@).take(i as int) =~= output_views(outputs@));
    saved
}

/// `outputs` as a cell shows them that has just been loaded.
fn outputs_to_show(outputs: &Vec<nbformat::v4::Output>) -> (shown: Vec<CellOutput>)
    ensures
        output_views(shown@) == shown_outputs(outputs@),
{
    let mut shown: Vec<CellOutput> = Vec::new();
    let mut i: usize = 0;
    while i < outputs.len()
        invariant
            0 <= i <= outputs@.len(),
            shown@.len() == i,
            forall|j: int|
                0 <= j < i ==> (#[trigger] shown@[j])@ == CellOutputView::Notebook(outputs@[j]),
        decreases outputs@.len() - i,
    {
        shown.push(CellOutput::Notebook(outputs[i].clone()));
        i += 1;
    }
    assert(output_views(shown@) =~= shown_outputs(outputs@));
    shown
}

impl EditorCell {
    /// Loads a stored cell.
    pub fn load(cell: &NotebookCell, language: Option<u64>) -> (result: EditorCell)
        ensures
            result@ == loaded(cell@, language),
    {
        let id = cell.id.clone();
        let metadata = cell.metadata.clone();
        let source = copy_strings(&cell.source);
        match &cell.content {
            CellContent::Code { execution_count, outputs } => EditorCell::Code(
                CodeCell {
                    id,
                    metadata,
                    execution_count: *execution_count,
                    source,
                    outputs: outputs_to_show(outputs),
                    dirty: false,
                    executing: false,
                    language,
                    nav_history: None,
                    selected: false,
                    position: None,
                    stale: false,
                },
            ),
            CellContent::Markdown { attachments } => {
                let rendered = join(&source);
                let editing = rendered.as_str().is_empty();
                EditorCell::Markdown(
                    MarkdownCell {
                        id,
                        metadata,
                        attachments: attachments.clone(),
                        source,
                        rendered,
                        dirty: false,
                        editing,
                        nav_history: None,
                        selected: false,
                        position: None,
                        stale: false,
                    },
                )
            },
            CellContent::Raw => EditorCell::Raw(
                RawCell { id, metadata, source, selected: false, position: None },
            ),
        }
    }

    /// The cell as the notebook format stores it.
    pub fn to_notebook_cell(&self) -> (stored: NotebookCell)
        ensures
            stored@ == self@.stored(),
    {
        match self {
            EditorCell::Code(cell) => NotebookCell {
                id: cell.id.clone(),
                metadata: cell.metadata.clone(),
                source: copy_strings(&cell.source),
                content: CellContent::Code {
                    execution_count: cell.execution_count,
                    outputs: outputs_to_save(&cell.outputs),
                },
            },
            EditorCell::Markdown(cell) => NotebookCell {
                id: cell.id.clone(),
                metadata: cell.metadata.clone(),
                source: copy_strings(&cell.source),
                content: CellContent::Markdown { attachments: cell.attachments.clone() },
            },
            EditorCell::Raw(cell) => NotebookCell {
                id: cell.id.clone(),
                metadata: cell.metadata.clone(),
                source: copy_strings(&cell.source),
                content: CellContent::Raw,
            },
        }
    }

    /// Whether the cell differs from what was saved.
    pub fn is_dirty(&self) -> (dirty: bool)
        ensures
            dirty == self@.dirty(),
    {
        match self {
            EditorCell::Code(cell) => cell.dirty,
            EditorCell::Markdown(cell) => cell.dirty,
            EditorCell::Raw(_) => false,
        }
    }

    /// Whether the cell shows outputs.
    pub fn has_outputs(&self) -> (result: bool)
        ensures
            result == self@.has_outputs(),
    {
        match self {
            EditorCell::Code(cell) => cell.has_outputs(),
            _ => false,
        }
    }

    /// Whether the cell is being run.
    pub fn is_executing(&self) -> (result: bool)
        ensures
            result == self@.executing(),
    {
        match self {
            EditorCell::Code(cell) => cell.executing,
            _ => false,
        }
    }

    /// Does what an update asks for.
    pub fn apply(&mut self, update: &CellUpdate)
        ensures
            final(self)@ == old(self)@.updated(update@),
    {
        match self {
            EditorCell::Code(cell) => cell.apply(update),
            EditorCell::Markdown(cell) => cell.apply(update),
            EditorCell::Raw(_) => {},
        }
    }

    /// Takes note of how the cell is drawn.
    pub fn place(&mut self, selected: bool, position: CellPosition)
        ensures
            final(self)@ == old(self)@.placed(selected, position),
    {
        match self {
            EditorCell::Code(cell) => {
                cell.selected = selected;
                cell.position = Some(position);
            },
            EditorCell::Markdown(cell) => {
                cell.selected = selected;
                cell.position = Some(position);
            },
            EditorCell::Raw(cell) => {
                cell.selected = selected;
                cell.position = Some(position);
            },
        }
    }
}

/// A question about a cell.
#[derive(Clone, Copy, PartialEq, Eq, Structural, Debug)]
pub enum CellTest {
    Dirty,
    HasOutputs,
    Executing,
}

impl CellTest {
    /// Whether the answer is yes.
    pub open spec fn holds(self, cell: EditorCellView) -> bool {
        match self {
            CellTest::Dirty => cell.dirty(),
            CellTest::HasOutputs => cell.has_outputs(),
            CellTest::Executing => cell.executing(),
        }
    }

    /// Whether the answer is yes for some cell.
    pub open spec fn holds_of_some(self, cells: Map<Seq<char>, EditorCellView>) -> bool {
        exists|id: Seq<char>| #[trigger] cells.contains_key(id) && self.holds(cells[id])
    }
}

/// `cells` after an update of each of them.
pub open spec fn all_updated(
    cells: Map<Seq<char>, EditorCellView>,
    update: CellUpdateView,
) -> Map<Seq<char>, EditorCellView> {
    cells.map_values(|cell: EditorCellView| cell.updated(update))
}

impl IdMap<EditorCell> {
    /// Does what an update asks for with every cell.
    pub fn apply_all(&mut self, update: &CellUpdate)
        requires
            old(self).wf(),
        ensures
            final(self).wf(),
            final(self)@ == all_updated(old(self)@, update@),
    {
        let ghost before = self.entries@;
        let mut i: usize = 0;
        while i < self.entries.len()
            invariant
                0 <= i <= self.entries@.len(),
                self.entries@.len() == before.len(),
                forall|j: int|
                    0 <= j < i ==> (#[trigger] self.entries@[j]).0@ == before[j].0@
                        && self.entries@[j].1@ == before[j].1@.updated(update@),
                forall|j: int| i <= j < before.len() ==> #[trigger] self.entries@[j] == before[j],
            decreases self.entries@.len() - i,
        {
            self.entries[i].1.apply(update);
            i += 1;
        }
        proof {
            lemma_values_replaced(
                before,
                self.entries@,
                |cell: EditorCellView| cell.updated(update@),
            );
        }
    }

    /// Whether the answer to a question is yes for some cell.
    pub fn any(&self, test: CellTest) -> (result: bool)
        requires
            self.wf(),
        ensures
            result == test.holds_of_some(self@),
    {
        let mut i: usize = 0;
        while i < self.entries.len()
            invariant
                self.wf(),
                0 <= i <= self.entries@.len(),
                forall|j: int| 0 <= j < i ==> !test.holds((#[trigger] self.entries@[j]).1@),
            decreases self.entries@.len() - i,
        {
            let cell = &self.entries[i].1;
            let answer: bool = match test {
                CellTest::Dirty => cell.is_dirty(),
                CellTest::HasOutputs => cell.has_outputs(),
                CellTest::Executing => cell.is_executing(),
            };
            if answer {
                proof {
                    lemma_entry(self.entries@, i as int);
                }
                return true;
            }
            i += 1;
        }
        proof {
            if test.holds_of_some(self@) {
                let id = choose|id: Seq<char>|
                    #[trigger] self@.contains_key(id) && test.holds(self@[id]);
                let j = key_index(self.entries@, id);
                assert(!test.holds(self.entries@[j].1@));
            }
        }
        false
    }
}

} // verus!
