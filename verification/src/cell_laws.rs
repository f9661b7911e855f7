//! What storing, loading and updating a cell do to the parts of it that can be seen.

use vstd::prelude::*;

use crate::cell::{
    loaded, output_views, saved_outputs, shown_outputs, CellOutput, CellOutputView, CellPosition,
    CellTest, CellUpdateView, CodeCell, CodeCellView, EditorCell, EditorCellView, MarkdownCell,
    MarkdownCellView, RawCell, RawCellView,
};
use crate::editor::duplicated;
use crate::notebook::{cell_ids, CellContent, CellContentView, NotebookCell, NotebookCellView};
use crate::text::{joined, opt_text, texts};

verus! {

/// A list of strings stands for their texts, one for each and in their order.
pub proof fn texts_are_told_one_by_one(strings: Seq<String>, i: int)
    requires
        0 <= i < strings.len(),
    ensures
        texts(strings).len() == strings.len(),
        texts(strings)[i] == strings[i]@,
        opt_text(Some(strings[i])) == Some(strings[i]@),
        opt_text(None) is None,
{
}

/// Joining pieces of text puts one behind the other: two lists one behind the other join to what
/// they join to apart, one piece joins to itself, and none to nothing.
pub proof fn joining_puts_texts_behind_one_another(
    a: Seq<Seq<char>>,
    b: Seq<Seq<char>>,
    piece: Seq<char>,
)
    ensures
        joined(a + b) == joined(a) + joined(b),
        joined(seq![piece]) == piece,
        joined(Seq::<Seq<char>>::empty()).len() == 0,
    decreases b.len(),
{
    if b.len() == 0 {
        assert(a + b =~= a);
        assert(joined(a) + joined(b) =~= joined(a));
    } else {
        joining_puts_texts_behind_one_another(a, b.drop_last(), piece);
        assert((a + b).drop_last() =~= a + b.drop_last());
        assert((a + b).last() == b.last());
        assert(joined(a) + joined(b) =~= (joined(a) + joined(b.drop_last())) + b.last());
    }
    let one = seq![piece];
    assert(one.drop_last() =~= Seq::<Seq<char>>::empty());
    assert(joined(one.drop_last()) =~= Seq::<char>::empty());
    assert(joined(one) =~= piece);
}

/// The text of a cell is as long as its lines are together, and each line is found in it at the
/// place behind those before it.
pub proof fn each_line_is_in_the_text(lines: Seq<Seq<char>>, i: int)
    requires
        0 <= i < lines.len(),
    ensures
        joined(lines.take(i)).len() + lines[i].len() <= joined(lines).len(),
        joined(lines).subrange(
            joined(lines.take(i)).len() as int,
            (joined(lines.take(i)).len() + lines[i].len()) as int,
        ) == lines[i],
{
    let head = lines.take(i);
    let tail = lines.skip(i + 1);
    assert(lines =~= head + (seq![lines[i]] + tail));
    joining_puts_texts_behind_one_another(head, seq![lines[i]] + tail, lines[i]);
    joining_puts_texts_behind_one_another(seq![lines[i]], tail, lines[i]);
    assert(joined(lines) =~= joined(head) + (lines[i] + joined(tail)));
    assert(joined(lines).subrange(
        joined(head).len() as int,
        (joined(head).len() + lines[i].len()) as int,
    ) =~= lines[i]);
}

/// Of the outputs that a cell shows those of the kernel are saved, in their order, and the remarks
/// of the editor are not.
pub proof fn outputs_of_the_kernel_are_saved(
    a: Seq<CellOutputView>,
    b: Seq<CellOutputView>,
    output: nbformat::v4::Output,
    remark: Seq<char>,
)
    ensures
        saved_outputs(a + b) == saved_outputs(a) + saved_outputs(b),
        saved_outputs(seq![CellOutputView::Notebook(output)]) == seq![output],
        saved_outputs(seq![CellOutputView::Message(remark)]).len() == 0,
        saved_outputs(Seq::<CellOutputView>::empty()).len() == 0,
    decreases b.len(),
{
    if b.len() == 0 {
        assert(a + b =~= a);
        assert(saved_outputs(a) + saved_outputs(b) =~= saved_outputs(a));
    } else {
        outputs_of_the_kernel_are_saved(a, b.drop_last(), output, remark);
        assert((a + b).drop_last() =~= a + b.drop_last());
        assert((a + b).last() == b.last());
        assert(saved_outputs(a + b) =~= saved_outputs(a) + saved_outputs(b));
    }
    reveal_with_fuel(saved_outputs, 2);
    let one = seq![CellOutputView::Notebook(output)];
    let other = seq![CellOutputView::Message(remark)];
    assert(one.drop_last() =~= Seq::<CellOutputView>::empty());
    assert(other.drop_last() =~= Seq::<CellOutputView>::empty());
    assert(saved_outputs(one) =~= seq![output]);
}

/// Outputs that were stored are all shown, each at its place.
pub proof fn stored_outputs_are_shown(outputs: Seq<nbformat::v4::Output>, i: int)
    requires
        0 <= i < outputs.len(),
    ensures
        shown_outputs(outputs).len() == outputs.len(),
        shown_outputs(outputs)[i] == CellOutputView::Notebook(outputs[i]),
{
}

/// Whatever state a code cell is in, what is stored is its identifier, its metadata, its text as it
/// is now, how often it was run and its outputs.
pub proof fn a_code_cell_is_stored_as_it_is(cell: CodeCellView)
    ensures
        EditorCellView::Code(cell).stored().id == cell.id,
        EditorCellView::Code(cell).stored().metadata == cell.metadata,
        EditorCellView::Code(cell).stored().source == cell.source,
        EditorCellView::Code(cell).stored().content is Code,
        EditorCellView::Code(cell).stored().content->execution_count == cell.execution_count,
        EditorCellView::Code(cell).stored().content->outputs == saved_outputs(cell.outputs),
{
}

/// Whatever state a Markdown cell is in, edited or not, what is stored is its identifier, its
/// metadata, its text as it is now and its attachments.
pub proof fn a_markdown_cell_is_stored_as_it_is(cell: MarkdownCellView)
    ensures
        EditorCellView::Markdown(cell).stored().id == cell.id,
        EditorCellView::Markdown(cell).stored().metadata == cell.metadata,
        EditorCellView::Markdown(cell).stored().source == cell.source,
        EditorCellView::Markdown(cell).stored().content is Markdown,
        EditorCellView::Markdown(cell).stored().content->attachments == cell.attachments,
{
}

/// What is stored of a raw cell is its identifier, its metadata and its text.
pub proof fn a_raw_cell_is_stored_as_it_is(cell: RawCellView)
    ensures
        EditorCellView::Raw(cell).stored().id == cell.id,
        EditorCellView::Raw(cell).stored().metadata == cell.metadata,
        EditorCellView::Raw(cell).stored().source == cell.source,
        EditorCellView::Raw(cell).stored().content is Raw,
{
}

/// What is stored of a cell does not depend on how it is shown: two Markdown cells that differ in
/// what is rendered and in whether they are edited are stored alike, and so are two code cells that
/// differ in whether they run and in which language they are shown.
pub proof fn looks_are_not_stored(
    a: MarkdownCellView,
    b: MarkdownCellView,
    c: CodeCellView,
    d: CodeCellView,
)
    requires
        a.id == b.id,
        a.metadata == b.metadata,
        a.source == b.source,
        a.attachments == b.attachments,
        c.id == d.id,
        c.metadata == d.metadata,
        c.source == d.source,
        c.execution_count == d.execution_count,
        c.outputs == d.outputs,
    ensures
        EditorCellView::Markdown(a).stored() == EditorCellView::Markdown(b).stored(),
        EditorCellView::Code(c).stored() == EditorCellView::Code(d).stored(),
{
}

/// Typing changes what is stored: cells with different texts are stored differently.
pub proof fn edits_are_stored(a: EditorCellView, b: EditorCellView)
    requires
        match (a, b) {
            (EditorCellView::Code(a), EditorCellView::Code(b)) => a.source != b.source,
            (EditorCellView::Markdown(a), EditorCellView::Markdown(b)) => a.source != b.source,
            (EditorCellView::Raw(a), EditorCellView::Raw(b)) => a.source != b.source,
            _ => false,
        },
    ensures
        a.stored() != b.stored(),
{
}

/// A stored code cell is shown with its text, its outputs and how often it was run, in the given
/// language. It does not run and has nothing to save.
pub proof fn a_code_cell_is_loaded_as_it_was(
    cell: NotebookCellView,
    execution_count: Option<i32>,
    outputs: Seq<nbformat::v4::Output>,
    language: Option<u64>,
)
    requires
        cell.content == (CellContentView::Code { execution_count, outputs }),
    ensures
        loaded(cell, language) is Code,
        loaded(cell, language)->Code_0.id == cell.id,
        loaded(cell, language)->Code_0.metadata == cell.metadata,
        loaded(cell, language)->Code_0.source == cell.source,
        loaded(cell, language)->Code_0.execution_count == execution_count,
        loaded(cell, language)->Code_0.outputs.len() == outputs.len(),
        forall|i: int|
            0 <= i < outputs.len() ==> #[trigger] loaded(cell, language)->Code_0.outputs[i]
                == CellOutputView::Notebook(outputs[i]),
        loaded(cell, language)->Code_0.language == language,
        !loaded(cell, language)->Code_0.executing,
        !loaded(cell, language)->Code_0.dirty,
        loaded(cell, language)->Code_0.nav_history is None,
        !loaded(cell, language)->Code_0.selected,
        loaded(cell, language)->Code_0.position is None,
        !loaded(cell, language)->Code_0.stale,
{
}

/// A stored Markdown cell is shown with its text and its attachments. It is edited if and only if
/// it has no text, and has nothing to save.
pub proof fn a_markdown_cell_is_loaded_as_it_was(
    cell: NotebookCellView,
    attachments: Option<serde_json::Value>,
    language: Option<u64>,
)
    requires
        cell.content == (CellContentView::Markdown { attachments }),
    ensures
        loaded(cell, language) is Markdown,
        loaded(cell, language)->Markdown_0.id == cell.id,
        loaded(cell, language)->Markdown_0.metadata == cell.metadata,
        loaded(cell, language)->Markdown_0.source == cell.source,
        loaded(cell, language)->Markdown_0.attachments == attachments,
        loaded(cell, language)->Markdown_0.rendered == joined(cell.source),
        loaded(cell, language)->Markdown_0.editing <==> forall|i: int|
            0 <= i < cell.source.len() ==> (#[trigger] cell.source[i]).len() == 0,
        !loaded(cell, language)->Markdown_0.dirty,
        loaded(cell, language)->Markdown_0.nav_history is None,
        !loaded(cell, language)->Markdown_0.selected,
        loaded(cell, language)->Markdown_0.position is None,
        !loaded(cell, language)->Markdown_0.stale,
{
    nothing_joins_to_nothing(cell.source);
}

/// Pieces join to nothing if and only if each is nothing.
proof fn nothing_joins_to_nothing(pieces: Seq<Seq<char>>)
    ensures
        joined(pieces).len() == 0 <==> forall|i: int|
            0 <= i < pieces.len() ==> (#[trigger] pieces[i]).len() == 0,
    decreases pieces.len(),
{
    if pieces.len() > 0 {
        let init = pieces.drop_last();
        nothing_joins_to_nothing(init);
        if joined(pieces).len() == 0 {
            assert forall|i: int| 0 <= i < pieces.len() implies (#[trigger] pieces[i]).len()
                == 0 by {
                if i < init.len() {
                    assert(init[i].len() == 0);
                }
            }
        }
        if forall|i: int| 0 <= i < pieces.len() ==> (#[trigger] pieces[i]).len() == 0 {
            assert forall|i: int| 0 <= i < init.len() implies (#[trigger] init[i]).len() == 0 by {
                assert(pieces[i].len() == 0);
            }
            assert(pieces[pieces.len() - 1].len() == 0);
        }
    }
}

/// A stored raw cell is shown with its text.
pub proof fn a_raw_cell_is_loaded_as_it_was(cell: NotebookCellView, language: Option<u64>)
    requires
        cell.content is Raw,
    ensures
        loaded(cell, language) is Raw,
        loaded(cell, language)->Raw_0.id == cell.id,
        loaded(cell, language)->Raw_0.metadata == cell.metadata,
        loaded(cell, language)->Raw_0.source == cell.source,
        !loaded(cell, language)->Raw_0.selected,
        loaded(cell, language)->Raw_0.position is None,
{
}

/// A copy of a stored cell has another identifier, and the metadata, the text and the kind of the
/// cell. A copy of a code cell was never run; a copy of a Markdown cell has its attachments.
pub proof fn a_copy_is_of_its_cell(cell: NotebookCellView, id: Seq<char>)
    ensures
        duplicated(cell, id).id == id,
        duplicated(cell, id).metadata == cell.metadata,
        duplicated(cell, id).source == cell.source,
        cell.content is Code ==> duplicated(cell, id).content is Code && duplicated(
            cell,
            id,
        ).content->execution_count is None && duplicated(cell, id).content->outputs.len() == 0,
        !(cell.content is Code) ==> duplicated(cell, id).content == cell.content,
{
}

/// The identifiers of cells are told in their order.
pub proof fn ids_are_told_in_order(cells: Seq<NotebookCellView>, i: int)
    requires
        0 <= i < cells.len(),
    ensures
        cell_ids(cells).len() == cells.len(),
        cell_ids(cells)[i] == cells[i].id,
{
}

/// A code cell that begins to run loses the outputs of an earlier run, and nothing else.
pub proof fn beginning_to_run_drops_outputs(cell: CodeCellView)
    ensures
        cell.started().executing,
        cell.started().outputs.len() == 0,
        cell.started().stale,
        cell.started().id == cell.id,
        cell.started().metadata == cell.metadata,
        cell.started().execution_count == cell.execution_count,
        cell.started().source == cell.source,
        cell.started().dirty == cell.dirty,
        cell.started().language == cell.language,
        cell.started().nav_history == cell.nav_history,
        cell.started().selected == cell.selected,
        cell.started().position == cell.position,
{
}

/// A code cell whose run has ended shows why, behind what it showed, and changes in nothing else.
pub proof fn ending_a_run_adds_a_remark(cell: CodeCellView, remark: Seq<char>)
    ensures
        !cell.ended(remark).executing,
        cell.ended(remark).outputs.len() == cell.outputs.len() + 1,
        cell.ended(remark).outputs.last() == CellOutputView::Message(remark),
        forall|i: int|
            0 <= i < cell.outputs.len() ==> #[trigger] cell.ended(remark).outputs[i]
                == cell.outputs[i],
        cell.ended(remark).stale,
        cell.ended(remark).id == cell.id,
        cell.ended(remark).metadata == cell.metadata,
        cell.ended(remark).execution_count == cell.execution_count,
        cell.ended(remark).source == cell.source,
        cell.ended(remark).dirty == cell.dirty,
        cell.ended(remark).language == cell.language,
        cell.ended(remark).nav_history == cell.nav_history,
        cell.ended(remark).selected == cell.selected,
        cell.ended(remark).position == cell.position,
{
}

/// No update changes what a code cell is, what it says or how it stands among the cells; each
/// changes the one thing that it is about.
pub proof fn updates_keep_a_code_cell(cell: CodeCellView, update: CellUpdateView)
    ensures
        cell.updated(update).id == cell.id,
        cell.updated(update).metadata == cell.metadata,
        cell.updated(update).execution_count == cell.execution_count,
        cell.updated(update).source == cell.source,
        cell.updated(update).selected == cell.selected,
        cell.updated(update).position == cell.position,
        update is Saved ==> !cell.updated(update).dirty,
        !(update is Saved) ==> cell.updated(update).dirty == cell.dirty,
        update matches CellUpdateView::Language(language) ==> cell.updated(update).language
            == language,
        !(update is Language) ==> cell.updated(update).language == cell.language,
        update matches CellUpdateView::NavHistory(history) ==> cell.updated(update).nav_history
            == Some(history),
        !(update is NavHistory) ==> cell.updated(update).nav_history == cell.nav_history,
        update is Cancel ==> !cell.updated(update).executing,
        !(update is Cancel) ==> cell.updated(update).executing == cell.executing,
        update is ClearOutputs ==> cell.updated(update).outputs.len() == 0,
        update matches CellUpdateView::Cancel(reason) ==> (cell.executing ==> cell.updated(
            update,
        ).outputs == cell.outputs.push(CellOutputView::Message(reason))),
        !(update is ClearOutputs) && !(update is Cancel && cell.executing) ==> cell.updated(
            update,
        ).outputs == cell.outputs,
        update is ClearOutputs || update is Cancel ==> cell.updated(update).stale,
        !(update is ClearOutputs || update is Cancel) ==> cell.updated(update).stale == cell.stale,
{
}

/// Of a Markdown cell only whether it has something to save and which history it is recorded in
/// change by updates.
pub proof fn updates_keep_a_markdown_cell(cell: MarkdownCellView, update: CellUpdateView)
    ensures
        cell.updated(update).id == cell.id,
        cell.updated(update).metadata == cell.metadata,
        cell.updated(update).attachments == cell.attachments,
        cell.updated(update).source == cell.source,
        cell.updated(update).rendered == cell.rendered,
        cell.updated(update).editing == cell.editing,
        cell.updated(update).selected == cell.selected,
        cell.updated(update).position == cell.position,
        cell.updated(update).stale == cell.stale,
        update is Saved ==> !cell.updated(update).dirty,
        !(update is Saved) ==> cell.updated(update).dirty == cell.dirty,
        update matches CellUpdateView::NavHistory(history) ==> cell.updated(update).nav_history
            == Some(history),
        !(update is NavHistory) ==> cell.updated(update).nav_history == cell.nav_history,
{
}

/// An update of a cell is one of what it is: a code cell stays one, and so on; a raw cell does not
/// change at all.
pub proof fn updates_keep_the_kind(
    code: CodeCellView,
    markdown: MarkdownCellView,
    raw: RawCellView,
    update: CellUpdateView,
)
    ensures
        EditorCellView::Code(code).updated(update) == EditorCellView::Code(code.updated(update)),
        EditorCellView::Markdown(markdown).updated(update) == EditorCellView::Markdown(
            markdown.updated(update),
        ),
        EditorCellView::Raw(raw).updated(update) == EditorCellView::Raw(raw),
{
}

/// Showing what the text of a Markdown cell has become shows that text, and starting or stopping to
/// edit it changes neither the text nor what is shown.
pub proof fn markdown_is_shown_and_edited(cell: MarkdownCellView, editing: bool)
    ensures
        cell.reparsed().rendered == joined(cell.source),
        cell.reparsed().source == cell.source,
        cell.reparsed().editing == cell.editing,
        cell.reparsed().dirty == cell.dirty,
        cell.reparsed().id == cell.id,
        cell.reparsed().metadata == cell.metadata,
        cell.reparsed().attachments == cell.attachments,
        cell.reparsed().nav_history == cell.nav_history,
        cell.reparsed().selected == cell.selected,
        cell.reparsed().position == cell.position,
        cell.reparsed().stale,
        cell.with_editing(editing).editing == editing,
        cell.with_editing(editing).source == cell.source,
        cell.with_editing(editing).rendered == cell.rendered,
        cell.with_editing(editing).dirty == cell.dirty,
        cell.with_editing(editing).id == cell.id,
        cell.with_editing(editing).metadata == cell.metadata,
        cell.with_editing(editing).attachments == cell.attachments,
        cell.with_editing(editing).nav_history == cell.nav_history,
        cell.with_editing(editing).selected == cell.selected,
        cell.with_editing(editing).position == cell.position,
        cell.with_editing(editing).stale,
{
}

/// Drawing a cell notes where it stands and whether it is selected, and changes nothing that is
/// stored or shown of it.
pub proof fn drawing_notes_the_place(
    code: CodeCellView,
    markdown: MarkdownCellView,
    raw: RawCellView,
    selected: bool,
    position: CellPosition,
)
    ensures
        EditorCellView::Code(code).placed(selected, position) matches EditorCellView::Code(after)
            && after.selected == selected && after.position == Some(position) && after.id == code.id
            && after.metadata == code.metadata && after.execution_count == code.execution_count
            && after.source == code.source && after.outputs == code.outputs && after.dirty
            == code.dirty && after.executing == code.executing && after.language == code.language
            && after.nav_history == code.nav_history && after.stale == code.stale,
        EditorCellView::Markdown(markdown).placed(selected, position) matches
            EditorCellView::Markdown(after) && after.selected == selected && after.position == Some(
            position,
        ) && after.id == markdown.id && after.metadata == markdown.metadata && after.attachments
            == markdown.attachments && after.source == markdown.source && after.rendered
            == markdown.rendered && after.dirty == markdown.dirty && after.editing
            == markdown.editing && after.nav_history == markdown.nav_history && after.stale
            == markdown.stale,
        EditorCellView::Raw(raw).placed(selected, position) matches EditorCellView::Raw(after)
            && after.selected == selected && after.position == Some(position) && after.id == raw.id
            && after.metadata == raw.metadata && after.source == raw.source,
{
}

/// Questions about a cell are answered by what it holds: a raw cell has nothing to save, and only a
/// code cell shows outputs or runs.
pub proof fn cells_tell_their_state(
    code: CodeCellView,
    markdown: MarkdownCellView,
    raw: RawCellView,
)
    ensures
        EditorCellView::Code(code).cell_id() == code.id,
        EditorCellView::Markdown(markdown).cell_id() == markdown.id,
        EditorCellView::Raw(raw).cell_id() == raw.id,
        CellTest::Dirty.holds(EditorCellView::Code(code)) == code.dirty,
        CellTest::Dirty.holds(EditorCellView::Markdown(markdown)) == markdown.dirty,
        !CellTest::Dirty.holds(EditorCellView::Raw(raw)),
        CellTest::HasOutputs.holds(EditorCellView::Code(code)) == (code.outputs.len() > 0),
        !CellTest::HasOutputs.holds(EditorCellView::Markdown(markdown)),
        !CellTest::HasOutputs.holds(EditorCellView::Raw(raw)),
        CellTest::Executing.holds(EditorCellView::Code(code)) == code.executing,
        !CellTest::Executing.holds(EditorCellView::Markdown(markdown)),
        !CellTest::Executing.holds(EditorCellView::Raw(raw)),
{
}

/// The answer to a question about all cells is yes if and only if it is yes for one of them.
pub proof fn one_cell_decides(
    test: CellTest,
    cells: Map<Seq<char>, EditorCellView>,
    id: Seq<char>,
)
    ensures
        cells.contains_key(id) && test.holds(cells[id]) ==> test.holds_of_some(cells),
        test.holds_of_some(cells) ==> exists|other: Seq<char>| #[trigger]
            cells.contains_key(other) && test.holds(cells[other]),
{
}

/// A code cell in the editor stands for what its fields hold.
pub proof fn a_code_cell_is_its_fields(cell: CodeCell)
    ensures
        cell@.id == cell.id@,
        cell@.metadata == cell.metadata,
        cell@.execution_count == cell.execution_count,
        cell@.source.len() == cell.source@.len(),
        forall|i: int|
            0 <= i < cell.source@.len() ==> #[trigger] cell@.source[i] == cell.source@[i]@,
        cell@.outputs.len() == cell.outputs@.len(),
        forall|i: int|
            0 <= i < cell.outputs@.len() ==> #[trigger] cell@.outputs[i] == cell.outputs@[i]@,
        cell@.dirty == cell.dirty,
        cell@.executing == cell.executing,
        cell@.language == cell.language,
        cell@.nav_history == cell.nav_history,
        cell@.selected == cell.selected,
        cell@.position == cell.position,
        cell@.stale == cell.stale,
        EditorCell::Code(cell)@ == EditorCellView::Code(cell@),
{
}

/// A Markdown cell in the editor stands for what its fields hold.
pub proof fn a_markdown_cell_is_its_fields(cell: MarkdownCell)
    ensures
        cell@.id == cell.id@,
        cell@.metadata == cell.metadata,
        cell@.attachments == cell.attachments,
        cell@.source.len() == cell.source@.len(),
        forall|i: int|
            0 <= i < cell.source@.len() ==> #[trigger] cell@.source[i] == cell.source@[i]@,
        cell@.rendered == cell.rendered@,
        cell@.dirty == cell.dirty,
        cell@.editing == cell.editing,
        cell@.nav_history == cell.nav_history,
        cell@.selected == cell.selected,
        cell@.position == cell.position,
        cell@.stale == cell.stale,
        EditorCell::Markdown(cell)@ == EditorCellView::Markdown(cell@),
{
}

/// A raw cell in the editor, and an output that a cell shows, stand for what their fields hold.
pub proof fn a_raw_cell_is_its_fields(
    cell: RawCell,
    output: nbformat::v4::Output,
    remark: String,
    outputs: Seq<CellOutput>,
    i: int,
)
    requires
        0 <= i < outputs.len(),
    ensures
        cell@.id == cell.id@,
        cell@.metadata == cell.metadata,
        cell@.source.len() == cell.source@.len(),
        forall|j: int|
            0 <= j < cell.source@.len() ==> #[trigger] cell@.source[j] == cell.source@[j]@,
        cell@.selected == cell.selected,
        cell@.position == cell.position,
        EditorCell::Raw(cell)@ == EditorCellView::Raw(cell@),
        CellOutput::Notebook(output)@ == CellOutputView::Notebook(output),
        CellOutput::Message(remark)@ == CellOutputView::Message(remark@),
        output_views(outputs).len() == outputs.len(),
        output_views(outputs)[i] == outputs[i]@,
{
}

/// A stored cell stands for what its fields hold.
pub proof fn a_stored_cell_is_its_fields(cell: NotebookCell)
    ensures
        cell@.id == cell.id@,
        cell@.metadata == cell.metadata,
        cell@.source.len() == cell.source@.len(),
        forall|i: int|
            0 <= i < cell.source@.len() ==> #[trigger] cell@.source[i] == cell.source@[i]@,
        match cell.content {
            CellContent::Code { execution_count, outputs } => cell@.content
                == (CellContentView::Code { execution_count, outputs: outputs@ }),
            CellContent::Markdown { attachments } => cell@.content
                == (CellContentView::Markdown { attachments }),
            CellContent::Raw => cell@.content is Raw,
        },
{
}

} // verus!
