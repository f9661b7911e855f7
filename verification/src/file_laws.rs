//! What opening, repairing and writing notebook files make of them.

use vstd::prelude::*;

use crate::document::{
    alike_cell, completed, content_outputs, contents_of, depth_left, has_output,
    is_notebook_of_text, is_parse_result, is_upgrade_error, numbered, opened, outcome, regular,
    regular_cell, regular_members, repaired, reparsed, restored, same_cell, LegacyView, OpenError,
    ParsedView,
};
use crate::ids::{is_id_char, is_uuid_text, lemma_uuid_is_valid, valid_cell_id};
use crate::json::{
    additional_member, alike, alike_within, cells_take_ids, document_cells, has_id, json_contents,
    json_of_text, json_views, lacking, lemma_lacking_grows, member_text, missing, nests_within,
    takes_members, text_of_json, with_cell_ids, with_id, Json, JsonView,
};
use crate::notebook::{
    author_views, cell_ids, cell_views, empty_notebook, metadata_clashes, metadata_json, mode_json,
    no_metadata, output_clashes, output_json, valid_ids, CellContentView, NotebookAuthor,
    NotebookCell, NotebookCellView, NotebookLanguage, NotebookMetadata, StoredNotebook,
    StoredNotebookView,
};
use crate::text::blank;

verus! {

/// A file of white space is opened as a notebook without cells and without metadata.
pub proof fn a_blank_file_is_an_empty_notebook(
    text: Seq<char>,
    ids: Seq<Seq<char>>,
    result: Result<StoredNotebookView, OpenError>,
)
    requires
        opened(text, ids, result),
        blank(text),
    ensures
        ids.len() == 0,
        result is Ok,
        result->Ok_0.cells.len() == 0,
        result->Ok_0.nbformat == 4,
        result->Ok_0.nbformat_minor == 5,
        result->Ok_0.metadata.kernelspec is None,
        result->Ok_0.metadata.language_info is None,
        result->Ok_0.metadata.authors is None,
        result->Ok_0.metadata.additional.dom().is_empty(),
{
    let none = Map::<String, serde_json::Value>::empty();
    assert(none.dom() =~= Set::<String>::empty());
}

/// What is read from a file that can be read as it is: a notebook of the current version comes out
/// as it is in the file. No identifier is drawn for it.
pub proof fn a_current_notebook_is_taken_as_it_is(
    text: Seq<char>,
    ids: Seq<Seq<char>>,
    result: Result<StoredNotebookView, OpenError>,
    parsed: ParsedView,
)
    requires
        opened(text, ids, result),
        !blank(text),
        is_parse_result(text, Ok(parsed)),
    ensures
        ids.len() == 0,
        exists|read: ParsedView|
            is_parse_result(text, Ok(read)) && (read matches ParsedView::Current(notebook)
                ==> result == Ok::<StoredNotebookView, OpenError>(notebook)) && (read is Legacy
                ==> completed(read, result)) && #[trigger] is_notebook_of_text(text, read),
{
    assert(is_notebook_of_text(text, parsed));
    let read = choose|read: ParsedView| #[trigger]
        is_notebook_of_text(text, read) && completed(read, result);
    assert(is_notebook_of_text(text, read));
}

/// An upgrade of an earlier version keeps the cells in their order, each with its text, its
/// metadata, what only cells of its kind have, and its identifier, if it had one. It is refused
/// only if two cells share an identifier or some cell had none.
pub proof fn an_earlier_notebook_keeps_its_cells(
    legacy: LegacyView,
    result: Result<StoredNotebookView, OpenError>,
    i: int,
)
    requires
        completed(ParsedView::Legacy(legacy), result),
    ensures
        result matches Ok(notebook) ==> {
            &&& notebook.cells.len() == legacy.cells.len()
            &&& 0 <= i < legacy.cells.len() ==> {
                &&& notebook.cells[i].source == legacy.cells[i].source
                &&& notebook.cells[i].metadata == legacy.cells[i].metadata
                &&& notebook.cells[i].content == legacy.cells[i].content
                &&& legacy.cells[i].id is Some ==> notebook.cells[i].id == legacy.cells[i].id->0
                &&& legacy.cells[i].id is None ==> is_uuid_text(notebook.cells[i].id)
            }
            &&& notebook.metadata == legacy.metadata
            &&& notebook.nbformat == 4
            &&& notebook.nbformat_minor == 5
            &&& forall|a: int, b: int|
                0 <= a < b < legacy.cells.len() && (#[trigger] legacy.cells[a]).id is Some ==> (
                #[trigger] legacy.cells[b]).id != legacy.cells[a].id
            &&& forall|a: int, b: int|
                0 <= a < b < notebook.cells.len() ==> (#[trigger] notebook.cells[a]).id != (
                #[trigger] notebook.cells[b]).id
        },
        result matches Err(error) ==> {
            &&& error matches OpenError::CannotUpgrade(reason) && is_upgrade_error(legacy, reason)
            &&& (exists|a: int|
                0 <= a < legacy.cells.len() && (#[trigger] legacy.cells[a]).id is None)
                || (exists|a: int, b: int|
                0 <= a < b < legacy.cells.len() && (#[trigger] legacy.cells[a]).id is Some && (
                #[trigger] legacy.cells[b]).id == legacy.cells[a].id)
        },
{
    if result is Ok {
        let notebook = result->Ok_0;
        assert forall|a: int, b: int| 0 <= a < b < notebook.cells.len() implies (
        #[trigger] notebook.cells[a]).id != (#[trigger] notebook.cells[b]).id by {
            assert(cell_ids(notebook.cells)[a] != cell_ids(notebook.cells)[b]);
        }
    }
}

/// A file that cannot be read as it is, is repaired: what is no JSON, or has a cell that can have
/// no members, is refused as such and no identifier is drawn; otherwise one is drawn for each cell
/// that has none.
pub proof fn only_missing_ids_are_drawn(
    text: Seq<char>,
    ids: Seq<Seq<char>>,
    result: Result<StoredNotebookView, OpenError>,
    i: int,
)
    requires
        repaired(text, ids, result),
    ensures
        json_of_text(text) matches Err(error) ==> ids.len() == 0 && result == Err::<
            StoredNotebookView,
            OpenError,
        >(OpenError::InvalidJson(error)),
        json_of_text(text) matches Ok(json) ==> (document_cells(json) matches Some(cells) ==> (0
            <= i < cells.len() && !(cells[i] is Object || cells[i] is Null) ==> ids.len() == 0
            && result == Err::<StoredNotebookView, OpenError>(OpenError::CellWithoutMembers))),
        json_of_text(text) matches Ok(json) ==> (document_cells(json) is None ==> ids.len() == 0
            && reparsed(text_of_json(json), result)),
        0 <= i < ids.len() ==> is_uuid_text(ids[i]),
        result matches Err(OpenError::InvalidJson(_)) ==> json_of_text(text) is Err,
        json_of_text(text) is Ok && cells_take_ids(json_of_text(text)->Ok_0) ==> ids.len()
            == missing(json_of_text(text)->Ok_0),
        json_of_text(text) is Ok && cells_take_ids(json_of_text(text)->Ok_0) ==> reparsed(
            text_of_json(with_cell_ids(json_of_text(text)->Ok_0, ids)),
            result,
        ),
{
    if let Ok(json) = json_of_text(text) {
        if let Some(cells) = document_cells(json) {
            if 0 <= i < cells.len() && !(cells[i] is Object || cells[i] is Null) {
                assert(!takes_members(cells[i]));
            }
        }
    }
}

/// A file that is neither blank nor read as it is, is repaired.
pub proof fn what_cannot_be_read_is_repaired(
    text: Seq<char>,
    ids: Seq<Seq<char>>,
    result: Result<StoredNotebookView, OpenError>,
)
    requires
        opened(text, ids, result),
        !blank(text),
        forall|parsed: ParsedView| !is_parse_result(text, Ok(parsed)),
    ensures
        repaired(text, ids, result),
{
}

/// What is read once identifiers have been filled in is what the parser reads from the text with
/// them, completed; what the parser refuses is refused with its reason.
pub proof fn repaired_text_is_read(
    text: Seq<char>,
    result: Result<StoredNotebookView, OpenError>,
)
    requires
        reparsed(Ok(text), result),
    ensures
        result is Ok ==> exists|read: ParsedView|
            is_parse_result(text, Ok(read)) && (read matches ParsedView::Current(notebook)
                ==> result == Ok::<StoredNotebookView, OpenError>(notebook))
                && #[trigger] is_notebook_of_text(text, read),
        result matches Err(OpenError::InvalidNotebook(error)) ==> is_parse_result(text, Err(error)),
        (exists|parsed: ParsedView| #[trigger] is_notebook_of_text(text, parsed)) ==> exists|
            read: ParsedView,
        | #[trigger]
            is_notebook_of_text(text, read) && completed(read, result),
        !(result matches Err(OpenError::InvalidJson(_))),
        !(result matches Err(OpenError::CellWithoutMembers)),
        !(result matches Err(OpenError::UnwritableJson(_))),
{
    if result is Ok {
        let read = choose|read: ParsedView| #[trigger]
            is_notebook_of_text(text, read) && completed(read, result);
        assert(is_notebook_of_text(text, read));
    }
}

/// A document that could not be written out again is refused as such.
pub proof fn what_cannot_be_written_is_refused(
    error: serde_json::Error,
    result: Result<StoredNotebookView, OpenError>,
)
    requires
        reparsed(Err(error), result),
    ensures
        result == Err::<StoredNotebookView, OpenError>(OpenError::UnwritableJson(error)),
{
}

/// The cells of a document are what its member of that name lists, and there are none otherwise.
pub proof fn the_cells_of_a_document(members: Map<Seq<char>, JsonView>, items: Seq<JsonView>)
    ensures
        members.contains_key("cells"@) && members["cells"@] == JsonView::Array(items)
            ==> document_cells(JsonView::Object(members)) == Some(items),
        !(members.contains_key("cells"@) && members["cells"@] is Array) ==> document_cells(
            JsonView::Object(members),
        ) is None,
        document_cells(JsonView::Array(items)) is None,
        document_cells(JsonView::Null) is None,
{
}

/// The identifier of a cell is its member of that name. Filling one in adds that member to a cell
/// without it, leaves its other members alone, and changes nothing about a cell that has it.
pub proof fn filling_in_adds_one_member(
    members: Map<Seq<char>, JsonView>,
    id: Seq<char>,
    key: Seq<char>,
)
    ensures
        has_id(JsonView::Object(members)) <==> members.contains_key("id"@),
        !has_id(JsonView::Null),
        members.contains_key("id"@) ==> with_id(JsonView::Object(members), id) == JsonView::Object(
            members,
        ),
        !members.contains_key("id"@) ==> {
            let filled = with_id(JsonView::Object(members), id);
            &&& filled is Object
            &&& filled->Object_0.contains_key("id"@)
            &&& filled->Object_0["id"@] == JsonView::String(id)
            &&& key != "id"@ ==> (filled->Object_0.contains_key(key) <==> members.contains_key(key))
            &&& key != "id"@ && members.contains_key(key) ==> filled->Object_0[key] == members[key]
        },
        ({
            let filled = with_id(JsonView::Null, id);
            &&& filled is Object
            &&& filled->Object_0.contains_key("id"@)
            &&& filled->Object_0["id"@] == JsonView::String(id)
            &&& filled->Object_0.contains_key(key) ==> key == "id"@
        }),
        takes_members(JsonView::Object(members)),
        takes_members(JsonView::Null),
        !takes_members(JsonView::String(id)),
{
}

/// Filling in identifiers leaves the other members of a document alone, and keeps its cells in
/// their order. The cells without an identifier get the drawn ones in their order: the first of
/// them the first one, and each later one the next.
pub proof fn identifiers_are_filled_in_in_order(
    json: JsonView,
    ids: Seq<Seq<char>>,
    i: int,
    key: Seq<char>,
)
    requires
        document_cells(json) is Some,
        0 <= i < document_cells(json)->0.len(),
        !has_id(document_cells(json)->0[i]),
        takes_members(document_cells(json)->0[i]),
        forall|j: int|
            0 <= j < document_cells(json)->0.len() ==> takes_members(
                #[trigger] document_cells(json)->0[j],
            ),
        ids.len() == missing(json),
    ensures
        with_cell_ids(json, ids) is Object,
        key != "cells"@ ==> {
            &&& with_cell_ids(json, ids)->Object_0.contains_key(key)
                <==> json->Object_0.contains_key(key)
            &&& json->Object_0.contains_key(key) ==> with_cell_ids(json, ids)->Object_0[key]
                == json->Object_0[key]
        },
        document_cells(with_cell_ids(json, ids)) is Some,
        document_cells(with_cell_ids(json, ids))->0.len() == document_cells(json)->0.len(),
        ({
            let filled = document_cells(with_cell_ids(json, ids))->0[i];
            let place = lacking(document_cells(json)->0.take(i));
            &&& place < ids.len()
            &&& filled == with_id(document_cells(json)->0[i], ids[place as int])
            &&& filled is Object
            &&& filled->Object_0["id"@] == JsonView::String(ids[place as int])
            &&& (forall|j: int| 0 <= j < i ==> has_id(#[trigger] document_cells(json)->0[j]))
                ==> place == 0
        }),
{
    let cells = document_cells(json)->0;
    lemma_lacking_grows(cells, i);
    if forall|j: int| 0 <= j < i ==> has_id(#[trigger] document_cells(json)->0[j]) {
        none_is_lacking(cells.take(i));
    }
}

/// A document without a list of cells stays as it is.
pub proof fn without_cells_nothing_is_filled_in(json: JsonView, ids: Seq<Seq<char>>)
    requires
        document_cells(json) is None,
    ensures
        with_cell_ids(json, ids) == json,
        missing(json) == 0,
        cells_take_ids(json),
{
}

/// Where each cell has an identifier none is lacking.
proof fn none_is_lacking(cells: Seq<JsonView>)
    requires
        forall|i: int| 0 <= i < cells.len() ==> has_id(#[trigger] cells[i]),
    ensures
        lacking(cells) == 0,
    decreases cells.len(),
{
    if cells.len() > 0 {
        none_is_lacking(cells.drop_last());
    }
}

/// How many identifiers are lacking in a list: none in one without cells, and one more for each
/// cell behind it that has none.
pub proof fn lacking_identifiers_are_counted(cells: Seq<JsonView>, cell: JsonView)
    ensures
        lacking(Seq::<JsonView>::empty()) == 0,
        document_cells(cell) matches Some(listed) ==> missing(cell) == lacking(listed),
        has_id(cell) ==> lacking(cells.push(cell)) == lacking(cells),
        !has_id(cell) ==> lacking(cells.push(cell)) == lacking(cells) + 1,
        lacking(cells) <= cells.len(),
    decreases cells.len(),
{
    assert(cells.push(cell).drop_last() =~= cells);
    if cells.len() > 0 {
        lacking_identifiers_are_counted(cells.drop_last(), cells.last());
        assert(cells.drop_last().push(cells.last()) =~= cells);
    }
}

/// The text of a member is there if and only if the member is there and is a text.
pub proof fn members_tell_their_text(
    members: Map<Seq<char>, JsonView>,
    key: Seq<char>,
    text: Seq<char>,
)
    ensures
        member_text(JsonView::Object(members), key) == Some(text) <==> members.contains_key(key)
            && members[key] == JsonView::String(text),
        member_text(JsonView::String(text), key) is None,
        member_text(JsonView::Null, key) is None,
{
}

/// JSON values stand for what they hold, lists item by item.
pub proof fn json_is_what_it_holds(text: String, flag: bool, items: Vec<Json>, i: int)
    ensures
        Json::Null@ is Null,
        Json::Bool(flag)@ == JsonView::Bool(flag),
        Json::String(text)@ == JsonView::String(text@),
        Json::Array(items)@ is Array,
        Json::Array(items)@->Array_0.len() == items@.len(),
        0 <= i < items@.len() ==> Json::Array(items)@->Array_0[i] == items@[i]@,
        json_views(items@).len() == items@.len(),
        0 <= i < items@.len() ==> json_views(items@)[i] == items@[i]@,
{
}

/// A notebook is written under its own version numbers; nothing else of it depends on them.
pub proof fn version_numbers_are_written(notebook: StoredNotebookView, major: i32, minor: i32)
    ensures
        numbered(notebook, major, minor).nbformat == major,
        numbered(notebook, major, minor).nbformat_minor == minor,
        numbered(notebook, major, minor).cells == notebook.cells,
        numbered(notebook, major, minor).metadata == notebook.metadata,
        empty_notebook().cells.len() == 0,
        empty_notebook().nbformat == 4,
        empty_notebook().nbformat_minor == 5,
        empty_notebook().metadata == no_metadata(),
        no_metadata().kernelspec is None,
        no_metadata().language_info is None,
        no_metadata().authors is None,
        no_metadata().additional == Map::<String, serde_json::Value>::empty(),
{
}

/// What came back of a notebook that was written has the cells of the notebook in their order, each
/// with its identifier, its text and its kind, code run as often as it was.
pub proof fn cells_come_back_in_order(
    notebook: StoredNotebookView,
    back: StoredNotebookView,
    i: int,
)
    requires
        restored(notebook, back),
        0 <= i < notebook.cells.len(),
    ensures
        back.cells.len() == notebook.cells.len(),
        back.cells[i].id == notebook.cells[i].id,
        back.cells[i].source == notebook.cells[i].source,
        back.cells[i].content is Code <==> notebook.cells[i].content is Code,
        back.cells[i].content is Markdown <==> notebook.cells[i].content is Markdown,
        back.cells[i].content is Raw <==> notebook.cells[i].content is Raw,
        notebook.cells[i].content is Code ==> back.cells[i].content->execution_count
            == notebook.cells[i].content->execution_count,
{
    assert(same_cell(notebook.cells[i], back.cells[i]));
}

/// The identifiers that the notebook format accepts are 1 to 64 letters, digits, hyphens and
/// underscores, and those that are drawn are among them.
pub proof fn drawn_identifiers_are_accepted(id: Seq<char>, i: int)
    ensures
        valid_cell_id(id) ==> 1 <= id.len() <= 64,
        valid_cell_id(id) && 0 <= i < id.len() ==> 'a' <= id[i] <= 'z' || 'A' <= id[i] <= 'Z' || '0'
            <= id[i] <= '9' || id[i] == '-' || id[i] == '_',
        is_uuid_text(id) ==> valid_cell_id(id) && id.len() == 36 && id[8] == '-' && id[13] == '-'
            && id[18] == '-' && id[23] == '-' && id[14] == '4',
        (1 <= id.len() <= 64 && forall|j: int|
            0 <= j < id.len() ==> 'a' <= #[trigger] id[j] <= 'z' || 'A' <= id[j] <= 'Z' || '0'
                <= id[j] <= '9' || id[j] == '-' || id[j] == '_') ==> valid_cell_id(id),
{
    if is_uuid_text(id) {
        lemma_uuid_is_valid(id);
    }
    if valid_cell_id(id) && 0 <= i < id.len() {
        assert(is_id_char(id[i]));
    }
}

/// What a notebook says about itself stands for what its fields hold.
pub proof fn metadata_are_their_fields(
    metadata: NotebookMetadata,
    language: NotebookLanguage,
    author: NotebookAuthor,
    cells: Seq<NotebookCell>,
    authors: Seq<NotebookAuthor>,
    i: int,
)
    ensures
        metadata.kernelspec matches Some(spec) ==> metadata@.kernelspec == Some(spec@),
        metadata.kernelspec is None ==> metadata@.kernelspec is None,
        metadata.language_info matches Some(info) ==> metadata@.language_info == Some(info@),
        metadata.language_info is None ==> metadata@.language_info is None,
        metadata.authors matches Some(list) ==> metadata@.authors == Some(author_views(list@)),
        metadata.authors is None ==> metadata@.authors is None,
        metadata@.additional == metadata.additional@,
        language@.name == language.name@,
        language.version matches Some(version) ==> language@.version == Some(version@),
        language.version is None ==> language@.version is None,
        language@.codemirror_mode == language.codemirror_mode,
        language@.additional == language.additional@,
        author@.name == author.name@,
        author@.additional == author.additional@,
        author_views(authors).len() == authors.len(),
        0 <= i < authors.len() ==> author_views(authors)[i] == authors[i]@,
        cell_views(cells).len() == cells.len(),
        0 <= i < cells.len() ==> cell_views(cells)[i] == cells[i]@,
        valid_ids(cell_views(cells)) && 0 <= i < cells.len() ==> valid_cell_id(cells[i].id@),
{
    if 0 <= i < cells.len() {
        assert(cell_views(cells)[i].id == cells[i].id@);
    }
}

/// The outputs of a notebook are those of its code cells.
pub proof fn outputs_are_those_of_cells(
    cells: Seq<NotebookCellView>,
    i: int,
    output: nbformat::v4::Output,
    result: Result<StoredNotebook, OpenError>,
)
    ensures
        contents_of(cells).len() == cells.len(),
        0 <= i < cells.len() ==> contents_of(cells)[i] == cells[i].content,
        0 <= i < cells.len() && cells[i].content is Code
            && cells[i].content->outputs.contains(output) ==> has_output(
            contents_of(cells),
            output,
        ),
        0 <= i < cells.len() && !(cells[i].content is Code) ==> content_outputs(
            cells[i].content,
        ).len() == 0,
        result matches Ok(notebook) ==> outcome(result) == Ok::<StoredNotebookView, OpenError>(
            notebook@,
        ),
        result matches Err(error) ==> outcome(result) == Err::<StoredNotebookView, OpenError>(
            error,
        ),
{
    if 0 <= i < cells.len() && content_outputs(cells[i].content).contains(output) {
        assert(contents_of(cells)[i] == cells[i].content);
        assert(content_outputs(contents_of(cells)[i]).contains(output));
    }
}

/// What came back of a regular notebook names the same kernel, the same language and the same
/// authors.
pub proof fn metadata_come_back(notebook: StoredNotebookView, back: StoredNotebookView, i: int)
    requires
        restored(notebook, back),
        regular(notebook),
    ensures
        notebook.metadata.kernelspec is Some <==> back.metadata.kernelspec is Some,
        notebook.metadata.kernelspec is Some ==> {
            let before = notebook.metadata.kernelspec->0;
            let after = back.metadata.kernelspec->0;
            after.name == before.name && after.display_name == before.display_name && after.language
                == before.language
        },
        notebook.metadata.language_info is Some <==> back.metadata.language_info is Some,
        notebook.metadata.language_info is Some ==> {
            let before = notebook.metadata.language_info->0;
            let after = back.metadata.language_info->0;
            after.name == before.name && after.version == before.version
        },
        notebook.metadata.authors is Some <==> back.metadata.authors is Some,
        notebook.metadata.authors is Some ==> {
            let before = notebook.metadata.authors->0;
            let after = back.metadata.authors->0;
            after.len() == before.len() && (0 <= i < before.len() ==> after[i].name
                == before[i].name)
        },
        0 <= i < notebook.cells.len() && notebook.cells[i].content is Code
            ==> back.cells[i].content->outputs.len() == notebook.cells[i].content->outputs.len(),
        0 <= i < notebook.cells.len() ==> alike(
            metadata_json(notebook.cells[i].metadata),
            metadata_json(back.cells[i].metadata),
        ),
{
    if 0 <= i < notebook.cells.len() {
        assert(same_cell(notebook.cells[i], back.cells[i]));
        assert(alike_cell(notebook.cells[i], back.cells[i]));
    }
}

/// What is alike is so both ways round, everything is like itself, and texts, truth values and
/// nothing at all are like themselves only.
pub proof fn likeness_is_mutual(a: JsonView, b: JsonView, text: Seq<char>, flag: bool)
    ensures
        alike(a, a),
        alike(a, b) ==> alike(b, a),
        alike(a, JsonView::String(text)) ==> a == JsonView::String(text),
        alike(a, JsonView::Bool(flag)) ==> a == JsonView::Bool(flag),
        alike(a, JsonView::Null) ==> a is Null,
{
    assert forall|depth: nat| #[trigger] alike_within(a, a, depth) by {
        like_itself(a, depth);
    }
    if alike(a, b) {
        assert forall|depth: nat| #[trigger] alike_within(b, a, depth) by {
            assert(alike_within(a, b, depth));
            like_each_other(a, b, depth);
        }
    }
    if alike(a, JsonView::String(text)) {
        assert(alike_within(a, JsonView::String(text), 0));
    }
    if alike(a, JsonView::Bool(flag)) {
        assert(alike_within(a, JsonView::Bool(flag), 0));
    }
    if alike(a, JsonView::Null) {
        assert(alike_within(a, JsonView::Null, 0));
    }
}

/// Everything is like itself down to any depth.
proof fn like_itself(a: JsonView, depth: nat)
    ensures
        alike_within(a, a, depth),
    decreases depth,
{
    if depth > 0 {
        match a {
            JsonView::Array(items) => {
                assert forall|i: int| 0 <= i < items.len() implies alike_within(
                    #[trigger] items[i],
                    items[i],
                    (depth - 1) as nat,
                ) by {
                    like_itself(items[i], (depth - 1) as nat);
                }
            },
            JsonView::Object(members) => {
                assert forall|key: Seq<char>| #[trigger]
                    members.contains_key(key) implies alike_within(
                    members[key],
                    members[key],
                    (depth - 1) as nat,
                ) by {
                    like_itself(members[key], (depth - 1) as nat);
                }
            },
            _ => {},
        }
    }
}

/// Likeness down to a depth is mutual.
proof fn like_each_other(a: JsonView, b: JsonView, depth: nat)
    requires
        alike_within(a, b, depth),
    ensures
        alike_within(b, a, depth),
    decreases depth,
{
    if depth > 0 {
        match (a, b) {
            (JsonView::Array(items), JsonView::Array(others)) => {
                assert forall|i: int| 0 <= i < others.len() implies alike_within(
                    #[trigger] others[i],
                    items[i],
                    (depth - 1) as nat,
                ) by {
                    assert(alike_within(items[i], others[i], (depth - 1) as nat));
                    like_each_other(items[i], others[i], (depth - 1) as nat);
                }
            },
            (JsonView::Object(members), JsonView::Object(others)) => {
                assert forall|key: Seq<char>| #[trigger]
                    others.contains_key(key) implies alike_within(
                    others[key],
                    members[key],
                    (depth - 1) as nat,
                ) by {
                    assert(members.dom().contains(key));
                    assert(members.contains_key(key));
                    like_each_other(members[key], others[key], (depth - 1) as nat);
                }
            },
            _ => {},
        }
    }
}

/// What a notebook that can be written and read again has: identifiers that no two cells share, and
/// metadata, cells and outputs whose members do not clash and are nested no deeper than is read.
pub proof fn what_makes_a_notebook_regular(
    notebook: StoredNotebookView,
    i: int,
    j: int,
    output: nbformat::v4::Output,
    key: Seq<char>,
)
    requires
        regular(notebook),
    ensures
        notebook.nbformat == 4,
        notebook.nbformat_minor == 5,
        0 <= i < j < notebook.cells.len() ==> notebook.cells[i].id != notebook.cells[j].id,
        0 <= i < notebook.cells.len() ==> {
            &&& !metadata_clashes(notebook.cells[i].metadata)
            &&& nests_within(metadata_json(notebook.cells[i].metadata), 124)
        },
        0 <= i < notebook.cells.len() ==> (
        notebook.cells[i].content matches CellContentView::Markdown { attachments: Some(value) }
            ==> nests_within(json_contents(value), 124)),
        0 <= i < notebook.cells.len() ==> (
        notebook.cells[i].content matches CellContentView::Code { outputs, .. }
            ==> (outputs.contains(output) ==> !output_clashes(output) && nests_within(
            output_json(output),
            123,
        ))),
        additional_member(notebook.metadata.additional, key) is Some ==> key != "kernelspec"@ && key
            != "language_info"@ && key != "authors"@ && nests_within(
            additional_member(notebook.metadata.additional, key)->0,
            125,
        ),
        notebook.metadata.kernelspec matches Some(spec) ==> (additional_member(
            spec.additional,
            key,
        ) is Some ==> key != "display_name"@ && key != "name"@ && key != "language"@
            && nests_within(additional_member(spec.additional, key)->0, 124)),
        notebook.metadata.language_info matches Some(language) ==> (additional_member(
            language.additional,
            key,
        ) is Some ==> key != "name"@ && key != "version"@ && key != "codemirror_mode"@
            && nests_within(additional_member(language.additional, key)->0, 124)),
        notebook.metadata.language_info matches Some(language) ==> (
        language.codemirror_mode matches Some(mode) ==> nests_within(mode_json(mode), 124)),
        notebook.metadata.authors matches Some(authors) ==> (0 <= i < authors.len()
            && additional_member(authors[i].additional, key) is Some ==> key != "name"@
            && nests_within(additional_member(authors[i].additional, key)->0, 123)),
{
    if 0 <= i < j < notebook.cells.len() {
        assert(cell_ids(notebook.cells)[i] != cell_ids(notebook.cells)[j]);
    }
    if 0 <= i < notebook.cells.len() {
        let cell = notebook.cells[i];
        assert(regular_cell(cell.metadata, cell.content));
        if content_outputs(cell.content).contains(output) {
            assert(contents_of(notebook.cells)[i] == cell.content);
            assert(has_output(contents_of(notebook.cells), output));
        }
    }
    if additional_member(notebook.metadata.additional, key) is Some {
        assert(!set!["kernelspec"@, "language_info"@, "authors"@].contains(key));
    }
    if let Some(spec) = notebook.metadata.kernelspec {
        if additional_member(spec.additional, key) is Some {
            assert(!set!["display_name"@, "name"@, "language"@].contains(key));
        }
    }
    if let Some(language) = notebook.metadata.language_info {
        if additional_member(language.additional, key) is Some {
            assert(!set!["name"@, "version"@, "codemirror_mode"@].contains(key));
        }
    }
    if let Some(authors) = notebook.metadata.authors {
        if 0 <= i < authors.len() && additional_member(authors[i].additional, key) is Some {
            assert(regular_members(authors[i].additional, set!["name"@], depth_left(4)));
            assert(!set!["name"@].contains(key));
        }
    }
}

/// Nothing that is no array and no object is nested; an array and an object are nested once more
/// than what they hold, and what nests within a depth nests within a greater one.
pub proof fn how_deep_values_are_nested(
    json: JsonView,
    items: Seq<JsonView>,
    members: Map<Seq<char>, JsonView>,
    depth: nat,
    i: int,
    key: Seq<char>,
)
    ensures
        !(json is Array) && !(json is Object) ==> nests_within(json, 0),
        nests_within(json, depth) ==> nests_within(json, depth + 1),
        !nests_within(JsonView::Array(items), 0),
        !nests_within(JsonView::Object(members), 0),
        nests_within(JsonView::Array(items), depth + 1) && 0 <= i < items.len() ==> nests_within(
            items[i],
            depth,
        ),
        nests_within(JsonView::Object(members), depth + 1) && members.contains_key(key)
            ==> nests_within(members[key], depth),
        (forall|k: int| 0 <= k < items.len() ==> nests_within(#[trigger] items[k], depth))
            ==> nests_within(JsonView::Array(items), depth + 1),
        (forall|name: Seq<char>| #[trigger]
            members.contains_key(name) ==> nests_within(members[name], depth)) ==> nests_within(
            JsonView::Object(members),
            depth + 1,
        ),
{
    if nests_within(json, depth) {
        lemma_nests_deeper(json, depth);
    }
    if nests_within(JsonView::Array(items), depth + 1) && 0 <= i < items.len() {
        lemma_parts_nest(JsonView::Array(items), depth + 1, i, key);
    }
    if nests_within(JsonView::Object(members), depth + 1) && members.contains_key(key) {
        lemma_parts_nest(JsonView::Object(members), depth + 1, i, key);
    }
}

/// The parts of a value are nested less deep.
proof fn lemma_parts_nest(json: JsonView, depth: nat, i: int, key: Seq<char>)
    requires
        nests_within(json, depth),
        depth > 0,
    ensures
        json matches JsonView::Array(items) ==> (0 <= i < items.len() ==> nests_within(
            items[i],
            (depth - 1) as nat,
        )),
        json matches JsonView::Object(members) ==> (members.contains_key(key) ==> nests_within(
            members[key],
            (depth - 1) as nat,
        )),
{
}

/// What nests within a depth nests within the next one.
proof fn lemma_nests_deeper(json: JsonView, depth: nat)
    requires
        nests_within(json, depth),
    ensures
        nests_within(json, depth + 1),
    decreases depth,
{
    match json {
        JsonView::Array(items) => {
            assert forall|i: int| 0 <= i < items.len() implies nests_within(
                #[trigger] items[i],
                depth,
            ) by {
                assert(nests_within(items[i], (depth - 1) as nat));
                lemma_nests_deeper(items[i], (depth - 1) as nat);
            }
        },
        JsonView::Object(members) => {
            assert forall|key: Seq<char>| #[trigger] members.contains_key(key) implies nests_within(
                members[key],
                depth,
            ) by {
                assert(nests_within(members[key], (depth - 1) as nat));
                lemma_nests_deeper(members[key], (depth - 1) as nat);
            }
        },
        _ => {},
    }
}

} // verus!
