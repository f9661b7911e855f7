//! Reading notebooks from files, and writing them.

use vstd::prelude::*;

use crate::ids::{is_uuid_text, valid_cell_id, IdSource};
use crate::json::{
    accepts_cell_ids, additional_member, alike, alike_members, alike_options, assign_cell_ids,
    cells_take_ids, document_cells, has_id, is_text_of_json, json_contents, json_from_value,
    json_into_value, json_of_text, lacking, missing, missing_ids, nests_within, parse_json,
    text_of_json, with_cell_ids, with_id, write_json, JsonView,
};
use crate::notebook::{
    cell_ids, cell_views, empty_notebook, metadata_clashes, metadata_json, mode_json,
    output_clashes, output_json, CellContent, CellContentView, KernelspecMetadata,
    KernelspecMetadataView, NotebookAuthor, NotebookCell, NotebookCellView, NotebookLanguage,
    NotebookLanguageView, NotebookMetadata, NotebookMetadataView, StoredNotebook,
    StoredNotebookView,
};
use crate::text::{blank, is_blank, texts};

verus! {

/// A cell of the crate `nbformat`.
#[verifier::external_type_specification]
#[verifier::external_body]
pub struct ExCell(nbformat::v4::Cell);

/// The metadata of a notebook of the crate `nbformat`.
#[verifier::external_type_specification]
#[verifier::external_body]
pub struct ExMetadata(nbformat::v4::Metadata);

/// A notebook of one of the minor versions before the current one.
#[verifier::external_type_specification]
#[verifier::external_body]
pub struct ExLegacyNotebook(nbformat::legacy::Notebook);

/// What `nbformat` reports of a file that holds no notebook.
#[verifier::external_type_specification]
#[verifier::external_body]
pub struct ExNotebookError(nbformat::NotebookError);

/// What `nbformat` reports of a notebook that it cannot upgrade.
#[verifier::external_type_specification]
#[verifier::external_body]
pub struct ExUpgradeError(anyhow::Error);

/// What a cell of `nbformat` holds.
pub uninterp spec fn cell_contents(cell: nbformat::v4::Cell) -> NotebookCellView;

/// What the metadata of `nbformat` hold.
pub uninterp spec fn metadata_contents(metadata: nbformat::v4::Metadata) -> NotebookMetadataView;

/// A cell of a notebook of an earlier minor version, which may have no identifier.
#[verifier::ext_equal]
pub struct LegacyCellView {
    pub id: Option<Seq<char>>,
    pub metadata: nbformat::v4::CellMetadata,
    pub source: Seq<Seq<char>>,
    pub content: CellContentView,
}

/// What a notebook of an earlier minor version holds.
#[verifier::ext_equal]
pub struct LegacyView {
    pub cells: Seq<LegacyCellView>,
    pub metadata: NotebookMetadataView,
}

/// What a notebook of an earlier minor version holds.
pub uninterp spec fn legacy_contents(notebook: nbformat::legacy::Notebook) -> LegacyView;

/// A notebook of the current minor version, in the parts that `nbformat` has of it.
pub struct CurrentNotebook {
    pub metadata: nbformat::v4::Metadata,
    pub cells: Vec<nbformat::v4::Cell>,
}

impl View for CurrentNotebook {
    type V = StoredNotebookView;

    open spec fn view(&self) -> StoredNotebookView {
        StoredNotebookView {
            metadata: metadata_contents(self.metadata),
            nbformat: 4,
            nbformat_minor: 5,
            cells: self.cells@.map_values(|cell: nbformat::v4::Cell| cell_contents(cell)),
        }
    }
}

/// What a notebook file holds.
pub enum ParsedNotebook {
    Current(CurrentNotebook),
    Legacy(nbformat::legacy::Notebook),
}

/// What a [`ParsedNotebook`] stands for.
#[verifier::ext_equal]
pub enum ParsedView {
    Current(StoredNotebookView),
    Legacy(LegacyView),
}

impl View for ParsedNotebook {
    type V = ParsedView;

    open spec fn view(&self) -> ParsedView {
        match self {
            ParsedNotebook::Current(notebook) => ParsedView::Current(notebook@),
            ParsedNotebook::Legacy(notebook) => ParsedView::Legacy(legacy_contents(*notebook)),
        }
    }
}

/// The result is one that `nbformat::parse_notebook` may come to on the text: a notebook that it
/// reads, or what it reports. The parts of an output come out of a hash map and may stand in any
/// order, so there can be several notebooks.
pub uninterp spec fn is_parse_result(
    text: Seq<char>,
    result: Result<ParsedView, nbformat::NotebookError>,
) -> bool;

/// The notebook is one that may be read from the text.
pub open spec fn is_notebook_of_text(text: Seq<char>, parsed: ParsedView) -> bool {
    is_parse_result(text, Ok(parsed))
}

/// What `nbformat::upgrade_legacy_notebook` may report of a notebook of an earlier minor version.
pub uninterp spec fn is_upgrade_error(legacy: LegacyView, error: anyhow::Error) -> bool;

/// The text is one that `serde_json::to_string_pretty` may write for the notebook. The members
/// that come from hash maps may stand in any order, so there can be several.
pub uninterp spec fn is_text_of_notebook(notebook: StoredNotebookView, text: Seq<char>) -> bool;

/// The value is one that `serde_json::from_str` may read from a text that was written for the
/// notebook.
pub uninterp spec fn is_json_of_notebook(notebook: StoredNotebookView, json: JsonView) -> bool;

/// The document lists as many cells as the notebook has, each with an identifier.
pub open spec fn lists_cells(notebook: StoredNotebookView, json: JsonView) -> bool {
    &&& document_cells(json) is Some
    &&& document_cells(json)->0.len() == notebook.cells.len()
    &&& forall|i: int|
        0 <= i < notebook.cells.len() ==> has_id(#[trigger] document_cells(json)->0[i])
}

/// How deep a value may be nested that has the given number of arrays and objects around it:
/// `serde_json` reads texts of 127 levels.
pub open spec fn depth_left(around: nat) -> nat {
    (127 - around) as nat
}

/// No additional member has the name of a field, and what they hold is nested at most `depth`
/// times.
pub open spec fn regular_members(
    additional: Map<String, serde_json::Value>,
    fields: Set<Seq<char>>,
    depth: nat,
) -> bool {
    forall|key: Seq<char>|
        #[trigger] additional_member(additional, key) is Some ==> !fields.contains(key)
            && nests_within(additional_member(additional, key)->0, depth)
}

/// Kernel metadata that can be told from their JSON form.
pub open spec fn regular_kernelspec(spec: KernelspecMetadataView) -> bool {
    regular_members(spec.additional, set!["display_name"@, "name"@, "language"@], depth_left(3))
}

/// A language that can be told from its JSON form.
pub open spec fn regular_language(language: NotebookLanguageView) -> bool {
    &&& regular_members(
        language.additional,
        set!["name"@, "version"@, "codemirror_mode"@],
        depth_left(3),
    )
    &&& language.codemirror_mode matches Some(mode) ==> nests_within(
        mode_json(mode),
        depth_left(3),
    )
}

/// Metadata of a notebook that can be told from their JSON form, and whose JSON form is nested no
/// deeper in a notebook than `serde_json` reads.
pub open spec fn regular_metadata(metadata: NotebookMetadataView) -> bool {
    &&& regular_members(
        metadata.additional,
        set!["kernelspec"@, "language_info"@, "authors"@],
        depth_left(2),
    )
    &&& metadata.kernelspec matches Some(spec) ==> regular_kernelspec(spec)
    &&& metadata.language_info matches Some(language) ==> regular_language(language)
    &&& metadata.authors matches Some(authors) ==> forall|i: int|
        0 <= i < authors.len() ==> regular_members(
            (#[trigger] authors[i]).additional,
            set!["name"@],
            depth_left(4),
        )
}

/// The outputs of a cell.
pub open spec fn content_outputs(content: CellContentView) -> Seq<nbformat::v4::Output> {
    match content {
        CellContentView::Code { outputs, .. } => outputs,
        _ => Seq::empty(),
    }
}

/// Whether the output is one of those of the cells with the given contents.
pub open spec fn has_output(contents: Seq<CellContentView>, output: nbformat::v4::Output) -> bool {
    exists|i: int|
        0 <= i < contents.len() && content_outputs(#[trigger] contents[i]).contains(output)
}

/// An output that can be told from its JSON form, and whose JSON form is nested no deeper in a
/// notebook than `serde_json` reads.
pub open spec fn regular_output(output: nbformat::v4::Output) -> bool {
    !output_clashes(output) && nests_within(output_json(output), depth_left(4))
}

/// A cell that, apart from its outputs, can be told from its JSON form, and whose JSON form is
/// nested no deeper in a notebook than `serde_json` reads.
pub open spec fn regular_cell(
    metadata: nbformat::v4::CellMetadata,
    content: CellContentView,
) -> bool {
    &&& !metadata_clashes(metadata)
    &&& nests_within(metadata_json(metadata), depth_left(3))
    &&& content matches CellContentView::Markdown { attachments: Some(value) } ==> nests_within(
        json_contents(value),
        depth_left(3),
    )
}

/// What the cells of a notebook hold beside their texts.
pub open spec fn contents_of(cells: Seq<NotebookCellView>) -> Seq<CellContentView> {
    cells.map_values(|cell: NotebookCellView| cell.content)
}

/// A notebook of the current minor version that can be read again once it has been written: no two
/// cells share an identifier, no additional member has the name of a field, and nothing is nested
/// deeper than `serde_json` reads.
pub open spec fn regular(notebook: StoredNotebookView) -> bool {
    &&& notebook.nbformat == 4
    &&& notebook.nbformat_minor == 5
    &&& cell_ids(notebook.cells).no_duplicates()
    &&& regular_metadata(notebook.metadata)
    &&& forall|i: int|
        0 <= i < notebook.cells.len() ==> regular_cell(
            (#[trigger] notebook.cells[i]).metadata,
            notebook.cells[i].content,
        )
    &&& forall|output: nbformat::v4::Output| #[trigger]
        has_output(contents_of(notebook.cells), output) ==> regular_output(output)
}

impl ParsedView {
    /// What the cells hold beside their texts.
    pub open spec fn contents(self) -> Seq<CellContentView> {
        match self {
            ParsedView::Current(notebook) => contents_of(notebook.cells),
            ParsedView::Legacy(legacy) => legacy.cells.map_values(
                |cell: LegacyCellView| cell.content,
            ),
        }
    }

    /// What was read, apart from outputs, can be read again once it has been written.
    pub open spec fn regular_frame(self) -> bool {
        match self {
            ParsedView::Current(notebook) => {
                &&& cell_ids(notebook.cells).no_duplicates()
                &&& regular_metadata(notebook.metadata)
                &&& forall|i: int|
                    0 <= i < notebook.cells.len() ==> regular_cell(
                        (#[trigger] notebook.cells[i]).metadata,
                        notebook.cells[i].content,
                    )
            },
            ParsedView::Legacy(legacy) => {
                &&& regular_metadata(legacy.metadata)
                &&& forall|i: int|
                    0 <= i < legacy.cells.len() ==> regular_cell(
                        (#[trigger] legacy.cells[i]).metadata,
                        legacy.cells[i].content,
                    )
            },
        }
    }

    /// What was read can be read again once it has been written.
    pub open spec fn regular(self) -> bool {
        &&& self.regular_frame()
        &&& forall|output: nbformat::v4::Output| #[trigger]
            has_output(self.contents(), output) ==> regular_output(output)
    }
}

/// Two cells have the same identifier and text, and are of one kind. Code cells were run as often.
pub open spec fn same_cell(a: NotebookCellView, b: NotebookCellView) -> bool {
    &&& a.id == b.id
    &&& a.source == b.source
    &&& match (a.content, b.content) {
        (
            CellContentView::Code { execution_count: m, .. },
            CellContentView::Code { execution_count: n, .. },
        ) => m == n,
        (CellContentView::Markdown { .. }, CellContentView::Markdown { .. }) => true,
        (CellContentView::Raw, CellContentView::Raw) => true,
        _ => false,
    }
}

/// Two lists of cells are the same cell by cell.
pub open spec fn same_cells(a: Seq<NotebookCellView>, b: Seq<NotebookCellView>) -> bool {
    &&& a.len() == b.len()
    &&& forall|i: int| 0 <= i < a.len() ==> same_cell(#[trigger] a[i], b[i])
}

/// Two notebooks name the same kernel, and say the same about it but for numbers that are no
/// integers.
pub open spec fn alike_kernelspec(a: KernelspecMetadataView, b: KernelspecMetadataView) -> bool {
    &&& a.display_name == b.display_name
    &&& a.name == b.name
    &&& a.language == b.language
    &&& alike_members(a.additional, b.additional)
}

/// The JSON form of a value that is left out of a notebook where there is none, or where it is
/// null.
pub open spec fn unless_null(json: Option<JsonView>) -> Option<JsonView> {
    if json == Some(JsonView::Null) {
        None
    } else {
        json
    }
}

/// The JSON form of the mode of the web editor, where there is one.
pub open spec fn opt_mode_json(mode: Option<nbformat::v4::CodemirrorMode>) -> Option<JsonView> {
    match mode {
        Some(mode) => Some(mode_json(mode)),
        None => None,
    }
}

/// What an optional value of `serde_json` holds.
pub open spec fn opt_contents(value: Option<serde_json::Value>) -> Option<JsonView> {
    match value {
        Some(value) => Some(json_contents(value)),
        None => None,
    }
}

/// Two notebooks are in the same language, and say the same about it but for numbers that are no
/// integers.
pub open spec fn alike_language(a: NotebookLanguageView, b: NotebookLanguageView) -> bool {
    &&& a.name == b.name
    &&& a.version == b.version
    &&& alike_options(
        unless_null(opt_mode_json(a.codemirror_mode)),
        unless_null(opt_mode_json(b.codemirror_mode)),
    )
    &&& alike_members(a.additional, b.additional)
}

/// Two notebooks say the same about themselves but for numbers that are no integers.
pub open spec fn alike_metadata(a: NotebookMetadataView, b: NotebookMetadataView) -> bool {
    &&& match (a.kernelspec, b.kernelspec) {
        (Some(spec), Some(other)) => alike_kernelspec(spec, other),
        (None, None) => true,
        _ => false,
    }
    &&& match (a.language_info, b.language_info) {
        (Some(language), Some(other)) => alike_language(language, other),
        (None, None) => true,
        _ => false,
    }
    &&& match (a.authors, b.authors) {
        (Some(authors), Some(others)) => {
            &&& authors.len() == others.len()
            &&& forall|i: int|
                0 <= i < authors.len() ==> (#[trigger] authors[i]).name == others[i].name
                    && alike_members(authors[i].additional, others[i].additional)
        },
        (None, None) => true,
        _ => false,
    }
    &&& alike_members(a.additional, b.additional)
}

/// Two cells carry the same metadata, outputs and attachments but for numbers that are no integers.
pub open spec fn alike_cell(a: NotebookCellView, b: NotebookCellView) -> bool {
    &&& alike(metadata_json(a.metadata), metadata_json(b.metadata))
    &&& match (a.content, b.content) {
        (
            CellContentView::Code { outputs, .. },
            CellContentView::Code { outputs: others, .. },
        ) => {
            &&& outputs.len() == others.len()
            &&& forall|i: int|
                0 <= i < outputs.len() ==> alike(
                    output_json(#[trigger] outputs[i]),
                    output_json(others[i]),
                )
        },
        (
            CellContentView::Markdown { attachments },
            CellContentView::Markdown { attachments: others },
        ) => alike_options(
            unless_null(opt_contents(attachments)),
            unless_null(opt_contents(others)),
        ),
        _ => true,
    }
}

/// `back` is what came back of a notebook that was written: it has the same cells, and if the
/// notebook is regular, also what else the notebook says and what its cells carry.
pub open spec fn restored(notebook: StoredNotebookView, back: StoredNotebookView) -> bool {
    &&& same_cells(notebook.cells, back.cells)
    &&& regular(notebook) ==> {
        &&& alike_metadata(notebook.metadata, back.metadata)
        &&& forall|i: int|
            0 <= i < notebook.cells.len() ==> alike_cell(
                #[trigger] notebook.cells[i],
                back.cells[i],
            )
    }
}

/// `parsed` is what came back of a notebook that was written.
pub open spec fn restores(notebook: StoredNotebookView, parsed: ParsedView) -> bool {
    parsed is Current && restored(notebook, parsed->Current_0)
}

/// Calls `nbformat::parse_notebook`. Whether it reads something is taken to depend on the text
/// alone. The crate refuses a notebook of the current minor version in which two cells share an
/// identifier. It files every member that a type has a field for in that field, and what it reads
/// has come out of a text that `serde_json` could read; so what it reads is regular. What it reads
/// from the text of a notebook of the current minor version, or from another text of the same JSON,
/// is that notebook; and it does read such a text where the notebook is regular. Whether it reads
/// one of another notebook is not stated.
#[verifier::external_body]
pub(crate) fn parse_notebook(text: &str) -> (result: Result<
    ParsedNotebook,
    nbformat::NotebookError,
>)
    ensures
        result is Ok ==> is_parse_result(text@, Ok(result->Ok_0@)),
        result is Err ==> is_parse_result(text@, Err(result->Err_0)),
        result is Err ==> forall|parsed: ParsedView| !is_notebook_of_text(text@, parsed),
        result is Ok ==> result->Ok_0@.regular_frame(),
        result is Ok ==> forall|output: nbformat::v4::Output| #[trigger]
            has_output(result->Ok_0@.contents(), output) ==> !output_clashes(output)
                && nests_within(output_json(output), depth_left(4)),
        result is Err ==> forall|notebook: StoredNotebookView| #[trigger]
            is_text_of_notebook(notebook, text@) ==> !regular(notebook),
        result is Err ==> forall|notebook: StoredNotebookView, json: JsonView| #[trigger]
            is_json_of_notebook(notebook, json) && is_text_of_json(json, text@) ==> !regular(
                notebook,
            ),
        result is Ok ==> forall|notebook: StoredNotebookView| #[trigger]
            is_text_of_notebook(notebook, text@) && notebook.nbformat == 4
                && notebook.nbformat_minor == 5 ==> restores(notebook, result->Ok_0@),
        result is Ok ==> forall|notebook: StoredNotebookView, json: JsonView| #[trigger]
            is_json_of_notebook(notebook, json) && is_text_of_json(json, text@)
                && notebook.nbformat == 4 && notebook.nbformat_minor == 5 ==> restores(
                notebook,
                result->Ok_0@,
            ),
{
    Ok(match nbformat::parse_notebook(text)? {
        nbformat::Notebook::V4(notebook) => ParsedNotebook::Current(
            CurrentNotebook { metadata: notebook.metadata, cells: notebook.cells },
        ),
        nbformat::Notebook::Legacy(notebook) => ParsedNotebook::Legacy(notebook),
    })
}

/// `cells` are the cells of `legacy`, each with the identifier it had or, where it had none, with
/// one of the form of a random UUID.
pub open spec fn upgraded_cells(
    legacy: Seq<LegacyCellView>,
    cells: Seq<NotebookCellView>,
) -> bool {
    &&& cells.len() == legacy.len()
    &&& forall|i: int|
        0 <= i < cells.len() ==> {
            &&& (#[trigger] cells[i]).metadata == legacy[i].metadata
            &&& cells[i].source == legacy[i].source
            &&& cells[i].content == legacy[i].content
            &&& match legacy[i].id {
                Some(id) => cells[i].id == id,
                None => is_uuid_text(cells[i].id),
            }
        }
}

/// Two cells of `legacy` share the identifier that the file gives them.
pub open spec fn shares_ids(legacy: Seq<LegacyCellView>) -> bool {
    exists|i: int, j: int|
        0 <= i < j < legacy.len() && (#[trigger] legacy[i]).id is Some && (#[trigger] legacy[j]).id
            == legacy[i].id
}

/// Some cell of `legacy` has no identifier.
pub open spec fn lacks_ids(legacy: Seq<LegacyCellView>) -> bool {
    exists|i: int| 0 <= i < legacy.len() && (#[trigger] legacy[i]).id is None
}

/// `notebook` is what an upgrade may make of `legacy`.
pub open spec fn upgraded(legacy: LegacyView, notebook: StoredNotebookView) -> bool {
    &&& !shares_ids(legacy.cells)
    &&& upgraded_cells(legacy.cells, notebook.cells)
    &&& cell_ids(notebook.cells).no_duplicates()
    &&& notebook.metadata == legacy.metadata
    &&& notebook.nbformat == 4
    &&& notebook.nbformat_minor == 5
}

/// Calls `nbformat::upgrade_legacy_notebook`. It gives each cell without an identifier a random
/// one and leaves the rest as it is, and it refuses a notebook in which two cells then share an
/// identifier. Where cells get a random identifier, chance decides.
#[verifier::external_body]
pub(crate) fn upgrade_notebook(legacy: nbformat::legacy::Notebook) -> (result: Result<
    CurrentNotebook,
    anyhow::Error,
>)
    ensures
        result is Ok ==> upgraded(legacy_contents(legacy), result->Ok_0@),
        result is Err ==> is_upgrade_error(legacy_contents(legacy), result->Err_0),
        result is Err ==> shares_ids(legacy_contents(legacy).cells) || lacks_ids(
            legacy_contents(legacy).cells,
        ),
{
    let notebook = nbformat::upgrade_legacy_notebook(legacy)?;
    Ok(CurrentNotebook { metadata: notebook.metadata, cells: notebook.cells })
}

/// Takes an `nbformat::v4::Cell` apart, variant by variant. `nbformat` makes no identifier that it
/// would not accept.
#[verifier::external_body]
pub(crate) fn cell_from_nbformat(cell: nbformat::v4::Cell) -> (result: NotebookCell)
    ensures
        result@ == cell_contents(cell),
        valid_cell_id(result.id@),
{
    let (id, metadata, source, content) = match cell {
        nbformat::v4::Cell::Code { id, metadata, execution_count, source, outputs } => {
            (id, metadata, source, CellContent::Code { execution_count, outputs })
        },
        nbformat::v4::Cell::Markdown { id, metadata, source, attachments } => {
            (id, metadata, source, CellContent::Markdown { attachments })
        },
        nbformat::v4::Cell::Raw { id, metadata, source } => (id, metadata, source, CellContent::Raw),
    };
    NotebookCell { id: id.to_string(), metadata, source, content }
}

/// Puts an `nbformat::v4::Cell` together, variant by variant. `nbformat::v4::CellId::new` accepts
/// every identifier of the form asked for.
#[verifier::external_body]
pub(crate) fn cell_into_nbformat(cell: NotebookCell) -> (result: nbformat::v4::Cell)
    requires
        valid_cell_id(cell.id@),
    ensures
        cell_contents(result) == cell@,
{
    let id = nbformat::v4::CellId::new(&cell.id).unwrap();
    let NotebookCell { metadata, source, content, .. } = cell;
    match content {
        CellContent::Code { execution_count, outputs } => {
            nbformat::v4::Cell::Code { id, metadata, execution_count, source, outputs }
        },
        CellContent::Markdown { attachments } => {
            nbformat::v4::Cell::Markdown { id, metadata, source, attachments }
        },
        CellContent::Raw => nbformat::v4::Cell::Raw { id, metadata, source },
    }
}

/// Takes an `nbformat::v4::Metadata` apart, field by field.
#[verifier::external_body]
pub(crate) fn metadata_from_nbformat(metadata: nbformat::v4::Metadata) -> (result: NotebookMetadata)
    ensures
        result@ == metadata_contents(metadata),
{
    NotebookMetadata {
        kernelspec: metadata.kernelspec.map(|spec| KernelspecMetadata {
            display_name: spec.display_name, name: spec.name, language: spec.language,
            additional: spec.additional,
        }),
        language_info: metadata.language_info.map(|info| NotebookLanguage {
            name: info.name, version: info.version, codemirror_mode: info.codemirror_mode,
            additional: info.additional,
        }),
        authors: metadata.authors.map(|authors| authors.into_iter().map(|author| NotebookAuthor {
            name: author.name, additional: author.additional,
        }).collect()),
        additional: metadata.additional,
    }
}

/// Puts an `nbformat::v4::Metadata` together, field by field.
#[verifier::external_body]
pub(crate) fn metadata_into_nbformat(metadata: NotebookMetadata) -> (result: nbformat::v4::Metadata)
    ensures
        metadata_contents(result) == metadata@,
{
    nbformat::v4::Metadata {
        kernelspec: metadata.kernelspec.map(|spec| nbformat::v4::KernelSpec {
            display_name: spec.display_name, name: spec.name, language: spec.language,
            additional: spec.additional,
        }),
        language_info: metadata.language_info.map(|info| nbformat::v4::LanguageInfo {
            name: info.name, version: info.version, codemirror_mode: info.codemirror_mode,
            additional: info.additional,
        }),
        authors: metadata.authors.map(|list| list.into_iter().map(|author| nbformat::v4::Author {
            name: author.name, additional: author.additional,
        }).collect()),
        additional: metadata.additional,
    }
}

/// The notebook with other version numbers.
pub open spec fn numbered(
    notebook: StoredNotebookView,
    nbformat: i32,
    nbformat_minor: i32,
) -> StoredNotebookView {
    StoredNotebookView { nbformat, nbformat_minor, ..notebook }
}

/// Calls `serde_json::to_string_pretty` on an `nbformat::v4::Notebook` of the given parts. None of
/// the types in it has a way of being written that fails, and every map in it has texts for keys;
/// so there is a text. That it is an object in braces is what serialising a struct comes to. Which
/// of several texts it is, is not stated.
#[verifier::external_body]
pub(crate) fn write_notebook(
    notebook: CurrentNotebook,
    nbformat: i32,
    nbformat_minor: i32,
) -> (result: Result<String, serde_json::Error>)
    ensures
        result is Ok,
        is_text_of_notebook(numbered(notebook@, nbformat, nbformat_minor), result->Ok_0@),
        result->Ok_0@.len() >= 2,
        result->Ok_0@.first() == '{',
        result->Ok_0@.last() == '}',
{
    let CurrentNotebook { metadata, cells } = notebook;
    serde_json::to_string_pretty(
        &nbformat::v4::Notebook { metadata, nbformat, nbformat_minor, cells },
    )
}

/// Why a file cannot be opened as a notebook.
pub enum OpenError {
    /// The file is no notebook, and no JSON either.
    InvalidJson(serde_json::Error),
    /// A cell of the file is neither an object nor null, so that it cannot have an identifier.
    CellWithoutMembers,
    /// The file could not be written out again with identifiers filled in.
    UnwritableJson(serde_json::Error),
    /// The file is no notebook, with identifiers filled in either.
    InvalidNotebook(nbformat::NotebookError),
    /// The notebook is of an earlier minor version and cannot be upgraded.
    CannotUpgrade(anyhow::Error),
}

/// What the result of opening a file stands for.
pub open spec fn outcome(result: Result<StoredNotebook, OpenError>) -> Result<
    StoredNotebookView,
    OpenError,
> {
    match result {
        Ok(notebook) => Ok(notebook@),
        Err(error) => Err(error),
    }
}

/// What opening may come to once the file has been parsed: a notebook of the current minor version
/// is taken as it is, an earlier one is upgraded.
pub open spec fn completed(
    parsed: ParsedView,
    result: Result<StoredNotebookView, OpenError>,
) -> bool {
    match parsed {
        ParsedView::Current(notebook) => result == Ok::<StoredNotebookView, OpenError>(notebook),
        ParsedView::Legacy(legacy) => match result {
            Ok(notebook) => upgraded(legacy, notebook),
            Err(OpenError::CannotUpgrade(error)) => is_upgrade_error(legacy, error) && (shares_ids(
                legacy.cells,
            ) || lacks_ids(legacy.cells)),
            Err(_) => false,
        },
    }
}

/// Whether the text is a notebook.
pub open spec fn is_notebook(text: Seq<char>) -> bool {
    exists|parsed: ParsedView| is_notebook_of_text(text, parsed)
}

/// What opening may come to once identifiers have been filled in, with `document` as the text that
/// results.
pub open spec fn reparsed(
    document: Result<Seq<char>, serde_json::Error>,
    result: Result<StoredNotebookView, OpenError>,
) -> bool {
    match document {
        Ok(text) => {
            ||| exists|parsed: ParsedView| #[trigger]
                is_notebook_of_text(text, parsed) && completed(parsed, result)
            ||| !is_notebook(text) && is_refused_with(text, result)
        },
        Err(error) => result == Err::<StoredNotebookView, OpenError>(
            OpenError::UnwritableJson(error),
        ),
    }
}

/// The result hands on what `nbformat::parse_notebook` reports of the text.
pub open spec fn is_refused_with(
    text: Seq<char>,
    result: Result<StoredNotebookView, OpenError>,
) -> bool {
    match result {
        Err(OpenError::InvalidNotebook(error)) => is_parse_result(text, Err(error)),
        _ => false,
    }
}

/// `ids` has a fresh identifier for each cell of the document that has none.
pub open spec fn fits_cells(json: JsonView, ids: Seq<Seq<char>>) -> bool {
    &&& ids.len() == missing(json)
    &&& forall|i: int| 0 <= i < ids.len() ==> is_uuid_text(#[trigger] ids[i])
}

/// What opening a document may come to when each cell without an identifier is given a fresh one
/// before the document is parsed. `ids` are those that are drawn.
pub open spec fn repaired(
    text: Seq<char>,
    ids: Seq<Seq<char>>,
    result: Result<StoredNotebookView, OpenError>,
) -> bool {
    match json_of_text(text) {
        Err(error) => ids.len() == 0 && result == Err::<StoredNotebookView, OpenError>(
            OpenError::InvalidJson(error),
        ),
        Ok(json) => if cells_take_ids(json) {
            &&& fits_cells(json, ids)
            &&& reparsed(text_of_json(with_cell_ids(json, ids)), result)
        } else {
            ids.len() == 0 && result == Err::<StoredNotebookView, OpenError>(
                OpenError::CellWithoutMembers,
            )
        },
    }
}

/// What opening a file may come to. A file of white space is a notebook without cells; identifiers
/// are drawn and filled in only where the file does not parse without.
pub open spec fn opened(
    text: Seq<char>,
    ids: Seq<Seq<char>>,
    result: Result<StoredNotebookView, OpenError>,
) -> bool {
    if blank(text) {
        ids.len() == 0 && result == Ok::<StoredNotebookView, OpenError>(empty_notebook())
    } else {
        ||| ids.len() == 0 && exists|parsed: ParsedView| #[trigger]
            is_notebook_of_text(text, parsed) && completed(parsed, result)
        ||| !is_notebook(text) && repaired(text, ids, result)
    }
}

/// A notebook of the parts that `nbformat` has of it.
fn notebook_of_parts(parts: CurrentNotebook) -> (notebook: StoredNotebook)
    ensures
        notebook@ == parts@,
        notebook.wf(),
{
    let mut cells: Vec<NotebookCell> = Vec::new();
    let ghost all = parts.cells@;
    for cell in it: parts.cells
        invariant
            it.seq() == all,
            cells@.len() == it.index(),
            forall|i: int|
                0 <= i < cells@.len() ==> (#[trigger] cells@[i])@ == cell_contents(all[i])
                    && valid_cell_id(cells@[i].id@),
    {
        cells.push(cell_from_nbformat(cell));
    }
    let notebook = StoredNotebook {
        metadata: metadata_from_nbformat(parts.metadata),
        nbformat: 4,
        nbformat_minor: 5,
        cells,
    };
    assert(notebook@.cells =~= parts@.cells);
    assert forall|i: int| 0 <= i < notebook@.cells.len() implies valid_cell_id(
        (#[trigger] notebook@.cells[i]).id,
    ) by {
        assert(valid_cell_id(cells@[i].id@));
    }
    notebook
}

/// The notebook without cells can be read again once it has been written.
proof fn lemma_empty_is_regular()
    ensures
        regular(empty_notebook()),
{
}

/// An upgrade keeps what can be read again once it has been written.
proof fn lemma_upgraded_is_regular(legacy: LegacyView, notebook: StoredNotebookView)
    requires
        ParsedView::Legacy(legacy).regular(),
        upgraded(legacy, notebook),
    ensures
        regular(notebook),
{
    assert forall|i: int| 0 <= i < notebook.cells.len() implies regular_cell(
        (#[trigger] notebook.cells[i]).metadata,
        notebook.cells[i].content,
    ) by {
        assert(regular_cell(legacy.cells[i].metadata, legacy.cells[i].content));
    }
    assert(contents_of(notebook.cells) =~= ParsedView::Legacy(legacy).contents());
}

/// Takes a notebook of the current minor version as it is, and upgrades an earlier one.
pub fn complete_notebook(parsed: ParsedNotebook) -> (result: Result<StoredNotebook, OpenError>)
    ensures
        completed(parsed@, outcome(result)),
        result matches Ok(notebook) ==> notebook.wf(),
        result is Ok && parsed@.regular() ==> regular(result->Ok_0@),
{
    match parsed {
        ParsedNotebook::Current(parts) => {
            let notebook = notebook_of_parts(parts);
            assert(parsed@.contents() == contents_of(notebook@.cells));
            Ok(notebook)
        },
        ParsedNotebook::Legacy(legacy) => match upgrade_notebook(legacy) {
            Ok(parts) => {
                proof {
                    if parsed@.regular() {
                        lemma_upgraded_is_regular(legacy_contents(legacy), parts@);
                    }
                }
                Ok(notebook_of_parts(parts))
            },
            Err(error) => Err(OpenError::CannotUpgrade(error)),
        },
    }
}

/// A document in which each cell has an identifier is left as it is.
proof fn lemma_ids_are_there(json: JsonView, ids: Seq<Seq<char>>)
    requires
        document_cells(json) is Some,
        forall|i: int|
            0 <= i < document_cells(json)->0.len() ==> has_id(
                #[trigger] document_cells(json)->0[i],
            ),
    ensures
        with_cell_ids(json, ids) == json,
{
    let cells = document_cells(json)->0;
    let filled = Seq::new(
        cells.len(),
        |i: int| with_id(cells[i], ids[lacking(cells.take(i)) as int]),
    );
    assert forall|i: int| 0 <= i < cells.len() implies #[trigger] filled[i] == cells[i] by {
        assert(has_id(document_cells(json)->0[i]));
    }
    assert(filled =~= cells);
    assert(with_cell_ids(json, ids)->Object_0 =~= json->Object_0);
}

/// Reads a notebook from a document in which cells may lack identifiers: each of them is given a
/// fresh one first. What is read can be written and read again. From a file that a notebook was
/// written to that notebook is read, if it is regular.
pub fn repair_notebook(text: &str, source: &mut IdSource) -> (result: Result<
    StoredNotebook,
    OpenError,
>)
    ensures
        exists|ids: Seq<Seq<char>>| #[trigger]
            repaired(text@, ids, outcome(result)) && final(source).log() == old(source).log() + ids,
        blank(text@) ==> result matches Err(OpenError::InvalidJson(_)),
        result matches Ok(notebook) ==> notebook.wf() && regular(notebook@),
        forall|written: StoredNotebookView| #[trigger]
            is_text_of_notebook(written, text@) && written.nbformat == 4 && written.nbformat_minor
                == 5 ==> {
                &&& regular(written) ==> result is Ok
                &&& result is Ok ==> restored(written, result->Ok_0@)
            },
{
    let json = match parse_json(text) {
        Ok(value) => json_from_value(value),
        Err(error) => {
            proof {
                let none = Seq::<Seq<char>>::empty();
                assert(source.log() =~= source.log() + none);
                assert(repaired(text@, none, Err(OpenError::InvalidJson(error))));
            }
            return Err(OpenError::InvalidJson(error));
        },
    };
    if !accepts_cell_ids(&json) {
        proof {
            let none = Seq::<Seq<char>>::empty();
            assert(source.log() =~= source.log() + none);
            assert(repaired(text@, none, Err(OpenError::CellWithoutMembers)));
        }
        return Err(OpenError::CellWithoutMembers);
    }
    let ids = source.draw_all(missing_ids(&json));
    let ghost before = json@;
    assert(fits_cells(before, texts(ids@)));
    let json = assign_cell_ids(json, &ids);
    proof {
        if exists|written: StoredNotebookView| lists_cells(written, before) {
            lemma_ids_are_there(before, texts(ids@));
        }
    }
    let value = json_into_value(json);
    let result = match write_json(&value) {
        Ok(document) => match parse_notebook(document.as_str()) {
            Ok(parsed) => {
                assert(is_notebook_of_text(document@, parsed@));
                complete_notebook(parsed)
            },
            Err(error) => Err(OpenError::InvalidNotebook(error)),
        },
        Err(error) => Err(OpenError::UnwritableJson(error)),
    };
    assert(repaired(text@, texts(ids@), outcome(result)));
    result
}

/// Reads a notebook from the content of a file. What is read can be written and read again. From a
/// file that a notebook was written to that notebook is read, if it is regular.
pub fn read_notebook(text: &str, source: &mut IdSource) -> (result: Result<
    StoredNotebook,
    OpenError,
>)
    ensures
        exists|ids: Seq<Seq<char>>| #[trigger]
            opened(text@, ids, outcome(result)) && final(source).log() == old(source).log() + ids,
        result matches Ok(notebook) ==> notebook.wf() && regular(notebook@),
        forall|written: StoredNotebookView| #[trigger]
            is_text_of_notebook(written, text@) && written.nbformat == 4 && written.nbformat_minor
                == 5 && !blank(text@) ==> {
                &&& regular(written) || is_notebook(text@) ==> result is Ok
                &&& result is Ok ==> restored(written, result->Ok_0@)
            },
{
    if is_blank(text) {
        let notebook = StoredNotebook::empty();
        proof {
            let none = Seq::<Seq<char>>::empty();
            lemma_empty_is_regular();
            assert(source.log() =~= source.log() + none);
            assert(opened(text@, none, Ok(notebook@)));
        }
        return Ok(notebook);
    }
    let ghost before = source.log();
    match parse_notebook(text) {
        Ok(parsed) => {
            assert(is_notebook_of_text(text@, parsed@));
            let result = complete_notebook(parsed);
            proof {
                let none = Seq::<Seq<char>>::empty();
                assert(before =~= before + none);
                assert(opened(text@, none, outcome(result)));
            }
            result
        },
        Err(_) => {
            let result = repair_notebook(text, source);
            proof {
                let ids = choose|ids: Seq<Seq<char>>| #[trigger]
                    repaired(text@, ids, outcome(result)) && source.log() == before + ids;
                assert(opened(text@, ids, outcome(result)));
            }
            result
        },
    }
}

/// Writes a notebook as the content of a file.
pub fn render_notebook(notebook: StoredNotebook) -> (result: Result<String, serde_json::Error>)
    requires
        notebook.wf(),
    ensures
        result is Ok,
        is_text_of_notebook(notebook@, result->Ok_0@),
        result->Ok_0@.len() >= 2,
        result->Ok_0@.first() == '{',
        result->Ok_0@.last() == '}',
{
    let mut cells: Vec<nbformat::v4::Cell> = Vec::new();
    let ghost all = notebook.cells@;
    assert forall|i: int| 0 <= i < all.len() implies valid_cell_id((#[trigger] all[i]).id@) by {
        assert(notebook@.cells[i].id == all[i].id@);
    }
    for cell in it: notebook.cells
        invariant
            it.seq() == all,
            forall|i: int| 0 <= i < all.len() ==> valid_cell_id((#[trigger] all[i]).id@),
            cells@.len() == it.index(),
            forall|i: int| 0 <= i < cells@.len() ==> cell_contents(#[trigger] cells@[i]) == all[i]@,
    {
        assert(valid_cell_id(all[it.index()].id@));
        cells.push(cell_into_nbformat(cell));
    }
    let parts = CurrentNotebook { metadata: metadata_into_nbformat(notebook.metadata), cells };
    assert(parts@.cells =~= cell_views(all));
    write_notebook(parts, notebook.nbformat, notebook.nbformat_minor)
}

} // verus!
