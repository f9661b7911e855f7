//! Notebooks as the notebook format stores them.

use std::collections::HashMap;
use vstd::prelude::*;

use crate::ids::{valid_cell_id, CellId};
use crate::json::JsonView;
use crate::text::{copy_option, opt_text, texts};

verus! {

/// What the notebook format keeps about a cell, carried as it is.
#[verifier::external_type_specification]
#[verifier::external_body]
pub struct ExCellMetadata(nbformat::v4::CellMetadata);

/// An output of a code cell, carried as it is.
#[verifier::external_type_specification]
#[verifier::external_body]
pub struct ExOutput(nbformat::v4::Output);

/// The mode of the web editor that a language names, carried as it is.
#[verifier::external_type_specification]
#[verifier::external_body]
pub struct ExCodemirrorMode(nbformat::v4::CodemirrorMode);

/// What `serde_json` makes of the metadata of a cell: an object with a member for each field that
/// is set and each additional member.
pub uninterp spec fn metadata_json(metadata: nbformat::v4::CellMetadata) -> JsonView;

/// Whether the metadata of a cell, or one of the two parts of them that have fields of their own,
/// have an additional member under the name of a field.
pub uninterp spec fn metadata_clashes(metadata: nbformat::v4::CellMetadata) -> bool;

/// What `serde_json` makes of an output.
pub uninterp spec fn output_json(output: nbformat::v4::Output) -> JsonView;

/// Whether an output has a medium of the kind for all other types under a type that has a kind of
/// its own.
pub uninterp spec fn output_clashes(output: nbformat::v4::Output) -> bool;

/// What `serde_json` makes of the mode of the web editor.
pub uninterp spec fn mode_json(mode: nbformat::v4::CodemirrorMode) -> JsonView;

/// The derived `Clone` of `nbformat::v4::CellMetadata` copies every field.
pub assume_specification[ <nbformat::v4::CellMetadata as Clone>::clone ](
    metadata: &nbformat::v4::CellMetadata,
) -> (copy: nbformat::v4::CellMetadata)
    ensures
        copy == *metadata,
;

/// The derived `Clone` of `nbformat::v4::Output` copies every field.
pub assume_specification[ <nbformat::v4::Output as Clone>::clone ](
    output: &nbformat::v4::Output,
) -> (copy: nbformat::v4::Output)
    ensures
        copy == *output,
;

/// The derived `Clone` of `nbformat::v4::CodemirrorMode` copies every field.
pub assume_specification[ <nbformat::v4::CodemirrorMode as Clone>::clone ](
    mode: &nbformat::v4::CodemirrorMode,
) -> (copy: nbformat::v4::CodemirrorMode)
    ensures
        copy == *mode,
;

/// The derived `Clone` of `serde_json::Value` copies the whole value.
pub assume_specification[ <serde_json::Value as Clone>::clone ](
    value: &serde_json::Value,
) -> (copy: serde_json::Value)
    ensures
        copy == *value,
;

/// What only cells of one kind have.
pub enum CellContent {
    Code { execution_count: Option<i32>, outputs: Vec<nbformat::v4::Output> },
    Markdown { attachments: Option<serde_json::Value> },
    Raw,
}

/// What a [`CellContent`] stands for.
#[verifier::ext_equal]
pub enum CellContentView {
    Code { execution_count: Option<i32>, outputs: Seq<nbformat::v4::Output> },
    Markdown { attachments: Option<serde_json::Value> },
    Raw,
}

impl View for CellContent {
    type V = CellContentView;

    open spec fn view(&self) -> CellContentView {
        match self {
            CellContent::Code { execution_count, outputs } => CellContentView::Code {
                execution_count: *execution_count,
                outputs: outputs@,
            },
            CellContent::Markdown { attachments } => CellContentView::Markdown {
                attachments: *attachments,
            },
            CellContent::Raw => CellContentView::Raw,
        }
    }
}

/// A cell of a stored notebook.
pub struct NotebookCell {
    pub id: CellId,
    pub metadata: nbformat::v4::CellMetadata,
    /// The text of the cell, line by line.
    pub source: Vec<String>,
    pub content: CellContent,
}

/// What a [`NotebookCell`] stands for.
#[verifier::ext_equal]
pub struct NotebookCellView {
    pub id: Seq<char>,
    pub metadata: nbformat::v4::CellMetadata,
    pub source: Seq<Seq<char>>,
    pub content: CellContentView,
}

impl View for NotebookCell {
    type V = NotebookCellView;

    open spec fn view(&self) -> NotebookCellView {
        NotebookCellView {
            id: self.id@,
            metadata: self.metadata,
            source: texts(self.source@),
            content: self.content@,
        }
    }
}

/// The kernel that a notebook was last used with.
pub struct KernelspecMetadata {
    pub display_name: String,
    pub name: String,
    pub language: Option<String>,
    pub additional: HashMap<String, serde_json::Value>,
}

/// What a [`KernelspecMetadata`] stands for.
#[verifier::ext_equal]
pub struct KernelspecMetadataView {
    pub display_name: Seq<char>,
    pub name: Seq<char>,
    pub language: Option<Seq<char>>,
    pub additional: Map<String, serde_json::Value>,
}

impl View for KernelspecMetadata {
    type V = KernelspecMetadataView;

    open spec fn view(&self) -> KernelspecMetadataView {
        KernelspecMetadataView {
            display_name: self.display_name@,
            name: self.name@,
            language: opt_text(self.language),
            additional: self.additional@,
        }
    }
}

impl KernelspecMetadata {
    /// A copy.
    pub fn copy(&self) -> (copy: KernelspecMetadata)
        ensures
            copy@ == self@,
    {
        KernelspecMetadata {
            display_name: self.display_name.clone(),
            name: self.name.clone(),
            language: copy_option(&self.language),
            additional: self.additional.clone(),
        }
    }
}

/// The programming language of a notebook.
pub struct NotebookLanguage {
    pub name: String,
    pub version: Option<String>,
    pub codemirror_mode: Option<nbformat::v4::CodemirrorMode>,
    pub additional: HashMap<String, serde_json::Value>,
}

/// What a [`NotebookLanguage`] stands for.
#[verifier::ext_equal]
pub struct NotebookLanguageView {
    pub name: Seq<char>,
    pub version: Option<Seq<char>>,
    pub codemirror_mode: Option<nbformat::v4::CodemirrorMode>,
    pub additional: Map<String, serde_json::Value>,
}

impl View for NotebookLanguage {
    type V = NotebookLanguageView;

    open spec fn view(&self) -> NotebookLanguageView {
        NotebookLanguageView {
            name: self.name@,
            version: opt_text(self.version),
            codemirror_mode: self.codemirror_mode,
            additional: self.additional@,
        }
    }
}

impl NotebookLanguage {
    /// A copy.
    pub fn copy(&self) -> (copy: NotebookLanguage)
        ensures
            copy@ == self@,
    {
        NotebookLanguage {
            name: self.name.clone(),
            version: copy_option(&self.version),
            codemirror_mode: self.codemirror_mode.clone(),
            additional: self.additional.clone(),
        }
    }
}

/// An author of a notebook.
pub struct NotebookAuthor {
    pub name: String,
    pub additional: HashMap<String, serde_json::Value>,
}

/// What a [`NotebookAuthor`] stands for.
#[verifier::ext_equal]
pub struct NotebookAuthorView {
    pub name: Seq<char>,
    pub additional: Map<String, serde_json::Value>,
}

impl View for NotebookAuthor {
    type V = NotebookAuthorView;

    open spec fn view(&self) -> NotebookAuthorView {
        NotebookAuthorView { name: self.name@, additional: self.additional@ }
    }
}

/// What each of `authors` stands for.
pub open spec fn author_views(authors: Seq<NotebookAuthor>) -> Seq<NotebookAuthorView> {
    authors.map_values(|author: NotebookAuthor| author@)
}

/// A copy of `authors`.
fn copy_authors(authors: &Vec<NotebookAuthor>) -> (copy: Vec<NotebookAuthor>)
    ensures
        author_views(copy@) == author_views(authors@),
{
    let mut copy: Vec<NotebookAuthor> = Vec::new();
    let mut i: usize = 0;
    while i < authors.len()
        invariant
            0 <= i <= authors@.len(),
            copy@.len() == i,
            forall|j: int| 0 <= j < i ==> (#[trigger] copy@[j])@ == authors@[j]@,
        decreases authors@.len() - i,
    {
        let author = &authors[i];
        copy.push(
            NotebookAuthor { name: author.name.clone(), additional: author.additional.clone() },
        );
        i += 1;
    }
    assert(author_views(copy@) =~= author_views(authors@));
    copy
}

/// What a notebook says about itself.
pub struct NotebookMetadata {
    pub kernelspec: Option<KernelspecMetadata>,
    pub language_info: Option<NotebookLanguage>,
    pub authors: Option<Vec<NotebookAuthor>>,
    pub additional: HashMap<String, serde_json::Value>,
}

/// What a [`NotebookMetadata`] stands for.
#[verifier::ext_equal]
pub struct NotebookMetadataView {
    pub kernelspec: Option<KernelspecMetadataView>,
    pub language_info: Option<NotebookLanguageView>,
    pub authors: Option<Seq<NotebookAuthorView>>,
    pub additional: Map<String, serde_json::Value>,
}

impl View for NotebookMetadata {
    type V = NotebookMetadataView;

    open spec fn view(&self) -> NotebookMetadataView {
        NotebookMetadataView {
            kernelspec: match self.kernelspec {
                Some(spec) => Some(spec@),
                None => None,
            },
            language_info: match self.language_info {
                Some(info) => Some(info@),
                None => None,
            },
            authors: match self.authors {
                Some(authors) => Some(author_views(authors@)),
                None => None,
            },
            additional: self.additional@,
        }
    }
}

/// Metadata that say nothing.
pub open spec fn no_metadata() -> NotebookMetadataView {
    NotebookMetadataView {
        kernelspec: None,
        language_info: None,
        authors: None,
        additional: Map::empty(),
    }
}

impl NotebookMetadata {
    /// Metadata that say nothing.
    pub fn empty() -> (metadata: NotebookMetadata)
        ensures
            metadata@ == no_metadata(),
    {
        NotebookMetadata {
            kernelspec: None,
            language_info: None,
            authors: None,
            additional: HashMap::new(),
        }
    }

    /// A copy.
    pub fn copy(&self) -> (copy: NotebookMetadata)
        ensures
            copy@ == self@,
    {
        let kernelspec = match &self.kernelspec {
            Some(spec) => Some(spec.copy()),
            None => None,
        };
        let language_info = match &self.language_info {
            Some(info) => Some(info.copy()),
            None => None,
        };
        let authors = match &self.authors {
            Some(authors) => Some(copy_authors(authors)),
            None => None,
        };
        NotebookMetadata { kernelspec, language_info, authors, additional: self.additional.clone() }
    }
}

/// A stored notebook.
pub struct StoredNotebook {
    pub metadata: NotebookMetadata,
    pub nbformat: i32,
    pub nbformat_minor: i32,
    pub cells: Vec<NotebookCell>,
}

/// What a [`StoredNotebook`] stands for.
#[verifier::ext_equal]
pub struct StoredNotebookView {
    pub metadata: NotebookMetadataView,
    pub nbformat: i32,
    pub nbformat_minor: i32,
    pub cells: Seq<NotebookCellView>,
}

impl View for StoredNotebook {
    type V = StoredNotebookView;

    open spec fn view(&self) -> StoredNotebookView {
        StoredNotebookView {
            metadata: self.metadata@,
            nbformat: self.nbformat,
            nbformat_minor: self.nbformat_minor,
            cells: cell_views(self.cells@),
        }
    }
}

/// What each of `cells` stands for.
pub open spec fn cell_views(cells: Seq<NotebookCell>) -> Seq<NotebookCellView> {
    cells.map_values(|cell: NotebookCell| cell@)
}

/// The identifiers of `cells`, in their order.
pub open spec fn cell_ids(cells: Seq<NotebookCellView>) -> Seq<Seq<char>> {
    cells.map_values(|cell: NotebookCellView| cell.id)
}

/// Every cell has an identifier that the notebook format accepts.
pub open spec fn valid_ids(cells: Seq<NotebookCellView>) -> bool {
    forall|i: int| 0 <= i < cells.len() ==> valid_cell_id((#[trigger] cells[i]).id)
}

/// The notebook without cells that stands for a file without content.
pub open spec fn empty_notebook() -> StoredNotebookView {
    StoredNotebookView {
        metadata: no_metadata(),
        nbformat: 4,
        nbformat_minor: 5,
        cells: Seq::empty(),
    }
}

impl StoredNotebook {
    /// Every cell has an identifier that the notebook format accepts.
    pub open spec fn wf(&self) -> bool {
        valid_ids(self@.cells)
    }

    /// The notebook without cells that stands for a file without content.
    pub fn empty() -> (notebook: StoredNotebook)
        ensures
            notebook@ == empty_notebook(),
            notebook.wf(),
    {
        let notebook = StoredNotebook {
            metadata: NotebookMetadata::empty(),
            nbformat: 4,
            nbformat_minor: 5,
            cells: Vec::new(),
        };
        assert(notebook@.cells =~= Seq::<NotebookCellView>::empty());
        notebook
    }
}

} // verus!
