//! The file behind a notebook editor.

use vstd::prelude::*;

use crate::document::{
    is_notebook, is_text_of_notebook, opened, outcome, read_notebook, regular, restored, OpenError,
};
use crate::ids::IdSource;
use crate::notebook::{
    KernelspecMetadata, KernelspecMetadataView, NotebookLanguage, NotebookLanguageView,
    NotebookMetadataView, StoredNotebook, StoredNotebookView,
};
use crate::text::{blank, copy_option, opt_text};

verus! {

/// Where a file lies in a project, and what its name says.
pub struct ProjectPath {
    pub worktree_id: u64,
    pub path: String,
    pub file_name: Option<String>,
    pub extension: Option<String>,
}

/// What a [`ProjectPath`] stands for.
#[verifier::ext_equal]
pub struct ProjectPathView {
    pub worktree_id: u64,
    pub path: Seq<char>,
    pub file_name: Option<Seq<char>>,
    pub extension: Option<Seq<char>>,
}

impl View for ProjectPath {
    type V = ProjectPathView;

    open spec fn view(&self) -> ProjectPathView {
        ProjectPathView {
            worktree_id: self.worktree_id,
            path: self.path@,
            file_name: opt_text(self.file_name),
            extension: opt_text(self.extension),
        }
    }
}

impl ProjectPath {
    /// A copy.
    pub fn copy(&self) -> (copy: ProjectPath)
        ensures
            copy@ == self@,
    {
        ProjectPath {
            worktree_id: self.worktree_id,
            path: self.path.clone(),
            file_name: copy_option(&self.file_name),
            extension: copy_option(&self.extension),
        }
    }

    /// Whether the name of the file is that of a notebook.
    pub fn is_notebook(&self) -> (result: bool)
        ensures
            result == (self@.extension == Some("ipynb"@)),
    {
        match &self.extension {
            Some(extension) => *extension == "ipynb".to_string(),
            None => false,
        }
    }
}

/// An open notebook file.
pub struct NotebookItem {
    pub path: String,
    pub project_path: ProjectPath,
    pub notebook: StoredNotebook,
    pub id: u64,
    /// Whether those who show the notebook have to be told that it changed.
    pub changed: bool,
    /// Where identifiers come from that cells of the file lack.
    pub ids: IdSource,
}

/// What a [`NotebookItem`] stands for.
#[verifier::ext_equal]
pub struct NotebookItemView {
    pub path: Seq<char>,
    pub project_path: ProjectPathView,
    pub notebook: StoredNotebookView,
    pub id: u64,
    pub changed: bool,
    /// The identifiers that were drawn for cells of the file.
    pub drawn: Seq<Seq<char>>,
}

impl View for NotebookItem {
    type V = NotebookItemView;

    open spec fn view(&self) -> NotebookItemView {
        NotebookItemView {
            path: self.path@,
            project_path: self.project_path@,
            notebook: self.notebook@,
            id: self.id,
            changed: self.changed,
            drawn: self.ids.log(),
        }
    }
}

/// Why a notebook file cannot be opened.
pub enum ItemError {
    /// It is not known where the file lies outside the project.
    NoAbsolutePath,
    /// What the file holds is no notebook.
    Unreadable(OpenError),
    /// The project does not have the file.
    EntryNotFound,
}

impl NotebookItemView {
    /// The item once identifiers have been drawn for it.
    pub open spec fn drew_all(self, ids: Seq<Seq<char>>) -> NotebookItemView {
        NotebookItemView { drawn: self.drawn + ids, ..self }
    }

    /// The item with other metadata, of which others have to be told.
    pub open spec fn with_metadata(self, metadata: NotebookMetadataView) -> NotebookItemView {
        NotebookItemView {
            notebook: StoredNotebookView { metadata, ..self.notebook },
            changed: true,
            ..self
        }
    }

    /// The item with another kernel in its metadata.
    pub open spec fn with_kernelspec(self, kernelspec: KernelspecMetadataView) -> NotebookItemView {
        self.with_metadata(
            NotebookMetadataView { kernelspec: Some(kernelspec), ..self.notebook.metadata },
        )
    }

    /// The item with another language in its metadata.
    pub open spec fn with_language_info(self, info: NotebookLanguageView) -> NotebookItemView {
        self.with_metadata(
            NotebookMetadataView { language_info: Some(info), ..self.notebook.metadata },
        )
    }

    /// The item with another notebook.
    pub open spec fn with_notebook(self, notebook: StoredNotebookView) -> NotebookItemView {
        NotebookItemView { notebook, changed: true, ..self }
    }

    /// The name of the language of the notebook. What its kernel told goes before what the kernel
    /// was described with.
    pub open spec fn language_name(self) -> Option<Seq<char>> {
        match self.notebook.metadata.language_info {
            Some(info) => Some(info.name),
            None => match self.notebook.metadata.kernelspec {
                Some(spec) => spec.language,
                None => None,
            },
        }
    }
}

/// `item` is that of a notebook file with the given content and place: it holds the notebook that
/// the file holds.
pub open spec fn opens_as(
    project_path: ProjectPathView,
    path: Seq<char>,
    content: Seq<char>,
    entry: Option<u64>,
    item: NotebookItemView,
) -> bool {
    &&& opened(content, item.drawn, Ok(item.notebook))
    &&& entry == Some(item.id)
    &&& item.path == path
    &&& item.project_path == project_path
    &&& !item.changed
    &&& regular(item.notebook)
}

impl NotebookItem {
    /// Every cell of the notebook has an identifier that the notebook format accepts.
    pub open spec fn wf(&self) -> bool {
        self.notebook.wf()
    }

    /// Opens a notebook file of which the content and the entry in the project are known. The item
    /// of a file that a notebook was written to holds that notebook.
    pub fn open(
        project_path: ProjectPath,
        path: String,
        content: &str,
        entry: Option<u64>,
    ) -> (result: Result<NotebookItem, ItemError>)
        ensures
            match result {
                Ok(item) => {
                    &&& opens_as(project_path@, path@, content@, entry, item@)
                    &&& item.wf()
                },
                Err(ItemError::NoAbsolutePath) => false,
                Err(ItemError::Unreadable(error)) => exists|ids: Seq<Seq<char>>|
                    opened(content@, ids, Err(error)),
                Err(ItemError::EntryNotFound) => {
                    &&& entry is None
                    &&& exists|ids: Seq<Seq<char>>, notebook: StoredNotebookView|
                        opened(content@, ids, Ok(notebook))
                },
            },
            forall|written: StoredNotebookView| #[trigger]
                is_text_of_notebook(written, content@) && written.nbformat == 4
                    && written.nbformat_minor == 5 && !blank(content@) ==> {
                    &&& entry is Some && (regular(written) || is_notebook(content@))
                        ==> result is Ok
                    &&& result is Ok ==> restored(written, result->Ok_0@.notebook)
                },
    {
        let mut source = IdSource::new();
        let read = read_notebook(content, &mut source);
        let ghost came = outcome(read);
        proof {
            let ids = choose|ids: Seq<Seq<char>>| #[trigger]
                opened(content@, ids, came) && source.log() == Seq::<Seq<char>>::empty() + ids;
            assert(source.log() =~= ids);
            assert(opened(content@, source.log(), came));
        }
        match read {
            Ok(notebook) => match entry {
                Some(id) => Ok(
                    NotebookItem { path, project_path, notebook, id, changed: false, ids: source },
                ),
                None => {
                    assert(opened(content@, source.log(), Ok(notebook@)));
                    Err(ItemError::EntryNotFound)
                },
            },
            Err(error) => {
                assert(opened(content@, source.log(), Err(error)));
                Err(ItemError::Unreadable(error))
            },
        }
    }

    /// Opens a file of a project, if its name is that of a notebook. `path` is where it lies
    /// outside the project, `content` what it holds, and `entry` its entry in the project.
    pub fn try_open(
        project_path: ProjectPath,
        path: Option<String>,
        content: &str,
        entry: Option<u64>,
    ) -> (result: Option<Result<NotebookItem, ItemError>>)
        ensures
            result is Some <==> project_path@.extension == Some("ipynb"@),
            result is Some ==> match result->0 {
                Ok(item) => {
                    &&& path is Some
                    &&& opens_as(project_path@, path->0@, content@, entry, item@)
                    &&& item.wf()
                },
                Err(ItemError::NoAbsolutePath) => path is None,
                Err(ItemError::Unreadable(error)) => path is Some && exists|ids: Seq<Seq<char>>|
                    opened(content@, ids, Err(error)),
                Err(ItemError::EntryNotFound) => {
                    &&& path is Some
                    &&& entry is None
                    &&& exists|ids: Seq<Seq<char>>, notebook: StoredNotebookView|
                        opened(content@, ids, Ok(notebook))
                },
            },
            forall|written: StoredNotebookView| #[trigger]
                is_text_of_notebook(written, content@) && written.nbformat == 4
                    && written.nbformat_minor == 5 && !blank(content@) && result is Some ==> {
                    &&& path is Some && entry is Some && (regular(written) || is_notebook(content@))
                        ==> result->0 is Ok
                    &&& result->0 is Ok ==> restored(written, result->0->Ok_0@.notebook)
                },
    {
        if project_path.is_notebook() {
            match path {
                Some(path) => Some(NotebookItem::open(project_path, path, content, entry)),
                None => Some(Err(ItemError::NoAbsolutePath)),
            }
        } else {
            None
        }
    }

    /// The entry of the file in the project.
    pub fn entry_id(&self) -> (id: Option<u64>)
        ensures
            id == Some(self@.id),
    {
        Some(self.id)
    }

    /// Where the file lies in the project.
    pub fn project_path(&self) -> (path: Option<ProjectPath>)
        ensures
            path is Some,
            path->0@ == self@.project_path,
    {
        Some(self.project_path.copy())
    }

    /// Whether the item itself holds something to save: it never does, an editor does.
    pub fn is_dirty(&self) -> (dirty: bool)
        ensures
            !dirty,
    {
        false
    }

    /// The name of the language of the notebook.
    pub fn language_name(&self) -> (name: Option<String>)
        ensures
            opt_text(name) == self@.language_name(),
    {
        match &self.notebook.metadata.language_info {
            Some(info) => Some(info.name.clone()),
            None => match &self.notebook.metadata.kernelspec {
                Some(spec) => copy_option(&spec.language),
                None => None,
            },
        }
    }

    /// The language of the notebook, where `found` is what is known under its name.
    pub fn notebook_language(&self, found: Option<u64>) -> (language: Option<u64>)
        ensures
            language == (if self@.language_name() is Some {
                found
            } else {
                None
            }),
    {
        if self.language_name().is_some() {
            found
        } else {
            None
        }
    }

    /// Takes note of the kernel that the notebook is used with.
    pub fn set_kernelspec(&mut self, kernelspec: KernelspecMetadata)
        ensures
            final(self)@ == old(self)@.with_kernelspec(kernelspec@),
    {
        self.notebook.metadata.kernelspec = Some(kernelspec);
        self.changed = true;
    }

    /// Takes note of the language that the kernel told.
    pub fn set_language_info(&mut self, info: NotebookLanguage)
        ensures
            final(self)@ == old(self)@.with_language_info(info@),
    {
        self.notebook.metadata.language_info = Some(info);
        self.changed = true;
    }

    /// Takes note of what the file now holds.
    pub fn set_notebook(&mut self, notebook: StoredNotebook)
        ensures
            final(self)@ == old(self)@.with_notebook(notebook@),
    {
        self.notebook = notebook;
        self.changed = true;
    }
}

} // verus!
