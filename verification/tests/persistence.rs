use std::collections::HashMap;

use jupyter_protocol::media::{Media, MediaType};
use nbformat::v4::{CellMetadata, CodemirrorMode, DisplayData, Output};
use notebook_editor::document::{read_notebook, render_notebook, repair_notebook, OpenError};
use notebook_editor::ids::IdSource;
use notebook_editor::item::{NotebookItem, ProjectPath};
use notebook_editor::kernel::Directories;
use notebook_editor::notebook::{
    CellContent, KernelspecMetadata, NotebookAuthor, NotebookCell, NotebookLanguage,
    NotebookMetadata, StoredNotebook,
};
use notebook_editor::state::NotebookEditor;
use serde_json::Value;

const RICH: &str = r#"{
  "metadata": {
    "kernelspec": {"display_name": "Python 3", "name": "python3", "language": "python",
      "env": {"A": [1, 2]}},
    "language_info": {"name": "python", "version": "3.12",
      "codemirror_mode": {"name": "ipython", "version": 3}, "mimetype": "text/x-python"},
    "authors": [{"name": "Ada", "email": "ada@example.org"}, {"name": "Bo"}],
    "extra": {"deep": [[[null, true, 0.1, 1.7976931348623157e308]]]}
  },
  "nbformat": 4,
  "nbformat_minor": 5,
  "cells": [
    {"cell_type": "code", "id": "first", "execution_count": 7, "source": ["x = 1\n", "x"],
     "metadata": {"tags": ["a", "b"], "collapsed": true, "jupyter": {"source_hidden": true,
       "other": 1}, "execution": {"iopub.status.busy": "now", "more": {}}, "mine": [1]},
     "outputs": [
       {"output_type": "stream", "name": "stdout", "text": ["1\n", "2"]},
       {"output_type": "display_data", "metadata": {"m": 1}, "data": {
         "text/plain": ["a\n", "b"], "image/png": "iVBOR", "application/json": {"k": [1]},
         "application/x-other": {"o": null},
         "application/vnd.dataresource+json": {"schema": {"fields": [
           {"name": "n", "type": "integer"}]}, "data": [{"n": 1}]}}},
       {"output_type": "execute_result", "execution_count": 7, "metadata": {},
         "data": {"text/html": ["<b>x</b>"]}},
       {"output_type": "error", "ename": "E", "evalue": "v", "traceback": ["t", "u"]}
     ]},
    {"cell_type": "markdown", "id": "second", "metadata": {"name": "n"}, "source": ["\n# Title"],
     "attachments": {"image.png": {"image/png": "iVBOR"}}},
    {"cell_type": "raw", "id": "third", "metadata": {"format": "text/x-rst"}, "source": []}
  ]
}"#;

fn try_read(text: &str) -> Result<StoredNotebook, OpenError> {
    read_notebook(text, &mut IdSource::new())
}

fn try_repair(text: &str) -> Result<StoredNotebook, OpenError> {
    repair_notebook(text, &mut IdSource::new())
}

fn read(text: &str) -> StoredNotebook {
    match try_read(text) {
        Ok(notebook) => notebook,
        Err(_) => panic!("the notebook can be read"),
    }
}

fn render(notebook: StoredNotebook) -> String {
    match render_notebook(notebook) {
        Ok(text) => text,
        Err(_) => panic!("the notebook can be written"),
    }
}

fn json(text: &str) -> Value {
    match serde_json::from_str(text) {
        Ok(value) => value,
        Err(_) => panic!("the text is JSON"),
    }
}

fn no_cell_metadata() -> CellMetadata {
    CellMetadata {
        id: None,
        collapsed: None,
        scrolled: None,
        deletable: None,
        editable: None,
        format: None,
        name: None,
        tags: None,
        jupyter: None,
        execution: None,
        additional: HashMap::new(),
    }
}

fn member(value: Value) -> HashMap<String, Value> {
    let mut members = HashMap::new();
    members.insert("extra".to_string(), value);
    members
}

/// Arrays nested `depth` times.
fn nested(depth: usize) -> Value {
    let mut value = Value::Null;
    for _ in 0..depth {
        value = Value::Array(vec![value]);
    }
    value
}

fn notebook(metadata: NotebookMetadata, cells: Vec<NotebookCell>) -> StoredNotebook {
    StoredNotebook { metadata, nbformat: 4, nbformat_minor: 5, cells }
}

fn with_cell(metadata: CellMetadata, content: CellContent) -> StoredNotebook {
    let cell = NotebookCell {
        id: "only".to_string(),
        metadata,
        source: vec!["a".to_string()],
        content,
    };
    notebook(NotebookMetadata::empty(), vec![cell])
}

fn kernelspec(additional: HashMap<String, Value>) -> KernelspecMetadata {
    KernelspecMetadata {
        display_name: "P".to_string(),
        name: "p".to_string(),
        language: None,
        additional,
    }
}

fn display(content: Vec<MediaType>, metadata: Value) -> Output {
    let mut members = serde_json::Map::new();
    members.insert("extra".to_string(), metadata);
    Output::DisplayData(DisplayData { data: Media { content }, metadata: members })
}

fn code(outputs: Vec<Output>) -> CellContent {
    CellContent::Code { execution_count: None, outputs }
}

#[test]
fn everything_in_a_notebook_comes_back() {
    let text = render(read(RICH));
    let again = render(read(&text));
    assert_eq!(json(&text), json(&again));
    match try_repair(&text) {
        Ok(notebook) => assert_eq!(json(&render(notebook)), json(&text)),
        Err(_) => panic!("the notebook can be read"),
    }
    let notebook = read(&text);
    match &notebook.metadata.kernelspec {
        Some(spec) => {
            assert_eq!(spec.display_name, "Python 3");
            assert_eq!(spec.name, "python3");
            assert_eq!(spec.language.as_deref(), Some("python"));
            assert_eq!(spec.additional["env"], json("{\"A\": [1, 2]}"));
        }
        None => panic!("the kernel comes back"),
    }
    match &notebook.metadata.language_info {
        Some(language) => {
            assert_eq!(language.name, "python");
            assert_eq!(language.version.as_deref(), Some("3.12"));
            assert!(matches!(&language.codemirror_mode,
                Some(CodemirrorMode::Object(mode)) if mode["name"] == "ipython"));
            assert_eq!(language.additional["mimetype"], "text/x-python");
        }
        None => panic!("the language comes back"),
    }
    match &notebook.metadata.authors {
        Some(authors) => {
            assert_eq!(authors.len(), 2);
            assert_eq!(authors[0].name, "Ada");
            assert_eq!(authors[0].additional["email"], "ada@example.org");
            assert_eq!(authors[1].name, "Bo");
        }
        None => panic!("the authors come back"),
    }
    assert_eq!(notebook.metadata.additional["extra"]["deep"][0][0][1], true);
    assert_eq!(notebook.cells[0].metadata.tags.as_ref().map(|tags| tags.len()), Some(2));
    assert_eq!(notebook.cells[0].metadata.additional["mine"], json("[1]"));
    match &notebook.cells[0].content {
        CellContent::Code { outputs, .. } => assert_eq!(outputs.len(), 4),
        _ => panic!("the first cell is a code cell"),
    }
    assert!(matches!(&notebook.cells[1].content,
        CellContent::Markdown { attachments: Some(value) }
            if value["image.png"]["image/png"] == "iVBOR"));
    let (before, after) = (json(RICH), json(&text));
    for (a, b) in [(&before["cells"][0], &after["cells"][0])] {
        assert_eq!(a["metadata"], b["metadata"]);
        assert_eq!(a["outputs"], b["outputs"]);
    }
}

#[test]
fn integers_come_back_as_they_were() {
    for number in ["0", "-1", "9007199254740993", "18446744073709551615", "-9223372036854775808"] {
        let text = render(notebook(
            NotebookMetadata { additional: member(json(number)), ..NotebookMetadata::empty() },
            Vec::new(),
        ));
        assert_eq!(read(&text).metadata.additional["extra"].to_string(), number);
    }
    for number in ["1.0", "-0.0", "1e300"] {
        let text = render(notebook(
            NotebookMetadata { additional: member(json(number)), ..NotebookMetadata::empty() },
            Vec::new(),
        ));
        assert!(read(&text).metadata.additional["extra"].is_f64());
    }
}

#[test]
fn a_saved_notebook_comes_back() {
    let project_path = ProjectPath {
        worktree_id: 3,
        path: "n.ipynb".to_string(),
        file_name: Some("n.ipynb".to_string()),
        extension: Some("ipynb".to_string()),
    };
    let mut item = match NotebookItem::open(project_path, "/p/n.ipynb".to_string(), RICH, Some(1)) {
        Ok(item) => item,
        Err(_) => panic!("the notebook opens"),
    };
    let directories =
        || Directories { notebook: Some("/p"), project: Some("/p"), temporary: "/tmp" };
    let (mut editor, _) = NotebookEditor::new(&mut item, None, &Vec::new(), directories());
    editor.move_cell_down();
    editor.duplicate_selected_cell();
    editor.add_markdown_block();
    let order = editor.cell_order.clone();
    let shown = render(editor.to_notebook(&item));
    let file = match editor.save(&item) {
        Ok(file) => file,
        Err(_) => panic!("the notebook can be saved"),
    };
    assert_eq!(file.path, "/p/n.ipynb");
    assert_eq!(json(&file.text), json(&shown));
    assert!(editor.is_dirty());
    assert!(editor.reload(&mut item, &file.text).is_ok());
    assert!(!editor.is_dirty());
    assert_eq!(editor.cell_order, order);
    assert_eq!(editor.cell_count(), order.len());
    assert_eq!(json(&render(editor.to_notebook(&item))), json(&shown));
}

#[test]
fn nesting_is_read_up_to_a_limit() {
    let with_metadata = |additional| {
        notebook(NotebookMetadata { additional, ..NotebookMetadata::empty() }, Vec::new())
    };
    let with_kernel = |additional| {
        let kernelspec = Some(kernelspec(additional));
        notebook(NotebookMetadata { kernelspec, ..NotebookMetadata::empty() }, Vec::new())
    };
    let with_language = |codemirror_mode, additional| {
        let name = "python".to_string();
        let language_info =
            Some(NotebookLanguage { name, version: None, codemirror_mode, additional });
        notebook(NotebookMetadata { language_info, ..NotebookMetadata::empty() }, Vec::new())
    };
    let with_author = |additional| {
        let authors = Some(vec![NotebookAuthor { name: "Ada".to_string(), additional }]);
        notebook(NotebookMetadata { authors, ..NotebookMetadata::empty() }, Vec::new())
    };
    let with_cell_metadata =
        |additional| with_cell(CellMetadata { additional, ..no_cell_metadata() }, CellContent::Raw);
    for (extra, fine) in [(0, true), (1, false)] {
        let tried = vec![
            with_metadata(member(nested(125 + extra))),
            with_kernel(member(nested(124 + extra))),
            with_language(None, member(nested(124 + extra))),
            with_language(Some(CodemirrorMode::Object(nested(124 + extra))), HashMap::new()),
            with_author(member(nested(123 + extra))),
            // The metadata of the cell are one more object.
            with_cell_metadata(member(nested(123 + extra))),
            with_cell(
                no_cell_metadata(),
                CellContent::Markdown { attachments: Some(nested(124 + extra)) },
            ),
            // The output and its metadata are two more objects.
            with_cell(no_cell_metadata(), code(vec![display(Vec::new(), nested(121 + extra))])),
        ];
        for notebook in tried {
            let text = render(notebook);
            match try_read(&text) {
                Ok(_) => assert!(fine),
                Err(OpenError::InvalidJson(_)) => assert!(!fine),
                Err(_) => panic!("only the depth can be wrong"),
            }
            assert_eq!(try_repair(&text).is_ok(), fine);
        }
    }
}

#[test]
fn members_under_the_names_of_fields_are_not_read() {
    let mut additional = HashMap::new();
    additional.insert("kernelspec".to_string(), Value::from(1));
    let clashing = NotebookMetadata { additional, ..NotebookMetadata::empty() };
    let text = render(notebook(clashing, Vec::new()));
    assert!(matches!(try_read(&text), Err(OpenError::InvalidNotebook(_))));
    let mut additional = HashMap::new();
    additional.insert("tags".to_string(), Value::from(1));
    let clashing = CellMetadata { additional, ..no_cell_metadata() };
    let text = render(with_cell(clashing, CellContent::Raw));
    assert!(matches!(try_read(&text), Err(OpenError::InvalidNotebook(_))));
}

#[test]
fn an_output_that_cannot_be_read_is_left_out() {
    let odd = MediaType::Other(("text/plain".to_string(), Value::from(1)));
    let fine = MediaType::Plain("a".to_string());
    let outputs = vec![display(vec![odd], Value::Null), display(vec![fine], Value::Null)];
    let notebook = read(&render(with_cell(no_cell_metadata(), code(outputs))));
    match &notebook.cells[0].content {
        CellContent::Code { outputs, .. } => assert_eq!(outputs.len(), 1),
        _ => panic!("the cell is a code cell"),
    }
}
