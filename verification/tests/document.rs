use notebook_editor::document::{read_notebook, render_notebook, repair_notebook, OpenError};
use notebook_editor::ids::IdSource;
use notebook_editor::json::{accepts_cell_ids, assign_cell_ids, missing_ids, Json};
use notebook_editor::notebook::{CellContent, StoredNotebook};

const CURRENT: &str = "{\"metadata\": {\"language_info\": {\"name\": \"python\", \"version\": \"3.12\"}, \
    \"extra\": 1}, \"nbformat\": 4, \"nbformat_minor\": 5, \"cells\": [\
    {\"cell_type\": \"code\", \"id\": \"first\", \"metadata\": {}, \"execution_count\": 7, \
     \"source\": [\"x = 1\\n\", \"x\"], \"outputs\": [{\"output_type\": \"stream\", \
     \"name\": \"stdout\", \"text\": [\"1\\n\"]}]}, \
    {\"cell_type\": \"markdown\", \"id\": \"second\", \"metadata\": {}, \"source\": \"# Title\"}, \
    {\"cell_type\": \"raw\", \"id\": \"third\", \"metadata\": {}, \"source\": []}]}";

const LEGACY: &str = "{\"metadata\": {}, \"nbformat\": 4, \"nbformat_minor\": 4, \"cells\": [\
    {\"cell_type\": \"markdown\", \"metadata\": {}, \"source\": [\"a\"]}, \
    {\"cell_type\": \"code\", \"id\": \"kept\", \"metadata\": {}, \"execution_count\": null, \
     \"source\": [\"b\"], \"outputs\": []}]}";

const WITHOUT_IDS: &str = "{\"metadata\": {}, \"nbformat\": 4, \"nbformat_minor\": 5, \"cells\": [\
    {\"cell_type\": \"markdown\", \"metadata\": {}, \"source\": [\"a\"]}, \
    {\"cell_type\": \"markdown\", \"id\": \"kept\", \"metadata\": {}, \"source\": [\"b\"]}]}";

fn try_read(text: &str) -> Result<StoredNotebook, OpenError> {
    read_notebook(text, &mut IdSource::new())
}

fn try_repair(text: &str) -> Result<StoredNotebook, OpenError> {
    repair_notebook(text, &mut IdSource::new())
}

fn read(text: &str) -> StoredNotebook {
    match try_read(text) {
        Ok(notebook) => notebook,
        Err(_) => panic!("the notebook can be read"),
    }
}

fn ids(notebook: &StoredNotebook) -> Vec<String> {
    notebook.cells.iter().map(|cell| cell.id.clone()).collect()
}

fn is_uuid(id: &str) -> bool {
    id.len() == 36
        && id.char_indices().all(|(i, c)| match i {
            8 | 13 | 18 | 23 => c == '-',
            14 => c == '4',
            19 => matches!(c, '8' | '9' | 'a' | 'b'),
            _ => matches!(c, '0'..='9' | 'a'..='f'),
        })
}

#[test]
fn a_blank_file_is_a_notebook_without_cells() {
    for text in ["", " \n\t"] {
        let notebook = read(text);
        assert_eq!(notebook.cells.len(), 0);
        assert_eq!((notebook.nbformat, notebook.nbformat_minor), (4, 5));
        assert!(notebook.metadata.kernelspec.is_none());
        assert!(notebook.metadata.language_info.is_none());
        assert!(notebook.metadata.authors.is_none());
        assert!(notebook.metadata.additional.is_empty());
    }
}

#[test]
fn a_current_notebook_is_taken_as_it_is() {
    let notebook = read(CURRENT);
    assert_eq!(ids(&notebook), vec!["first", "second", "third"]);
    assert_eq!(notebook.cells[0].source, vec!["x = 1\n", "x"]);
    assert_eq!(notebook.cells[1].source, vec!["# Title"]);
    assert_eq!(notebook.cells[2].source.len(), 0);
    match &notebook.cells[0].content {
        CellContent::Code { execution_count, outputs } => {
            assert_eq!(*execution_count, Some(7));
            assert_eq!(outputs.len(), 1);
            assert!(matches!(outputs[0], nbformat::v4::Output::Stream { .. }));
        }
        _ => panic!("the first cell is a code cell"),
    }
    assert!(matches!(notebook.cells[1].content, CellContent::Markdown { attachments: None }));
    assert!(matches!(notebook.cells[2].content, CellContent::Raw));
    let language = notebook.metadata.language_info.as_ref();
    assert_eq!(language.map(|language| language.name.as_str()), Some("python"));
    assert_eq!(language.and_then(|language| language.version.as_deref()), Some("3.12"));
    assert_eq!(notebook.metadata.additional["extra"], serde_json::Value::from(1));
}

#[test]
fn an_earlier_notebook_is_upgraded() {
    let notebook = read(LEGACY);
    assert_eq!((notebook.nbformat, notebook.nbformat_minor), (4, 5));
    assert!(is_uuid(&notebook.cells[0].id));
    assert_eq!(notebook.cells[1].id, "kept");
    assert_eq!(notebook.cells[0].source, vec!["a"]);
}

#[test]
fn missing_ids_are_filled_in() {
    for result in [try_read(WITHOUT_IDS), try_repair(WITHOUT_IDS)] {
        match result {
            Ok(notebook) => {
                assert!(is_uuid(&notebook.cells[0].id));
                assert_eq!(notebook.cells[1].id, "kept");
            }
            Err(_) => panic!("the notebook can be read"),
        }
    }
}

#[test]
fn each_cell_gets_an_id_of_its_own() {
    let cell = "{\"cell_type\": \"raw\", \"metadata\": {}, \"source\": []}";
    let text = format!(
        "{{\"metadata\": {{}}, \"nbformat\": 4, \"nbformat_minor\": 5, \"cells\": [{cell}, {cell}, {cell}]}}"
    );
    let ids = ids(&read(&text));
    assert!(ids.iter().all(|id| is_uuid(id)));
    assert!(ids[0] != ids[1] && ids[1] != ids[2] && ids[0] != ids[2]);
}

#[test]
fn the_error_is_that_of_the_repaired_text() {
    // The first cell lacks an identifier, and the second has one that cannot be.
    let text = "{\"metadata\": {}, \"nbformat\": 4, \"nbformat_minor\": 5, \"cells\": [\
        {\"cell_type\": \"raw\", \"metadata\": {}, \"source\": []}, \
        {\"cell_type\": \"raw\", \"id\": \"?\", \"metadata\": {}, \"source\": []}]}";
    for result in [try_read(text), try_repair(text)] {
        match result {
            Err(OpenError::InvalidNotebook(error)) => {
                let words = error.to_string();
                assert!(words.contains("index 1"), "{words}");
                assert!(words.contains("Invalid cell ID"), "{words}");
            }
            _ => panic!("the notebook cannot be read"),
        }
    }
}

#[test]
fn what_is_no_json_is_refused() {
    assert!(matches!(try_read("print(1)"), Err(OpenError::InvalidJson(_))));
    assert!(matches!(try_repair("print(1)"), Err(OpenError::InvalidJson(_))));
    // A reload does not take a file of white space for a notebook.
    for text in ["", " \n", "\u{a0}"] {
        let result = try_repair(text);
        assert!(matches!(result, Err(OpenError::InvalidJson(_))));
    }
}

#[test]
fn what_is_no_notebook_is_refused() {
    assert!(matches!(try_read("{}"), Err(OpenError::InvalidNotebook(_))));
    assert!(matches!(try_read("[1]"), Err(OpenError::InvalidNotebook(_))));
    let version = "{\"metadata\": {}, \"nbformat\": 3, \"nbformat_minor\": 0, \"cells\": []}";
    assert!(matches!(try_read(version), Err(OpenError::InvalidNotebook(_))));
}

#[test]
fn cells_that_share_an_id_are_refused() {
    let twice = CURRENT.replace("second", "first");
    assert!(matches!(try_read(&twice), Err(OpenError::InvalidNotebook(_))));
}

#[test]
fn earlier_cells_that_share_an_id_are_not_upgraded() {
    let twice = LEGACY.replace("{\"cell_type\": \"markdown\",", "{\"cell_type\": \"markdown\", \"id\": \"kept\",");
    assert!(matches!(try_read(&twice), Err(OpenError::CannotUpgrade(_))));
}

#[test]
fn a_cell_that_takes_no_id_is_refused() {
    let odd = "{\"metadata\": {}, \"nbformat\": 4, \"nbformat_minor\": 5, \"cells\": [1]}";
    assert!(matches!(try_read(odd), Err(OpenError::CellWithoutMembers)));
    // Null becomes an object with an identifier, which is no cell either.
    let null = "{\"metadata\": {}, \"nbformat\": 4, \"nbformat_minor\": 5, \"cells\": [null]}";
    assert!(matches!(try_read(null), Err(OpenError::InvalidNotebook(_))));
}

#[test]
fn what_is_written_is_read_again() {
    let notebook = read(CURRENT);
    let text = match render_notebook(notebook) {
        Ok(text) => text,
        Err(_) => panic!("the notebook can be written"),
    };
    assert!(text.starts_with('{'));
    assert!(text.ends_with('}'));
    assert!(text.contains("\n  \"nbformat\": 4,"));
    let (before, after) = (read(CURRENT), read(&text));
    assert_eq!(ids(&before), ids(&after));
    for (a, b) in before.cells.iter().zip(&after.cells) {
        assert_eq!(a.source, b.source);
        match (&a.content, &b.content) {
            (
                CellContent::Code { execution_count: m, outputs: p },
                CellContent::Code { execution_count: n, outputs: q },
            ) => {
                assert_eq!(m, n);
                assert_eq!(p.len(), q.len());
            }
            (CellContent::Markdown { .. }, CellContent::Markdown { .. }) => {}
            (CellContent::Raw, CellContent::Raw) => {}
            _ => panic!("a cell keeps its kind"),
        }
    }
    assert_eq!(after.metadata.additional["extra"], serde_json::Value::from(1));
}

#[test]
fn ids_go_to_the_cells_that_have_none() {
    let cell = |members: Vec<(String, Json)>| Json::Object(members);
    let with_id = vec![("id".to_string(), Json::String("old".to_string()))];
    let cells = Json::Array(vec![cell(Vec::new()), cell(with_id), Json::Null]);
    let document = Json::Object(vec![("cells".to_string(), cells)]);
    assert_eq!(missing_ids(&document), 2);
    assert!(accepts_cell_ids(&document));
    let ids = vec!["a".to_string(), "c".to_string()];
    let once = assign_cell_ids(document, &ids);
    assert_eq!(missing_ids(&once), 0);
    // A second time nothing changes.
    for document in [assign_cell_ids(once, &Vec::new())] {
        let members = match document {
            Json::Object(members) => members,
            _ => panic!("the document is an object"),
        };
        let cells = match &members[0].1 {
            Json::Array(cells) => cells,
            _ => panic!("the cells are a list"),
        };
        let found: Vec<String> = cells
            .iter()
            .map(|cell| match cell {
                Json::Object(members) => match &members[0].1 {
                    Json::String(id) => id.clone(),
                    _ => panic!("an identifier is a text"),
                },
                _ => panic!("a cell is an object"),
            })
            .collect();
        assert_eq!(found, vec!["a", "old", "c"]);
    }
}

#[test]
fn documents_without_cells_are_left_alone() {
    for document in [Json::Null, Json::Object(Vec::new()), Json::Array(vec![Json::Bool(true)])] {
        assert_eq!(missing_ids(&document), 0);
        assert!(accepts_cell_ids(&document));
    }
    let document = Json::Object(vec![("cells".to_string(), Json::Bool(false))]);
    assert_eq!(missing_ids(&document), 0);
    let document = Json::Object(vec![("cells".to_string(), Json::Array(vec![Json::Bool(false)]))]);
    assert!(!accepts_cell_ids(&document));
}
