use notebook_editor::cell::{CellOutput, CellPosition, EditorCell};
use notebook_editor::document::{read_notebook, OpenError};
use notebook_editor::ids::IdSource;
use notebook_editor::item::{NotebookItem, ProjectPath};
use notebook_editor::kernel::Directories;
use notebook_editor::notebook::CellContent;
use notebook_editor::state::{CellList, NotebookEditor};

const NOTEBOOK: &str = "{\"metadata\": {}, \"nbformat\": 4, \"nbformat_minor\": 5, \"cells\": [\
    {\"cell_type\": \"code\", \"id\": \"one\", \"metadata\": {}, \"execution_count\": 3, \
     \"source\": [\"x = 1\\n\", \"x\"], \"outputs\": [{\"output_type\": \"stream\", \
     \"name\": \"stdout\", \"text\": [\"1\"]}]}, \
    {\"cell_type\": \"markdown\", \"id\": \"two\", \"metadata\": {}, \"source\": [\"# Title\"]}, \
    {\"cell_type\": \"raw\", \"id\": \"three\", \"metadata\": {}, \"source\": [\"raw\"]}, \
    {\"cell_type\": \"code\", \"id\": \"four\", \"metadata\": {}, \"execution_count\": null, \
     \"source\": [\"y\"], \"outputs\": []}]}";

fn path() -> ProjectPath {
    ProjectPath {
        worktree_id: 9,
        path: "notes/n.ipynb".to_string(),
        file_name: Some("n.ipynb".to_string()),
        extension: Some("ipynb".to_string()),
    }
}

fn directories() -> Directories<&'static str> {
    Directories { notebook: Some("/p/notes"), project: Some("/p"), temporary: "/tmp" }
}

fn open_text(text: &str) -> (NotebookEditor, NotebookItem) {
    let mut item = match NotebookItem::open(path(), "/p/notes/n.ipynb".to_string(), text, Some(4)) {
        Ok(item) => item,
        Err(_) => panic!("the notebook opens"),
    };
    let (editor, _) = NotebookEditor::new(&mut item, Some(1), &Vec::new(), directories());
    (editor, item)
}

fn open() -> (NotebookEditor, NotebookItem) {
    open_text(NOTEBOOK)
}
fn is_uuid(id: &str) -> bool {
    id.len() == 36 && id.as_bytes()[14] == b'4' && id.bytes().filter(|b| *b == b'-').count() == 4
}

fn cell<'a>(editor: &'a NotebookEditor, id: &str) -> &'a EditorCell {
    match editor.cell_map.get(&id.to_string()) {
        Some(cell) => cell,
        None => panic!("the cell exists"),
    }
}

fn edit(editor: &mut NotebookEditor, id: &str, text: &str) {
    match editor.cell_map.get_mut(&id.to_string()) {
        Some(EditorCell::Code(cell)) => {
            cell.source = vec![text.to_string()];
            cell.dirty = true;
        }
        Some(EditorCell::Markdown(cell)) => {
            cell.source = vec![text.to_string()];
            cell.dirty = true;
        }
        _ => panic!("the cell has a text"),
    }
}

#[test]
fn a_new_editor_shows_the_cells_in_their_order() {
    let (editor, _) = open();
    assert_eq!(editor.cell_order, vec!["one", "two", "three", "four"]);
    assert_eq!(editor.original_cell_order, editor.cell_order);
    assert_eq!(editor.cell_count(), 4);
    assert_eq!(editor.selected_index(), 0);
    assert_eq!(editor.worktree_id, 9);
    assert_eq!(editor.cell_list, CellList { item_count: 4, revealed: None });
    match cell(&editor, "one") {
        EditorCell::Code(cell) => {
            assert_eq!(cell.text(), "x = 1\nx");
            assert_eq!(cell.language, Some(1));
            assert_eq!(cell.outputs.len(), 1);
            assert!(!cell.executing);
        }
        _ => panic!("the first cell is a code cell"),
    }
    match cell(&editor, "two") {
        EditorCell::Markdown(cell) => {
            assert_eq!(cell.rendered, "# Title");
            assert!(!cell.editing);
        }
        _ => panic!("the second cell is a Markdown cell"),
    }
    assert!(matches!(cell(&editor, "three"), EditorCell::Raw(_)));
}

#[test]
fn starting_the_kernel_is_all_there_is_to_save_at_first() {
    let (mut editor, _) = open();
    assert!(editor.is_dirty());
    assert!(!editor.has_structural_changes());
    assert!(!editor.has_content_changes());
    assert!(editor.has_metadata_changes());
    editor.mark_as_saved();
    assert!(!editor.is_dirty());
}

#[test]
fn opening_keeps_the_cells() {
    let (editor, item) = open();
    let notebook = editor.to_notebook(&item);
    assert_eq!((notebook.nbformat, notebook.nbformat_minor), (4, 5));
    assert_eq!(notebook.cells.len(), 4);
    for (shown, stored) in notebook.cells.iter().zip(&item.notebook.cells) {
        assert_eq!(shown.id, stored.id);
        assert_eq!(shown.source, stored.source);
    }
    match &notebook.cells[0].content {
        CellContent::Code { execution_count, outputs } => {
            assert_eq!(*execution_count, Some(3));
            assert_eq!(outputs.len(), 1);
        }
        _ => panic!("the first cell is a code cell"),
    }
}

#[test]
fn remarks_are_not_saved() {
    let (mut editor, item) = open();
    if let Some(EditorCell::Code(cell)) = editor.cell_map.get_mut(&"one".to_string()) {
        cell.outputs.insert(0, CellOutput::Message("a remark".to_string()));
    }
    match &editor.to_notebook(&item).cells[0].content {
        CellContent::Code { outputs, .. } => assert_eq!(outputs.len(), 1),
        _ => panic!("the first cell is a code cell"),
    }
}

#[test]
fn saving_leaves_nothing_to_save() {
    let (mut editor, item) = open();
    edit(&mut editor, "one", "z");
    edit(&mut editor, "two", "text");
    editor.move_cell_down();
    assert!(editor.has_content_changes());
    assert!(editor.has_structural_changes());
    let before = editor.to_notebook(&item);
    editor.stale = false;
    editor.mark_as_saved();
    assert!(!editor.is_dirty());
    assert!(editor.stale);
    let after = editor.to_notebook(&item);
    for (a, b) in before.cells.iter().zip(&after.cells) {
        assert_eq!((&a.id, &a.source), (&b.id, &b.source));
    }
}

#[test]
fn a_saved_file_holds_the_notebook() {
    let (mut editor, item) = open();
    edit(&mut editor, "four", "changed");
    let file = match editor.save(&item) {
        Ok(file) => file,
        Err(_) => panic!("the notebook can be written"),
    };
    assert_eq!(file.path, "/p/notes/n.ipynb");
    let read = match read_notebook(&file.text, &mut IdSource::new()) {
        Ok(notebook) => notebook,
        Err(_) => panic!("what is written is a notebook"),
    };
    assert_eq!(read.cells[3].source, vec!["changed"]);
    let spec = read.metadata.kernelspec.as_ref();
    assert_eq!(spec.map(|spec| spec.name.as_str()), Some("python3"));

    match editor.save_as(&item, "/q/m.ipynb".to_string()) {
        Ok(other) => {
            assert_eq!(other.path, "/q/m.ipynb");
            assert_eq!(other.text, file.text);
        }
        Err(_) => panic!("the notebook can be written"),
    }
}

#[test]
fn reloading_shows_the_file() {
    let (mut editor, mut item) = open();
    edit(&mut editor, "one", "z");
    editor.move_cell_down();
    editor.set_nav_history(5);
    let content = "{\"metadata\": {}, \"nbformat\": 4, \"nbformat_minor\": 5, \"cells\": [\
        {\"cell_type\": \"markdown\", \"metadata\": {}, \"source\": [\"new\"]}]}";
    item.changed = false;
    assert!(editor.reload(&mut item, content).is_ok());
    assert!(!editor.is_dirty());
    assert_eq!(editor.cell_count(), 1);
    assert_eq!(editor.cell_order.len(), 1);
    assert!(is_uuid(&editor.cell_order[0]));
    assert_eq!(editor.cell_list.item_count, 1);
    assert_eq!(item.notebook.cells.len(), 1);
    assert!(item.changed);
    match cell(&editor, &editor.cell_order[0].clone()) {
        EditorCell::Markdown(cell) => assert_eq!(cell.nav_history, Some(5)),
        _ => panic!("the cell is a Markdown cell"),
    }
    // The selection stays where it was.
    assert_eq!(editor.selected_index(), 1);
}

#[test]
fn a_file_that_is_no_notebook_is_not_shown() {
    let (mut editor, mut item) = open();
    let result = editor.reload(&mut item, "");
    assert!(matches!(result, Err(OpenError::InvalidJson(_))));
    assert_eq!(editor.cell_count(), 4);
    let result = editor.reload(&mut item, "{}");
    assert!(matches!(result, Err(OpenError::InvalidNotebook(_))));
    assert_eq!(item.notebook.cells.len(), 4);
}

#[test]
fn moving_up_and_down_cancels() {
    let (mut editor, _) = open();
    editor.set_selected_index(2, false);
    editor.move_cell_up();
    assert_eq!(editor.cell_order, vec!["one", "three", "two", "four"]);
    assert_eq!(editor.selected_index(), 1);
    assert!(editor.has_structural_changes());
    editor.move_cell_down();
    assert_eq!(editor.cell_order, vec!["one", "two", "three", "four"]);
    assert_eq!(editor.selected_index(), 2);
    assert!(!editor.has_structural_changes());
}

#[test]
fn the_ends_stop_a_move() {
    let (mut editor, _) = open();
    editor.stale = false;
    editor.move_cell_up();
    assert_eq!(editor.selected_index(), 0);
    assert!(!editor.stale);
    editor.set_selected_index(3, false);
    editor.move_cell_down();
    assert_eq!(editor.selected_index(), 3);
    assert!(!editor.stale);
    assert_eq!(editor.cell_order, vec!["one", "two", "three", "four"]);
}

#[test]
fn a_markdown_cell_is_added_behind_the_selected_one() {
    let (mut editor, _) = open();
    editor.set_nav_history(8);
    editor.set_selected_index(1, true);
    editor.add_markdown_block();
    assert_eq!(editor.selected_index(), 2);
    assert_eq!(editor.cell_order.len(), 5);
    assert_eq!(editor.cell_list, CellList { item_count: 5, revealed: None });
    let id = editor.cell_order[2].clone();
    assert!(is_uuid(&id));
    match cell(&editor, &id) {
        EditorCell::Markdown(cell) => {
            assert!(cell.editing);
            assert!(cell.source.is_empty());
            assert!(cell.attachments.is_none());
            assert_eq!(cell.nav_history, Some(8));
            assert!(cell.metadata.id.is_none());
            assert!(cell.metadata.tags.is_none());
            assert!(cell.metadata.additional.is_empty());
        }
        _ => panic!("the cell is a Markdown cell"),
    }
}

#[test]
fn a_code_cell_is_added_to_an_empty_notebook() {
    let (mut editor, _) = open_text("");
    assert_eq!(editor.cell_count(), 0);
    editor.add_code_block();
    assert_eq!(editor.selected_index(), 0);
    let id = editor.cell_order[0].clone();
    match cell(&editor, &id) {
        EditorCell::Code(cell) => {
            assert_eq!(cell.text(), "");
            assert_eq!(cell.language, Some(1));
            assert_eq!(cell.execution_count, None);
            assert_eq!(cell.nav_history, None);
        }
        _ => panic!("the cell is a code cell"),
    }
}

#[test]
fn a_duplicate_has_not_been_run() {
    let (mut editor, _) = open();
    editor.duplicate_selected_cell();
    assert_eq!(editor.selected_index(), 1);
    assert_eq!(editor.cell_order.len(), 5);
    let id = editor.cell_order[1].clone();
    assert!(is_uuid(&id));
    match (cell(&editor, "one"), cell(&editor, &id)) {
        (EditorCell::Code(old), EditorCell::Code(new)) => {
            assert_eq!(old.text(), new.text());
            assert_eq!(new.execution_count, None);
            assert!(new.outputs.is_empty());
            assert_eq!(old.execution_count, Some(3));
            assert_eq!(old.outputs.len(), 1);
        }
        _ => panic!("a duplicate of a code cell is one"),
    }
}

#[test]
fn nothing_is_duplicated_where_nothing_is_selected() {
    let (mut editor, _) = open();
    editor.set_selected_index(17, false);
    editor.duplicate_selected_cell();
    editor.delete_selected_cell();
    assert_eq!(editor.cell_order.len(), 4);
    assert!(editor.selected_editor().is_none());
}

#[test]
fn deleting_undoes_inserting() {
    let (mut editor, _) = open();
    editor.set_selected_index(1, false);
    editor.add_code_block();
    editor.delete_selected_cell();
    assert_eq!(editor.cell_order, vec!["one", "two", "three", "four"]);
    assert_eq!(editor.cell_count(), 4);
    assert_eq!(editor.selected_index(), 2);
}

#[test]
fn deleting_undoes_duplicating() {
    let (mut editor, _) = open();
    editor.set_selected_index(1, false);
    editor.duplicate_selected_cell();
    assert_eq!(editor.cell_order.len(), 5);
    editor.delete_selected_cell();
    assert_eq!(editor.cell_order, vec!["one", "two", "three", "four"]);
    assert_eq!(editor.cell_count(), 4);
}

#[test]
fn the_selection_follows_a_deletion() {
    let (mut editor, _) = open();
    editor.set_selected_index(3, false);
    editor.delete_selected_cell();
    assert_eq!(editor.selected_index(), 2);
    for _ in 0..3 {
        editor.delete_selected_cell();
    }
    assert_eq!(editor.cell_count(), 0);
    assert_eq!(editor.selected_index(), 0);
    assert_eq!(editor.cell_list.item_count, 0);
    editor.delete_selected_cell();
    assert_eq!(editor.cell_count(), 0);
}

#[test]
fn cells_are_selected_one_by_one() {
    let (mut editor, _) = open();
    editor.select_next();
    assert_eq!(editor.selected_index(), 1);
    assert_eq!(editor.cell_list.revealed, Some(1));
    editor.select_last();
    assert_eq!(editor.selected_index(), 3);
    editor.select_next();
    assert_eq!(editor.selected_index(), 3);
    editor.select_previous();
    assert_eq!(editor.selected_index(), 2);
    editor.select_first();
    assert_eq!(editor.selected_index(), 0);
    editor.select_previous();
    assert_eq!(editor.selected_index(), 0);
}

#[test]
fn nothing_is_selected_in_an_empty_notebook() {
    let (mut editor, _) = open_text("");
    editor.stale = false;
    editor.select_next();
    editor.select_previous();
    editor.select_first();
    editor.select_last();
    assert_eq!(editor.selected_index(), 0);
    assert_eq!(editor.cell_list.revealed, None);
    assert!(!editor.stale);
    assert_eq!(editor.cell_position(0), CellPosition::First);
}

#[test]
fn selecting_scrolls_only_where_asked_to() {
    let (mut editor, _) = open();
    editor.set_selected_index(2, false);
    assert_eq!(editor.cell_list.revealed, None);
    editor.set_selected_index(2, true);
    assert_eq!(editor.cell_list.revealed, Some(2));
}

#[test]
fn only_texts_can_be_searched() {
    let (mut editor, _) = open();
    assert_eq!(editor.selected_editor(), Some("one".to_string()));
    editor.set_selected_index(1, false);
    assert_eq!(editor.selected_editor(), Some("two".to_string()));
    editor.set_selected_index(2, false);
    assert_eq!(editor.selected_editor(), None);
}

#[test]
fn cells_know_where_they_are_drawn() {
    let (mut editor, _) = open();
    editor.set_selected_index(1, false);
    for index in 0..4 {
        editor.render_cell(index);
    }
    assert_eq!(editor.cell_position(2), CellPosition::Middle);
    match cell(&editor, "one") {
        EditorCell::Code(cell) => {
            assert!(!cell.selected);
            assert_eq!(cell.position, Some(CellPosition::First));
        }
        _ => panic!("the first cell is a code cell"),
    }
    match cell(&editor, "two") {
        EditorCell::Markdown(cell) => {
            assert!(cell.selected);
            assert_eq!(cell.position, Some(CellPosition::Middle));
        }
        _ => panic!("the second cell is a Markdown cell"),
    }
    match cell(&editor, "four") {
        EditorCell::Code(cell) => assert_eq!(cell.position, Some(CellPosition::Last)),
        _ => panic!("the fourth cell is a code cell"),
    }
}

#[test]
fn the_history_reaches_every_text() {
    let (mut editor, _) = open();
    editor.set_nav_history(6);
    match (cell(&editor, "one"), cell(&editor, "two")) {
        (EditorCell::Code(code), EditorCell::Markdown(markdown)) => {
            assert_eq!(code.nav_history, Some(6));
            assert_eq!(markdown.nav_history, Some(6));
        }
        _ => panic!("the cells have texts"),
    }
}

#[test]
fn code_is_shown_in_one_language() {
    let (mut editor, _) = open();
    editor.refresh_language(Some(2));
    editor.add_code_block();
    let ids = editor.cell_order.clone();
    for id in ids {
        if let EditorCell::Code(cell) = cell(&editor, &id) {
            assert_eq!(cell.language, Some(2));
        }
    }
    editor.refresh_language(None);
    assert_eq!(editor.notebook_language, None);
}

#[test]
fn a_split_shows_what_was_opened() {
    let (mut editor, mut item) = open();
    editor.delete_selected_cell();
    let (other, launch) = editor.clone_on_split(&mut item, None, &Vec::new(), directories());
    assert_eq!(other.cell_order, vec!["one", "two", "three", "four"]);
    assert_eq!(launch.specification.name(), "python3");
    assert_eq!(launch.directory, "/p/notes");
}

#[test]
fn what_was_saved_is_reloaded() {
    let (mut editor, mut item) = open();
    edit(&mut editor, "four", "changed");
    editor.move_cell_down();
    let text = match editor.save(&item) {
        Ok(file) => file.text,
        Err(_) => panic!("the notebook can be written"),
    };
    editor.select_first();
    editor.delete_selected_cell();
    assert!(editor.reload(&mut item, &text).is_ok());
    assert_eq!(editor.cell_order, vec!["two", "one", "three", "four"]);
    assert_eq!(item.notebook.cells[1].source, vec!["x = 1\n", "x"]);
    assert_eq!(item.notebook.cells[3].source, vec!["changed"]);
    match &item.notebook.cells[1].content {
        CellContent::Code { execution_count, .. } => assert_eq!(*execution_count, Some(3)),
        _ => panic!("the cell is a code cell"),
    }
}

#[test]
fn a_duplicate_gets_the_identifier_it_is_given() {
    let (mut editor, _) = open();
    editor.set_selected_index(1, false);
    editor.duplicate_selected_cell_as("copy".to_string());
    assert_eq!(editor.cell_order, vec!["one", "two", "copy", "three", "four"]);
    match cell(&editor, "copy") {
        EditorCell::Markdown(cell) => assert_eq!(cell.rendered, "# Title"),
        _ => panic!("the cell is a Markdown cell"),
    }
    let stored = cell(&editor, "three").to_notebook_cell();
    editor.set_selected_index(0, false);
    // A cell under an identifier that is in use takes the place of the one that had it.
    editor.add_cell(&stored);
    assert_eq!(editor.cell_order, vec!["one", "three", "two", "copy", "three", "four"]);
    assert_eq!(editor.cell_count(), 5);
    // Deleting it removes each occurrence.
    editor.delete_selected_cell();
    assert_eq!(editor.cell_order, vec!["one", "two", "copy", "four"]);
}

#[test]
fn moving_and_adding_keep_the_other_cells() {
    let (mut editor, item) = open();
    let before = editor.to_notebook(&item);
    editor.set_selected_index(1, false);
    editor.move_cell_down();
    editor.add_code_block();
    let after = editor.to_notebook(&item);
    assert_eq!(after.cells.len(), before.cells.len() + 1);
    for stored in &before.cells {
        let kept: Vec<_> = after.cells.iter().filter(|cell| cell.id == stored.id).collect();
        assert_eq!(kept.len(), 1);
        assert_eq!(kept[0].source, stored.source);
    }
    let order: Vec<&str> = after.cells.iter().map(|cell| cell.id.as_str()).collect();
    assert_eq!((order[0], order[1], order[2], order[4]), ("one", "three", "two", "four"));
}
