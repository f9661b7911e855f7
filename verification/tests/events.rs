use notebook_editor::cell::EditorCell;
use notebook_editor::controls::{Action, Click, Color, IconName};
use notebook_editor::events::CellEvent;
use notebook_editor::execution::Cursor;
use notebook_editor::item::{NotebookItem, ProjectPath};
use notebook_editor::kernel::{Directories, ExecutionState, Kernel, KernelStatus, RunningKernel};
use notebook_editor::message::RequestChannel;
use notebook_editor::registration::{init, notebook_editor_enabled, Availability};
use notebook_editor::state::NotebookEditor;

const NOTEBOOK: &str = "{\"metadata\": {}, \"nbformat\": 4, \"nbformat_minor\": 5, \"cells\": [\
    {\"cell_type\": \"code\", \"id\": \"one\", \"metadata\": {}, \"execution_count\": 3, \
     \"source\": [\"x = 1\\n\", \"x\"], \"outputs\": [{\"output_type\": \"stream\", \
     \"name\": \"stdout\", \"text\": [\"1\"]}]}, \
    {\"cell_type\": \"markdown\", \"id\": \"two\", \"metadata\": {}, \"source\": [\"# Title\"]}, \
    {\"cell_type\": \"raw\", \"id\": \"three\", \"metadata\": {}, \"source\": [\"raw\"]}, \
    {\"cell_type\": \"code\", \"id\": \"four\", \"metadata\": {}, \"execution_count\": null, \
     \"source\": [\"y\"], \"outputs\": []}]}";

fn path() -> ProjectPath {
    ProjectPath {
        worktree_id: 9,
        path: "notes/n.ipynb".to_string(),
        file_name: Some("n.ipynb".to_string()),
        extension: Some("ipynb".to_string()),
    }
}

fn directories() -> Directories<&'static str> {
    Directories { notebook: Some("/p/notes"), project: Some("/p"), temporary: "/tmp" }
}

fn open_text(text: &str) -> (NotebookEditor, NotebookItem) {
    let mut item = match NotebookItem::open(path(), "/p/notes/n.ipynb".to_string(), text, Some(4)) {
        Ok(item) => item,
        Err(_) => panic!("the notebook opens"),
    };
    let (editor, _) = NotebookEditor::new(&mut item, Some(1), &Vec::new(), directories());
    (editor, item)
}

fn open() -> (NotebookEditor, NotebookItem) {
    open_text(NOTEBOOK)
}
fn busy() -> Kernel {
    let (requests, _receiver) = futures::channel::mpsc::channel(1);
    Kernel::Running(RunningKernel {
        execution_state: ExecutionState::Busy,
        kernel_info: None,
        channel: RequestChannel::new(requests),
    })
}

fn editing(editor: &NotebookEditor, id: &str) -> bool {
    match editor.cell_map.get(&id.to_string()) {
        Some(EditorCell::Markdown(cell)) => cell.is_editing(),
        _ => panic!("the cell is a Markdown cell"),
    }
}

#[test]
fn a_cell_with_the_focus_is_selected() {
    let (mut editor, _) = open();
    editor.stale = false;
    editor.handle_cell_event(&"four".to_string(), CellEvent::FocusedIn);
    assert_eq!(editor.selected_index(), 3);
    assert!(editor.stale);
    editor.handle_cell_event(&"two".to_string(), CellEvent::TextFocused);
    assert_eq!(editor.selected_index(), 1);
    editor.handle_cell_event(&"one".to_string(), CellEvent::TextFocused);
    assert_eq!(editor.selected_index(), 0);
    editor.handle_cell_event(&"three".to_string(), CellEvent::TextFocused);
    assert_eq!(editor.selected_index(), 0);
    editor.handle_cell_event(&"gone".to_string(), CellEvent::FocusedIn);
    assert_eq!(editor.selected_index(), 0);
}

#[test]
fn a_code_cell_asks_to_be_run() {
    let (mut editor, _) = open();
    editor.handle_cell_event(&"four".to_string(), CellEvent::Run("four".to_string()));
    assert_eq!(editor.last_error.as_deref(), Some("Kernel is not running."));
    editor.last_error = None;
    editor.handle_cell_event(&"four".to_string(), CellEvent::FinishedEditing);
    assert_eq!(editor.last_error, None);
}

#[test]
fn markdown_is_shown_once_it_has_been_edited() {
    for event in [CellEvent::FinishedEditing, CellEvent::Run("two".to_string())] {
        let (mut editor, _) = open();
        if let Some(EditorCell::Markdown(cell)) = editor.cell_map.get_mut(&"two".to_string()) {
            cell.source = vec!["new ".to_string(), "text".to_string()];
        }
        editor.handle_cell_event(&"two".to_string(), event);
        match editor.cell_map.get(&"two".to_string()) {
            Some(EditorCell::Markdown(cell)) => {
                assert_eq!(cell.rendered, "new text");
                assert!(cell.stale);
            }
            _ => panic!("the cell is a Markdown cell"),
        }
    }
}

#[test]
fn the_cursor_leaves_a_cell() {
    let (mut editor, _) = open();
    let focus = editor.move_down();
    assert!(matches!(&focus, Some(focus) if focus.cell_id == "two"));
    assert!(matches!(&focus, Some(focus) if focus.cursor == Cursor::Beginning));
    assert!(editing(&editor, "two"));
    assert!(editor.move_down().is_none());
    assert_eq!(editor.selected_index(), 2);
    let focus = editor.move_down();
    assert!(matches!(&focus, Some(focus) if focus.cell_id == "four"));
    assert!(editor.move_up().is_none());
    let focus = editor.move_up();
    assert!(matches!(&focus, Some(focus) if focus.cell_id == "two"));
    assert!(matches!(&focus, Some(focus) if focus.cursor == Cursor::End));
}

#[test]
fn actions_do_what_they_say() {
    let (mut editor, mut item) = open();
    let mut act = |editor: &mut NotebookEditor, action: Action| {
        assert!(editor.can_perform(action));
        editor.perform(&mut item, action, directories())
    };
    editor.stale = false;
    let performed = act(&mut editor, Action::OpenNotebook);
    assert!(editor.stale);
    assert!(matches!(&performed.wanted, Some(wanted) if wanted.extension == "ipynb"));
    assert!(performed.launch.is_none() && performed.focus.is_none());
    let performed = act(&mut editor, Action::ClearOutputs);
    assert!(performed.wanted.is_none());
    assert!(!editor.has_outputs());
    act(&mut editor, Action::MoveCellDown);
    assert_eq!(editor.cell_order, vec!["two", "one", "three", "four"]);
    act(&mut editor, Action::MoveCellUp);
    assert_eq!(editor.cell_order, vec!["one", "two", "three", "four"]);
    act(&mut editor, Action::AddMarkdownBlock);
    act(&mut editor, Action::AddCodeBlock);
    act(&mut editor, Action::DuplicateCell);
    assert_eq!(editor.cell_count(), 7);
    assert_eq!(editor.selected_index(), 3);
    for _ in 0..3 {
        act(&mut editor, Action::DeleteCell);
        act(&mut editor, Action::MoveUp);
    }
    assert_eq!(editor.cell_count(), 4);
    act(&mut editor, Action::RunAll);
    assert_eq!(editor.last_error.as_deref(), Some("Kernel is not running."));
    editor.last_error = None;
    act(&mut editor, Action::InterruptKernel);
    assert_eq!(editor.last_error.as_deref(), Some("Kernel is not running."));
    editor.set_selected_index(0, false);
    editor.last_error = None;
    act(&mut editor, Action::Run);
    assert_eq!(editor.last_error.as_deref(), Some("Kernel is not running."));
    let performed = act(&mut editor, Action::MoveDown);
    assert!(performed.focus.is_some());
    assert!(performed.launch.is_none());
    let performed = act(&mut editor, Action::RestartKernel);
    assert!(performed.launch.is_some());
}

#[test]
fn what_has_no_place_cannot_be_done() {
    let (mut editor, _) = open();
    editor.set_selected_index(9, false);
    assert!(!editor.can_perform(Action::MoveCellUp));
    assert!(!editor.can_perform(Action::AddMarkdownBlock));
    assert!(!editor.can_perform(Action::AddCodeBlock));
    assert!(editor.can_perform(Action::MoveCellDown));
    assert!(editor.can_perform(Action::DeleteCell));
    editor.set_selected_index(usize::MAX, false);
    assert!(!editor.can_perform(Action::MoveDown));
}

#[test]
fn controls_stand_in_groups() {
    let (mut editor, _) = open();
    let controls = editor.render_notebook_controls();
    let groups = [&controls.run, &controls.arrange, &controls.add, &controls.edit];
    let found: Vec<(&str, &str, IconName, Click)> = groups
        .iter()
        .flat_map(|group| [&group.first, &group.second])
        .map(|control| {
            assert_eq!(control.color, Color::Default);
            assert!(!control.disabled);
            (control.id.as_str(), control.tooltip.as_str(), control.icon, control.click)
        })
        .collect();
    let expected = vec![
        ("run-all-cells", "Execute all cells", IconName::PlayFilled, Action::RunAll),
        ("clear-all-outputs", "Clear all outputs", IconName::ListX, Action::ClearOutputs),
        ("move-cell-up", "Move cell up", IconName::ArrowUp, Action::MoveCellUp),
        ("move-cell-down", "Move cell down", IconName::ArrowDown, Action::MoveCellDown),
        ("new-markdown-cell", "Add markdown block", IconName::Plus, Action::AddMarkdownBlock),
        ("new-code-cell", "Add code block", IconName::Code, Action::AddCodeBlock),
        ("duplicate-cell", "Duplicate cell", IconName::Copy, Action::DuplicateCell),
        ("delete-cell", "Delete cell", IconName::Trash, Action::DeleteCell),
    ];
    for (found, expected) in found.iter().zip(&expected) {
        assert_eq!((found.0, found.1, found.2), (expected.0, expected.1, expected.2));
        assert_eq!(found.3, Click::Dispatch(expected.3));
    }
    assert_eq!(controls.more.id, "more-menu");
    assert_eq!(controls.more.click, Click::Nothing);
    assert_eq!(controls.kernel.id, "repl");
    assert_eq!(controls.kernel.color, Color::Muted);
    assert_eq!(controls.kernel.tooltip, "python3 (Starting). Click to change kernel.");
    assert_eq!(controls.kernel.click, Click::ToggleKernelPicker);

    editor.clear_outputs();
    assert!(editor.render_notebook_controls().run.second.disabled);
    editor.kernel_specification = None;
    editor.kernel = Kernel::Shutdown;
    let kernel = editor.render_notebook_controls().kernel;
    assert_eq!(kernel.tooltip, "Select Kernel (Shutdown). Click to change kernel.");
    assert_eq!(kernel.color, Color::Disabled);
}

#[test]
fn the_status_bar_shows_the_kernel() {
    let (mut editor, _) = open();
    let bar = editor.render_kernel_status_bar();
    assert_eq!(bar.selector.label, "python3");
    assert_eq!(bar.selector.control.id, "kernel-selector");
    assert_eq!(bar.selector.control.tooltip, "Kernel: python3 (Starting). Click to change.");
    assert_eq!(bar.selector.control.click, Click::ToggleKernelPicker);
    assert!(!bar.selector.control.disabled);
    assert_eq!(bar.selector.worktree_id, editor.worktree_id);
    assert!(bar.interrupt.disabled);
    assert!(!bar.restart.disabled);
    assert_eq!(bar.error, None);

    editor.kernel = busy();
    editor.last_error = Some("an error".to_string());
    let bar = editor.render_kernel_status_bar();
    assert!(!bar.interrupt.disabled);
    assert_eq!(bar.selector.control.icon, IconName::ArrowCircle);
    assert_eq!(bar.selector.control.color, Color::Warning);
    assert_eq!(bar.error.as_deref(), Some("an error"));
    assert_eq!(bar.restart.click, Click::Dispatch(Action::RestartKernel));
    assert_eq!(bar.interrupt.click, Click::Dispatch(Action::InterruptKernel));
}

#[test]
fn each_status_has_its_looks() {
    let looks = [
        (KernelStatus::Idle, "Idle", IconName::Circle, Color::Success, Color::Success),
        (KernelStatus::Busy, "Busy", IconName::ArrowCircle, Color::Warning, Color::Warning),
        (KernelStatus::Starting, "Starting", IconName::ArrowCircle, Color::Muted, Color::Muted),
        (KernelStatus::Error, "Error", IconName::XCircle, Color::Error, Color::Error),
        (
            KernelStatus::ShuttingDown,
            "Shutting Down",
            IconName::ArrowCircle,
            Color::Muted,
            Color::Muted),
        (KernelStatus::Shutdown, "Shutdown", IconName::Circle, Color::Muted, Color::Disabled),
        (
            KernelStatus::Restarting,
            "Restarting",
            IconName::ArrowCircle,
            Color::Warning,
            Color::Warning),
    ];
    for (status, words, icon, in_bar, in_controls) in looks {
        assert_eq!(status.in_words(), words);
        assert_eq!(status.status_icon(), icon);
        assert_eq!(status.status_color(), in_bar);
        assert_eq!(status.control_color(), in_controls);
    }
}

#[test]
fn the_editor_lists_every_cell() {
    let (editor, item) = open();
    let layout = editor.render();
    assert_eq!(layout.item_count, 4);
    assert_eq!(layout.status_bar.selector.label, "python3");
    assert!(!layout.controls.run.second.disabled);
    let tab = NotebookEditor::tab_content(&item, true);
    assert_eq!(tab.text, "n.ipynb");
    assert_eq!(tab.icon, IconName::Book);
    assert!(tab.italic);
}

#[test]
fn a_tab_may_have_no_name() {
    let (_, mut item) = open();
    item.project_path.file_name = None;
    assert_eq!(NotebookEditor::tab_content_text(&item), "");
}

#[test]
fn any_reason_makes_the_editor_available() {
    for bits in 0..8 {
        let availability = Availability {
            notebooks_enabled: bits & 1 != 0,
            has_flag: bits & 2 != 0,
            local_development: bits & 4 != 0,
        };
        assert_eq!(notebook_editor_enabled(&availability), bits != 0);
        assert_eq!(init(&availability).registered, bits != 0);
    }
}

#[test]
fn what_is_registered_stays_registered() {
    let nothing =
        Availability { notebooks_enabled: false, has_flag: false, local_development: false };
    let mut registration = init(&nothing);
    registration.flag_changed(false, false);
    registration.settings_changed(&nothing);
    assert!(!registration.registered);
    registration.flag_changed(false, true);
    assert!(registration.registered);
    registration.flag_changed(false, false);
    registration.settings_changed(&nothing);
    assert!(registration.registered);

    let mut registration = init(&nothing);
    registration.flag_changed(true, false);
    assert!(registration.registered);
    let mut registration = init(&nothing);
    registration.settings_changed(&Availability { has_flag: true, ..nothing });
    assert!(registration.registered);
}
