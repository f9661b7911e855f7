use futures::channel::mpsc;
use jupyter_protocol::{JupyterMessage, JupyterMessageContent};
use notebook_editor::cell::{CellOutput, EditorCell};
use notebook_editor::completion::completions_from_reply;
use notebook_editor::execution::{CompletionError, Cursor};
use notebook_editor::item::{NotebookItem, ProjectPath};
use notebook_editor::kernel::{Directories, ExecutionState, RunningKernel};
use notebook_editor::message::{
    CompletionReply, KernelMessage, MessageContent, ReplyStatus, RequestChannel,
};
use notebook_editor::state::NotebookEditor;

const NOTEBOOK: &str = "{\"metadata\": {}, \"nbformat\": 4, \"nbformat_minor\": 5, \"cells\": [\
    {\"cell_type\": \"code\", \"id\": \"one\", \"metadata\": {}, \"execution_count\": 3, \
     \"source\": [\"x = 1\\n\", \"x\"], \"outputs\": [{\"output_type\": \"stream\", \
     \"name\": \"stdout\", \"text\": [\"1\"]}]}, \
    {\"cell_type\": \"markdown\", \"id\": \"two\", \"metadata\": {}, \"source\": [\"# Title\"]}, \
    {\"cell_type\": \"raw\", \"id\": \"three\", \"metadata\": {}, \"source\": [\"raw\"]}, \
    {\"cell_type\": \"code\", \"id\": \"four\", \"metadata\": {}, \"execution_count\": null, \
     \"source\": [\"y\"], \"outputs\": []}]}";

fn path() -> ProjectPath {
    ProjectPath {
        worktree_id: 9,
        path: "notes/n.ipynb".to_string(),
        file_name: Some("n.ipynb".to_string()),
        extension: Some("ipynb".to_string()),
    }
}

fn directories() -> Directories<&'static str> {
    Directories { notebook: Some("/p/notes"), project: Some("/p"), temporary: "/tmp" }
}

fn open_text(text: &str) -> (NotebookEditor, NotebookItem) {
    let mut item = match NotebookItem::open(path(), "/p/notes/n.ipynb".to_string(), text, Some(4)) {
        Ok(item) => item,
        Err(_) => panic!("the notebook opens"),
    };
    let (editor, _) = NotebookEditor::new(&mut item, Some(1), &Vec::new(), directories());
    (editor, item)
}

fn open() -> (NotebookEditor, NotebookItem) {
    open_text(NOTEBOOK)
}
fn start(editor: &mut NotebookEditor) -> mpsc::Receiver<JupyterMessage> {
    let (requests, receiver) = mpsc::channel(10);
    editor.kernel_launched(Ok(RunningKernel {
        execution_state: ExecutionState::Idle,
        kernel_info: None,
        channel: RequestChannel::new(requests),
    }));
    receiver
}

fn code_of(message: &JupyterMessage) -> String {
    match &message.content {
        JupyterMessageContent::ExecuteRequest(request) => request.code.clone(),
        _ => panic!("the request runs code"),
    }
}

fn executing(editor: &NotebookEditor, id: &str) -> bool {
    match editor.cell_map.get(&id.to_string()) {
        Some(cell) => cell.is_executing(),
        None => panic!("the cell exists"),
    }
}

fn remarks(editor: &NotebookEditor, id: &str) -> Vec<String> {
    match editor.cell_map.get(&id.to_string()) {
        Some(EditorCell::Code(cell)) => cell
            .outputs
            .iter()
            .map(|output| match output {
                CellOutput::Message(text) => text.clone(),
                CellOutput::Notebook(_) => "an output".to_string(),
            })
            .collect(),
        _ => panic!("the cell is a code cell"),
    }
}

fn finish(editor: &mut NotebookEditor, item: &mut NotebookItem, request: &str) {
    let message = KernelMessage {
        parent: Some(request.to_string()),
        content: MessageContent::ExecuteReply,
    };
    if let Some(id) = editor.route(item, &message) {
        if let Some(EditorCell::Code(cell)) = editor.cell_map.get_mut(&id) {
            cell.executing = false;
        }
    }
    editor.message_handled(&message);
}

fn leave(editor: &mut NotebookEditor, id: &str) {
    if let Some(EditorCell::Code(cell)) = editor.cell_map.get_mut(&id.to_string()) {
        cell.executing = true;
    }
}

#[test]
fn a_taken_cell_is_running() {
    let (mut editor, _) = open();
    let mut requests = start(&mut editor);
    editor.last_error = Some("an old error".to_string());
    editor.execute_cell("one".to_string());
    assert!(executing(&editor, "one"));
    assert!(remarks(&editor, "one").is_empty());
    assert_eq!(editor.last_error, None);

    let message = match requests.try_recv() {
        Ok(message) => message,
        Err(_) => panic!("the kernel got a request"),
    };
    match &message.content {
        JupyterMessageContent::ExecuteRequest(request) => {
            assert_eq!(request.code, "x = 1\nx");
            assert!(!request.silent);
            assert!(request.store_history);
            assert!(!request.allow_stdin);
            assert!(request.stop_on_error);
            assert!(request.user_expressions.is_none());
        }
        _ => panic!("the request runs code"),
    }
    let running = editor.execution_requests.get(&message.header.msg_id);
    assert_eq!(running, Some(&"one".to_string()));
    assert_eq!(editor.execution_requests.len(), 1);
}

#[test]
fn only_code_cells_are_run() {
    let (mut editor, _) = open();
    let mut requests = start(&mut editor);
    for id in ["two", "three", "none"] {
        editor.execute_cell(id.to_string());
    }
    assert!(requests.try_recv().is_err());
    assert_eq!(editor.execution_requests.len(), 0);
    assert_eq!(editor.last_error, None);
}

#[test]
fn without_a_kernel_a_cell_says_so() {
    let (mut editor, _) = open();
    editor.execute_cell("one".to_string());
    assert!(!executing(&editor, "one"));
    assert_eq!(remarks(&editor, "one"), vec!["Kernel is not running."]);
    assert_eq!(editor.last_error.as_deref(), Some("Kernel is not running."));
    assert_eq!(editor.execution_requests.len(), 0);
}

#[test]
fn a_refused_cell_says_why() {
    let (mut editor, _) = open();
    drop(start(&mut editor));
    editor.execute_cell("four".to_string());
    let error = "Failed to execute cell: send failed because receiver is gone";
    assert_eq!(remarks(&editor, "four"), vec![error]);
    assert_eq!(editor.last_error.as_deref(), Some(error));
    assert!(!executing(&editor, "four"));
    assert_eq!(editor.execution_requests.len(), 0);
}

#[test]
fn a_failure_forgets_every_request_of_the_cell() {
    let (mut editor, _) = open();
    let requests = start(&mut editor);
    editor.execute_cell("one".to_string());
    editor.execute_cell("four".to_string());
    assert_eq!(editor.execution_requests.len(), 2);
    drop(requests);
    editor.execute_cell("one".to_string());
    assert_eq!(editor.execution_requests.len(), 1);
    assert!(executing(&editor, "four"));
}

#[test]
fn without_a_kernel_running_all_cells_fails() {
    let (mut editor, _) = open();
    editor.run_cells();
    assert!(!editor.run_all_in_progress);
    assert!(editor.run_all_queue.is_empty());
    for id in ["one", "four"] {
        assert_eq!(remarks(&editor, id), vec!["Kernel is not running."]);
        assert!(!executing(&editor, id));
    }
}

#[test]
fn queued_cells_run_one_at_a_time() {
    let (mut editor, mut item) = open();
    let mut requests = start(&mut editor);
    editor.run_cells();
    assert!(executing(&editor, "one"));
    assert!(!executing(&editor, "four"));
    assert_eq!(editor.run_all_queue, vec!["four"]);
    let first = match requests.try_recv() {
        Ok(message) => message,
        Err(_) => panic!("the kernel got a request"),
    };
    assert_eq!(code_of(&first), "x = 1\nx");
    assert!(requests.try_recv().is_err());

    // Still running: the next cell waits.
    editor.execute_next_queued_cell();
    assert!(requests.try_recv().is_err());

    finish(&mut editor, &mut item, &first.header.msg_id);
    assert!(executing(&editor, "four"));
    let second = match requests.try_recv() {
        Ok(message) => message,
        Err(_) => panic!("the kernel got a request"),
    };
    assert_eq!(code_of(&second), "y");
    assert!(editor.run_all_in_progress);
    finish(&mut editor, &mut item, &second.header.msg_id);
    assert!(!editor.run_all_in_progress);
    assert_eq!(editor.execution_requests.len(), 0);
}

#[test]
fn the_queue_goes_on_behind_a_refused_cell() {
    let (mut editor, _) = open();
    drop(start(&mut editor));
    editor.run_cells();
    let error = "Failed to execute cell: send failed because receiver is gone";
    assert_eq!(remarks(&editor, "one"), vec![error]);
    assert_eq!(remarks(&editor, "four"), vec![error]);
    assert!(!editor.run_all_in_progress);
}

#[test]
fn a_queued_cell_that_is_gone_stops_the_queue() {
    let (mut editor, _) = open();
    let mut requests = start(&mut editor);
    editor.run_all_queue = vec!["gone".to_string(), "four".to_string()].into();
    editor.run_all_in_progress = true;
    editor.execute_next_queued_cell();
    assert!(requests.try_recv().is_err());
    assert_eq!(editor.run_all_queue, vec!["four"]);
    assert!(editor.run_all_in_progress);
}

#[test]
fn running_a_cell_stops_the_run_of_all() {
    let (mut editor, _) = open();
    let mut requests = start(&mut editor);
    editor.run_cells();
    editor.set_selected_index(3, false);
    assert!(editor.run_current_cell().is_none());
    assert!(!editor.run_all_in_progress);
    assert!(editor.run_all_queue.is_empty());
    assert!(requests.try_recv().is_ok());
    assert!(requests.try_recv().is_ok());
    assert!(executing(&editor, "four"));
}

#[test]
fn running_markdown_shows_it_and_moves_on() {
    let (mut editor, _) = open();
    editor.set_selected_index(1, false);
    // Nothing happens to a cell that is not edited.
    assert!(editor.run_current_cell().is_none());
    assert_eq!(editor.selected_index(), 1);

    if let Some(EditorCell::Markdown(cell)) = editor.cell_map.get_mut(&"two".to_string()) {
        cell.editing = true;
        cell.source = vec!["new".to_string()];
    }
    assert!(editor.run_current_cell().is_none());
    assert_eq!(editor.selected_index(), 2);
    match editor.cell_map.get(&"two".to_string()) {
        Some(EditorCell::Markdown(cell)) => {
            assert!(!cell.editing);
            assert_eq!(cell.rendered, "new");
        }
        _ => panic!("the second cell is a Markdown cell"),
    }
    // A raw cell is not run.
    assert!(editor.run_current_cell().is_none());
    assert_eq!(editor.selected_index(), 2);
}

#[test]
fn moving_on_puts_the_focus_on_code() {
    let (mut editor, _) = open();
    assert!(editor.move_to_next_cell().is_none());
    assert!(editor.move_to_next_cell().is_none());
    let focus = editor.move_to_next_cell();
    assert_eq!(editor.selected_index(), 3);
    assert!(matches!(&focus, Some(focus) if focus.cell_id == "four"));
    assert!(matches!(&focus, Some(focus) if focus.cursor == Cursor::Unmoved));
}

#[test]
fn moving_on_at_the_end_adds_a_code_cell() {
    let (mut editor, _) = open();
    editor.select_last();
    assert!(editor.move_to_next_cell().is_none());
    assert_eq!(editor.cell_count(), 5);
    assert_eq!(editor.selected_index(), 4);
    let added = editor.cell_map.get(&editor.cell_order[4]);
    assert!(matches!(added, Some(EditorCell::Code(cell)) if cell.source.is_empty()));

    let (mut editor, _) = open_text("");
    assert!(editor.move_to_next_cell().is_none());
    assert_eq!(editor.cell_count(), 1);

    // A selection that is no place stays where it is.
    editor.set_selected_index(7, false);
    assert!(editor.move_to_next_cell().is_none());
    assert_eq!(editor.cell_count(), 1);
    assert_eq!(editor.selected_index(), 7);
}

#[test]
fn running_the_last_markdown_cell_adds_a_code_cell() {
    let (mut editor, _) = open_text("");
    editor.add_markdown_block();
    assert!(editor.run_current_cell().is_none());
    assert_eq!(editor.cell_count(), 2);
    assert_eq!(editor.selected_index(), 1);
    let first = editor.cell_map.get(&editor.cell_order[0]);
    assert!(matches!(first, Some(EditorCell::Markdown(cell)) if !cell.editing));
    let second = editor.cell_map.get(&editor.cell_order[1]);
    assert!(matches!(second, Some(EditorCell::Code(_))));
}

#[test]
fn cancelling_leaves_nothing_pending() {
    let (mut editor, _) = open();
    let _requests = start(&mut editor);
    editor.run_cells();
    assert!(editor.begin_completions(&"four".to_string(), "y", 1).is_ok());
    editor.cancel_pending_executions("a reason");
    assert_eq!(editor.execution_requests.len(), 0);
    assert_eq!(editor.completion_requests.len(), 0);
    assert!(editor.run_all_queue.is_empty());
    assert!(!editor.run_all_in_progress);
    assert_eq!(remarks(&editor, "one"), vec!["a reason"]);
    assert!(remarks(&editor, "four").is_empty());
    assert!(!executing(&editor, "one"));
}

#[test]
fn clearing_leaves_no_outputs() {
    let (mut editor, _) = open();
    assert!(editor.has_outputs());
    editor.stale = false;
    editor.clear_outputs();
    assert!(!editor.has_outputs());
    assert!(editor.stale);
    assert!(remarks(&editor, "one").is_empty());
}

#[test]
fn interrupting_asks_the_kernel() {
    let (mut editor, _) = open();
    editor.interrupt_kernel();
    assert_eq!(editor.last_error.as_deref(), Some("Kernel is not running."));

    let mut requests = start(&mut editor);
    editor.last_error = Some("an old error".to_string());
    editor.interrupt_kernel();
    assert_eq!(editor.last_error, None);
    match requests.try_recv() {
        Ok(message) => {
            assert!(matches!(message.content, JupyterMessageContent::InterruptRequest(_)));
        }
        Err(_) => panic!("the kernel got a request"),
    }
    drop(requests);
    editor.interrupt_kernel();
    assert_eq!(
        editor.last_error.as_deref(),
        Some("Failed to interrupt kernel: send failed because receiver is gone")
    );
}

#[test]
fn completions_go_to_the_one_who_asked() {
    let (mut editor, mut item) = open();
    let mut requests = start(&mut editor);
    // Two bytes in, one character.
    let code = "\u{e9}.na";
    let mut receiver = match editor.begin_completions(&"four".to_string(), code, 2) {
        Ok(receiver) => receiver,
        Err(_) => panic!("the kernel was asked"),
    };
    let message = match requests.try_recv() {
        Ok(message) => message,
        Err(_) => panic!("the kernel got a request"),
    };
    match &message.content {
        JupyterMessageContent::CompleteRequest(request) => {
            assert_eq!(request.code, code);
            assert_eq!(request.cursor_pos, 1);
        }
        _ => panic!("the request asks for completions"),
    }
    assert_eq!(editor.completion_requests.len(), 1);
    assert!(matches!(receiver.try_recv(), Ok(None)));

    let reply = KernelMessage {
        parent: Some(message.header.msg_id.clone()),
        content: MessageContent::CompleteReply(CompletionReply {
            matches: vec!["name".to_string()],
            cursor_start: 2,
            cursor_end: 4,
            status: ReplyStatus::Success,
        }),
    };
    assert!(editor.route(&mut item, &reply).is_none());
    editor.message_handled(&reply);
    assert_eq!(editor.completion_requests.len(), 0);
    let reply = match receiver.try_recv() {
        Ok(Some(reply)) => reply,
        _ => panic!("the reply has arrived"),
    };
    match completions_from_reply(code, Some(reply)) {
        Ok(responses) => {
            assert_eq!(responses.len(), 1);
            let completions = &responses[0].completions;
            assert_eq!(completions.len(), 1);
            assert_eq!(completions[0].new_text, "name");
            assert_eq!(&code[completions[0].range.start..completions[0].range.end], "na");
        }
        Err(_) => panic!("there are completions"),
    }
    assert_eq!(editor.last_error, None);
}

#[test]
fn completions_that_nobody_waits_for_are_an_error() {
    let (mut editor, mut item) = open();
    let mut requests = start(&mut editor);
    match editor.begin_completions(&"four".to_string(), "y", 1) {
        Ok(receiver) => drop(receiver),
        Err(_) => panic!("the kernel was asked"),
    }
    let request = match requests.try_recv() {
        Ok(message) => message.header.msg_id,
        Err(_) => panic!("the kernel got a request"),
    };
    let reply = KernelMessage {
        parent: Some(request),
        content: MessageContent::CompleteReply(CompletionReply {
            matches: Vec::new(),
            cursor_start: 0,
            cursor_end: 0,
            status: ReplyStatus::Success,
        }),
    };
    assert!(editor.route(&mut item, &reply).is_none());
    assert_eq!(
        editor.last_error.as_deref(),
        Some("Notebook completion request was dropped before reply arrived.")
    );
    // A second reply finds nobody.
    editor.last_error = None;
    assert!(editor.route(&mut item, &reply).is_none());
    assert_eq!(editor.last_error, None);
}

#[test]
fn a_refused_question_is_forgotten() {
    let (mut editor, _) = open();
    let error = match editor.begin_completions(&"two".to_string(), "y", 1) {
        Ok(_) => panic!("a Markdown cell has no code"),
        Err(error) => error,
    };
    assert!(matches!(error, CompletionError::NotACodeCell));
    assert_eq!(error.message(), "completion requested for non-code cell");
    assert_eq!(editor.last_error, None);

    let error = match editor.request_cell_completions(&"four".to_string(), "y".to_string(), 1) {
        Ok(_) => panic!("there is no kernel"),
        Err(error) => error,
    };
    assert!(matches!(error, CompletionError::KernelNotRunning));
    assert_eq!(error.message(), "kernel is not running");
    assert_eq!(editor.last_error.as_deref(), Some("Kernel is not running."));

    drop(start(&mut editor));
    let error = match editor.begin_completions(&"four".to_string(), "y", 1) {
        Ok(_) => panic!("nobody listens"),
        Err(error) => error,
    };
    assert!(matches!(error, CompletionError::Refused(_)));
    assert_eq!(
        error.message(),
        "failed to request completions: send failed because receiver is gone"
    );
    assert_eq!(
        editor.last_error.as_deref(),
        Some("Failed to request completions: send failed because receiver is gone")
    );
    assert_eq!(editor.completion_requests.len(), 0);
}

#[test]
fn a_cell_that_is_already_running_holds_up_the_queue() {
    let (mut editor, _) = open();
    let mut requests = start(&mut editor);
    leave(&mut editor, "four");
    editor.run_cells();
    assert!(requests.try_recv().is_err());
    assert_eq!(editor.run_all_queue, vec!["one", "four"]);
    assert!(editor.run_all_in_progress);
}

#[test]
fn errors_are_forgotten_quietly() {
    let (mut editor, _) = open();
    editor.stale = false;
    editor.clear_last_error();
    assert!(!editor.stale);
    editor.set_last_error("an error".to_string());
    assert!(editor.stale);
    editor.stale = false;
    editor.clear_last_error();
    assert!(editor.stale);
    assert_eq!(editor.last_error, None);
}

#[test]
fn what_became_of_a_request_is_taken_note_of() {
    let (mut editor, _) = open();
    let _requests = start(&mut editor);
    let id = "four".to_string();
    editor.start_execution(&id, "request".to_string());
    assert!(executing(&editor, "four"));
    assert_eq!(editor.execution_requests.get(&"request".to_string()), Some(&id));
    editor.last_error = Some("an old error".to_string());
    editor.execution_answered(&id, Some(Ok(())));
    assert_eq!(editor.last_error, None);
    assert!(executing(&editor, "four"));
    editor.execution_answered(&id, Some(Err("no".to_string())));
    assert_eq!(editor.last_error.as_deref(), Some("Failed to execute cell: no"));
    assert_eq!(remarks(&editor, "four"), vec!["Failed to execute cell: no"]);
    assert_eq!(editor.execution_requests.len(), 0);
    editor.start_execution(&id, "request".to_string());
    editor.execution_answered(&id, None);
    assert_eq!(remarks(&editor, "four"), vec!["Kernel is not running."]);

    editor.interrupt_answered(Some(Ok(())));
    assert_eq!(editor.last_error, None);
    editor.interrupt_answered(Some(Err("no".to_string())));
    assert_eq!(editor.last_error.as_deref(), Some("Failed to interrupt kernel: no"));
    editor.interrupt_answered(None);
    assert_eq!(editor.last_error.as_deref(), Some("Kernel is not running."));
}

#[test]
fn what_became_of_a_question_is_taken_note_of() {
    let (mut editor, _) = open();
    let _requests = start(&mut editor);
    assert!(editor.begin_completions(&"four".to_string(), "y", 1).is_ok());
    let request = editor.completion_requests.entries[0].0.clone();
    assert!(editor.question_answered(&request, Some(Ok(()))).is_ok());
    assert_eq!(editor.completion_requests.len(), 1);
    assert!(editor.question_answered(&"another".to_string(), None).is_err());
    assert_eq!(editor.completion_requests.len(), 1);
    let refused = editor.question_answered(&request, Some(Err("no".to_string())));
    assert!(matches!(refused, Err(CompletionError::Refused(reason)) if reason == "no"));
    assert_eq!(editor.completion_requests.len(), 0);
    assert_eq!(editor.last_error.as_deref(), Some("Failed to request completions: no"));

    editor.last_error = None;
    editor.completion_delivered(true);
    assert_eq!(editor.last_error, None);
    editor.completion_delivered(false);
    assert!(editor.last_error.is_some());
}
