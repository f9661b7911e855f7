use futures::channel::mpsc;
use jupyter_protocol::JupyterMessage;
use notebook_editor::cell::{CellOutput, EditorCell};
use notebook_editor::item::{NotebookItem, ProjectPath};
use notebook_editor::kernel::{
    default_python_kernel_specification, Directories, ExecutionState, HelpLink, Kernel,
    KernelEditorMode, KernelInfo, KernelLanguage, KernelSpecification, KernelStatus,
    LocalKernelSpecification, RunningKernel,
};
use notebook_editor::message::{KernelMessage, MessageContent, ReplyStatus, RequestChannel};
use notebook_editor::state::NotebookEditor;

const NOTEBOOK: &str = "{\"metadata\": {}, \"nbformat\": 4, \"nbformat_minor\": 5, \"cells\": [\
    {\"cell_type\": \"code\", \"id\": \"one\", \"metadata\": {}, \"execution_count\": 3, \
     \"source\": [\"x = 1\\n\", \"x\"], \"outputs\": [{\"output_type\": \"stream\", \
     \"name\": \"stdout\", \"text\": [\"1\"]}]}, \
    {\"cell_type\": \"markdown\", \"id\": \"two\", \"metadata\": {}, \"source\": [\"# Title\"]}, \
    {\"cell_type\": \"raw\", \"id\": \"three\", \"metadata\": {}, \"source\": [\"raw\"]}, \
    {\"cell_type\": \"code\", \"id\": \"four\", \"metadata\": {}, \"execution_count\": null, \
     \"source\": [\"y\"], \"outputs\": []}]}";

fn path() -> ProjectPath {
    ProjectPath {
        worktree_id: 9,
        path: "notes/n.ipynb".to_string(),
        file_name: Some("n.ipynb".to_string()),
        extension: Some("ipynb".to_string()),
    }
}

fn directories() -> Directories<&'static str> {
    Directories { notebook: Some("/p/notes"), project: Some("/p"), temporary: "/tmp" }
}

fn open_text(text: &str) -> (NotebookEditor, NotebookItem) {
    let mut item = match NotebookItem::open(path(), "/p/notes/n.ipynb".to_string(), text, Some(4)) {
        Ok(item) => item,
        Err(_) => panic!("the notebook opens"),
    };
    let (editor, _) = NotebookEditor::new(&mut item, Some(1), &Vec::new(), directories());
    (editor, item)
}

fn open() -> (NotebookEditor, NotebookItem) {
    open_text(NOTEBOOK)
}
fn start(editor: &mut NotebookEditor) -> mpsc::Receiver<JupyterMessage> {
    let (requests, receiver) = mpsc::channel(10);
    editor.kernel_launched(Ok(RunningKernel {
        execution_state: ExecutionState::Idle,
        kernel_info: None,
        channel: RequestChannel::new(requests),
    }));
    receiver
}

fn remarks(editor: &NotebookEditor, id: &str) -> Vec<String> {
    match editor.cell_map.get(&id.to_string()) {
        Some(EditorCell::Code(cell)) => cell
            .outputs
            .iter()
            .map(|output| match output {
                CellOutput::Message(text) => text.clone(),
                CellOutput::Notebook(_) => "an output".to_string(),
            })
            .collect(),
        _ => panic!("the cell is a code cell"),
    }
}

fn other_kernel() -> KernelSpecification {
    match default_python_kernel_specification() {
        KernelSpecification::Jupyter(local) => {
            KernelSpecification::PythonEnv(LocalKernelSpecification {
                name: "env".to_string(),
                path: local.path,
                kernelspec: local.kernelspec,
            })
        }
        _ => panic!("Python runs on this machine"),
    }
}

fn status(state: ExecutionState) -> KernelMessage {
    KernelMessage { parent: None, content: MessageContent::Status(state) }
}

fn language() -> KernelLanguage {
    KernelLanguage {
        name: "python".to_string(),
        version: "3.12.1".to_string(),
        mimetype: Some("text/x-python".to_string()),
        file_extension: Some(".py".to_string()),
        pygments_lexer: None,
        codemirror_mode: Some(KernelEditorMode::Custom { name: "ipython".to_string(), version: 3 }),
        nbconvert_exporter: None,
    }
}

fn info() -> KernelInfo {
    KernelInfo {
        status: ReplyStatus::Success,
        protocol_version: "5.3".to_string(),
        implementation: "ipython".to_string(),
        implementation_version: "8.0".to_string(),
        language_info: language(),
        banner: "Python 3".to_string(),
        help_links: vec![HelpLink { text: "Help".to_string(), url: "https://h".to_string() }],
        debugger: true,
        error: None,
    }
}

#[test]
fn a_kernel_starts() {
    let (mut editor, _) = open();
    editor.last_error = Some("an old error".to_string());
    let _requests = start(&mut editor);
    assert_eq!(editor.kernel.status(), KernelStatus::Idle);
    assert_eq!(editor.last_error, None);

    editor.kernel_launched(Err("no such file".to_string()));
    assert!(matches!(&editor.kernel, Kernel::ErroredLaunch(error) if error == "no such file"));
    assert_eq!(
        editor.last_error.as_deref(),
        Some("Failed to launch kernel: no such file")
    );
}

#[test]
fn changing_the_kernel_gives_up_what_runs() {
    let (mut editor, mut item) = open();
    let _requests = start(&mut editor);
    editor.run_cells();
    editor.mark_as_saved();
    let launch = editor.change_kernel(&mut item, other_kernel(), directories());
    assert!(launch.shut_down);
    assert!(launch.native);
    assert_eq!(launch.specification.name(), "env");
    assert_eq!(launch.directory, "/p/notes");
    assert_eq!(remarks(&editor, "one"), vec!["Kernel changed before execution finished."]);
    assert!(!editor.run_all_in_progress);
    assert_eq!(editor.kernel.status(), KernelStatus::Starting);
    assert!(editor.has_metadata_changes());
    let spec = item.notebook.metadata.kernelspec.as_ref();
    assert_eq!(spec.map(|spec| spec.name.as_str()), Some("env"));
    assert_eq!(spec.map(|spec| spec.display_name.as_str()), Some("Python 3"));
}

#[test]
fn restarting_starts_the_same_kernel() {
    let (mut editor, mut item) = open();
    let _requests = start(&mut editor);
    editor.execute_cell("four".to_string());
    let launch = match editor.restart_kernel(&mut item, directories()) {
        Some(launch) => launch,
        None => panic!("the editor uses a kernel"),
    };
    assert_eq!(launch.specification.name(), "python3");
    assert!(launch.shut_down);
    assert_eq!(remarks(&editor, "four"), vec!["Kernel restarted before execution finished."]);
    assert_eq!(editor.execution_requests.len(), 0);

    editor.kernel_specification = None;
    assert!(editor.restart_kernel(&mut item, directories()).is_none());
}

#[test]
fn a_kernel_in_use_is_started_again() {
    let (mut editor, mut item) = open();
    editor.change_kernel(&mut item, other_kernel(), directories());
    let launch = editor.launch_kernel(&mut item, &Vec::new(), directories());
    assert_eq!(launch.specification.name(), "env");
    assert!(!launch.shut_down);
}

#[test]
fn a_broken_kernel_gives_up_what_runs() {
    let (mut editor, _) = open();
    let _requests = start(&mut editor);
    editor.execute_cell("one".to_string());
    editor.kernel_errored("it died".to_string());
    assert_eq!(remarks(&editor, "one"), vec!["Kernel errored before execution finished."]);
    assert!(matches!(&editor.kernel, Kernel::ErroredLaunch(error) if error == "it died"));
    assert_eq!(editor.last_error.as_deref(), Some("Kernel error: it died"));
}

#[test]
fn the_kernel_tells_what_it_is_doing() {
    let (mut editor, mut item) = open();
    let _requests = start(&mut editor);
    assert!(editor.route(&mut item, &status(ExecutionState::Busy)).is_none());
    assert_eq!(editor.kernel.status(), KernelStatus::Busy);
    assert!(editor.route(&mut item, &status(ExecutionState::Dead)).is_none());
    assert_eq!(editor.kernel.status(), KernelStatus::Error);
}

#[test]
fn an_idle_kernel_gets_the_next_cell() {
    let (mut editor, mut item) = open();
    let mut requests = start(&mut editor);
    editor.run_all_queue = vec!["four".to_string()].into();
    editor.run_all_in_progress = true;
    assert!(editor.route(&mut item, &status(ExecutionState::Busy)).is_none());
    assert!(requests.try_recv().is_err());
    assert!(editor.route(&mut item, &status(ExecutionState::Idle)).is_none());
    assert!(requests.try_recv().is_ok());
    assert!(editor.run_all_queue.is_empty());
}

#[test]
fn the_kernel_tells_its_language() {
    let (mut editor, mut item) = open();
    let _requests = start(&mut editor);
    editor.mark_as_saved();
    item.changed = false;
    let message = KernelMessage {
        parent: None,
        content: MessageContent::KernelInfoReply(info()),
    };
    assert!(editor.route(&mut item, &message).is_none());
    assert!(editor.has_metadata_changes());
    assert!(item.changed);
    match &editor.kernel {
        Kernel::Running(RunningKernel { kernel_info: Some(told), .. }) => {
            assert_eq!(told.status, ReplyStatus::Success);
            assert_eq!(told.protocol_version, "5.3");
            assert_eq!(told.implementation, "ipython");
            assert_eq!(told.implementation_version, "8.0");
            assert_eq!(told.language_info.version, "3.12.1");
            assert_eq!(told.banner, "Python 3");
            assert_eq!(told.help_links.len(), 1);
            assert_eq!(told.help_links[0].url, "https://h");
            assert!(told.debugger);
            assert!(told.error.is_none());
        }
        _ => panic!("the kernel runs and has told about itself"),
    }
    let info = match &item.notebook.metadata.language_info {
        Some(info) => info,
        None => panic!("the language is known"),
    };
    assert_eq!(info.name, "python");
    assert_eq!(info.version.as_deref(), Some("3.12.1"));
    assert_eq!(info.additional.len(), 2);
    assert_eq!(info.additional["mimetype"], serde_json::Value::from("text/x-python"));
    assert_eq!(info.additional["file_extension"], serde_json::Value::from(".py"));
    match &info.codemirror_mode {
        Some(nbformat::v4::CodemirrorMode::Object(mode)) => {
            assert_eq!(mode["name"], serde_json::Value::from("ipython"));
            assert_eq!(mode["version"], serde_json::Value::from(3));
        }
        _ => panic!("the mode is kept"),
    }
    assert_eq!(item.language_name(), Some("python".to_string()));
}

#[test]
fn outputs_go_to_the_cell_that_asked() {
    let (mut editor, mut item) = open();
    let mut requests = start(&mut editor);
    editor.execute_cell("one".to_string());
    let request = match requests.try_recv() {
        Ok(message) => message.header.msg_id,
        Err(_) => panic!("the kernel got a request"),
    };
    let output = KernelMessage { parent: Some(request.clone()), content: MessageContent::Other };
    assert_eq!(editor.route(&mut item, &output), Some("one".to_string()));
    editor.message_handled(&output);
    assert_eq!(editor.execution_requests.len(), 1);

    let stranger = KernelMessage {
        parent: Some("another".to_string()),
        content: MessageContent::ExecuteReply,
    };
    assert_eq!(editor.route(&mut item, &stranger), None);
    editor.message_handled(&stranger);
    assert_eq!(editor.execution_requests.len(), 1);

    let done = KernelMessage { parent: Some(request), content: MessageContent::ExecuteReply };
    assert_eq!(editor.route(&mut item, &done), Some("one".to_string()));
    editor.message_handled(&done);
    assert_eq!(editor.execution_requests.len(), 0);
    // Afterwards nothing is expected any more.
    assert_eq!(editor.route(&mut item, &done), None);
}
