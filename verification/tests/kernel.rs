use std::collections::HashMap;

use notebook_editor::item::{NotebookItem, ProjectPath};
use notebook_editor::kernel::{
    default_python_kernel_specification, pick_specification, resolve_specification, Directories,
    ExecutionState, JupyterKernelspec, Kernel, KernelInfo, KernelLanguage, KernelSpecification,
    KernelStatus,
    LocalKernelSpecification, RemoteKernelSpecification, ReplyError, RunningKernel,
};
use notebook_editor::message::{ReplyStatus, RequestChannel};
use notebook_editor::notebook::KernelspecMetadata;
use notebook_editor::state::NotebookEditor;

fn kernelspec(display_name: &str, language: &str) -> JupyterKernelspec {
    JupyterKernelspec {
        argv: Vec::new(),
        display_name: display_name.to_string(),
        language: language.to_string(),
        interrupt_mode: None,
        metadata: None,
        env: None,
    }
}

fn local(name: &str, language: &str) -> KernelSpecification {
    KernelSpecification::Jupyter(LocalKernelSpecification {
        name: name.to_string(),
        path: name.to_string(),
        kernelspec: kernelspec(name, language),
    })
}

fn remote(name: &str, language: &str) -> KernelSpecification {
    KernelSpecification::Remote(RemoteKernelSpecification {
        name: name.to_string(),
        url: "http://localhost".to_string(),
        token: String::new(),
        kernelspec: kernelspec(name, language),
    })
}

fn metadata(name: &str, language: Option<&str>) -> KernelspecMetadata {
    KernelspecMetadata {
        display_name: "A kernel".to_string(),
        name: name.to_string(),
        language: language.map(|language| language.to_string()),
        additional: HashMap::new(),
    }
}

fn running(state: ExecutionState) -> Kernel {
    let (requests, _receiver) = futures::channel::mpsc::channel(1);
    Kernel::Running(RunningKernel {
        execution_state: state,
        kernel_info: None,
        channel: RequestChannel::new(requests),
    })
}

#[test]
fn the_kernel_to_fall_back_on_is_python() {
    let specification = default_python_kernel_specification();
    assert_eq!(specification.name(), "python3");
    assert_eq!(specification.language(), "python");
    assert_eq!(specification.display_name(), "Python 3");
    assert!(specification.is_native());
    match specification {
        KernelSpecification::Jupyter(local) => {
            assert_eq!(local.path, "python3");
            assert_eq!(
                local.kernelspec.argv,
                vec!["python3", "-m", "ipykernel_launcher", "-f", "{connection_file}"]
            );
        }
        _ => panic!("it is a kernel on this machine"),
    }
}

#[test]
fn the_first_kernel_of_the_name_is_picked() {
    let names = vec!["a".to_string(), "b".to_string(), "b".to_string()];
    let languages = vec!["x".to_string(), "y".to_string(), "x".to_string()];
    let text = |text: &str| Some(text.to_string());
    assert_eq!(pick_specification(&names, &languages, &text("b"), &text("x")), Some(1));
    assert_eq!(pick_specification(&names, &languages, &text("c"), &text("x")), Some(0));
    assert_eq!(pick_specification(&names, &languages, &None, &text("y")), Some(1));
    assert_eq!(pick_specification(&names, &languages, &text("c"), &text("z")), None);
    assert_eq!(pick_specification(&names, &languages, &None, &None), None);
}

#[test]
fn the_name_goes_before_the_language() {
    let available = vec![local("julia-1.9", "julia"), local("Python3", "python")];
    let resolved = resolve_specification(&Some(metadata("PYTHON3", Some("Julia"))), &available);
    assert_eq!(resolved.map(|kernel| kernel.name().clone()), Some("Python3".to_string()));
}

#[test]
fn the_language_decides_where_the_name_is_unknown() {
    let available = vec![local("ir", "R"), remote("julia-1.9", "Julia")];
    let resolved = resolve_specification(&Some(metadata("gone", Some("JULIA"))), &available);
    assert_eq!(resolved.map(|kernel| kernel.name().clone()), Some("julia-1.9".to_string()));
    assert!(resolve_specification(&Some(metadata("gone", None)), &available).is_none());
    assert!(resolve_specification(&Some(metadata("gone", Some("go"))), &available).is_none());
    assert!(resolve_specification(&None, &available).is_none());
    assert!(resolve_specification(&Some(metadata("ir", None)), &Vec::new()).is_none());
}

#[test]
fn additional_members_go_before_fields() {
    let available = vec![local("ir", "R"), local("julia-1.9", "julia")];
    let mut wanted = metadata("ir", None);
    let other = serde_json::Value::String("Julia-1.9".to_string());
    wanted.additional.insert("name".to_string(), other);
    let resolved = resolve_specification(&Some(wanted), &available);
    assert_eq!(resolved.map(|kernel| kernel.name().clone()), Some("julia-1.9".to_string()));

    let mut wanted = metadata("ir", Some("julia"));
    wanted.additional.insert("name".to_string(), serde_json::Value::Bool(true));
    let resolved = resolve_specification(&Some(wanted), &available);
    assert_eq!(resolved.map(|kernel| kernel.name().clone()), Some("julia-1.9".to_string()));
}

#[test]
fn a_kernel_has_a_status() {
    let statuses = [
        (ExecutionState::Idle, KernelStatus::Idle),
        (ExecutionState::Busy, KernelStatus::Busy),
        (ExecutionState::Starting, KernelStatus::Starting),
        (ExecutionState::Restarting, KernelStatus::Restarting),
        (ExecutionState::AutoRestarting, KernelStatus::Restarting),
        (ExecutionState::Terminating, KernelStatus::ShuttingDown),
        (ExecutionState::Dead, KernelStatus::Error),
        (ExecutionState::Unknown, KernelStatus::Error),
        (ExecutionState::Other("odd".to_string()), KernelStatus::Error),
    ];
    for (state, status) in statuses {
        assert_eq!(running(state).status(), status);
    }
    assert_eq!(Kernel::Starting.status(), KernelStatus::Starting);
    assert_eq!(Kernel::ErroredLaunch(String::new()).status(), KernelStatus::Error);
    assert_eq!(Kernel::ShuttingDown.status(), KernelStatus::ShuttingDown);
    assert_eq!(Kernel::Shutdown.status(), KernelStatus::Shutdown);
    assert_eq!(Kernel::Restarting.status(), KernelStatus::Restarting);
}

fn info() -> KernelInfo {
    KernelInfo {
        status: ReplyStatus::Error,
        protocol_version: "5.3".to_string(),
        implementation: "x".to_string(),
        implementation_version: "1".to_string(),
        language_info: KernelLanguage {
            name: "python".to_string(),
            version: "3".to_string(),
            mimetype: None,
            file_extension: None,
            pygments_lexer: None,
            codemirror_mode: None,
            nbconvert_exporter: None,
        },
        banner: String::new(),
        help_links: Vec::new(),
        debugger: false,
        error: Some(ReplyError {
            ename: "E".to_string(),
            evalue: "v".to_string(),
            traceback: vec!["t".to_string()],
        }),
    }
}

#[test]
fn only_a_running_kernel_tells_its_state() {
    let mut kernel = running(ExecutionState::Idle);
    kernel.set_execution_state(&ExecutionState::Busy);
    assert_eq!(kernel.status(), KernelStatus::Busy);
    kernel.set_kernel_info(&info());
    match &kernel {
        Kernel::Running(RunningKernel { kernel_info: Some(told), .. }) => {
            assert_eq!(told.status, ReplyStatus::Error);
            assert!(matches!(&told.error, Some(error) if error.traceback == vec!["t"]));
        }
        _ => panic!("the kernel runs and has told about itself"),
    }

    let mut kernel = Kernel::Shutdown;
    kernel.set_execution_state(&ExecutionState::Busy);
    kernel.set_kernel_info(&info());
    assert_eq!(kernel.status(), KernelStatus::Shutdown);
    assert!(!kernel.is_running());
}

#[test]
fn the_directory_of_the_notebook_goes_first() {
    let directories = |notebook: Option<&'static str>, project: Option<&'static str>| Directories {
        notebook,
        project,
        temporary: "/tmp",
    };
    assert_eq!(directories(Some("/a"), Some("/b")).choose_directory(), "/a");
    assert_eq!(directories(None, Some("/b")).choose_directory(), "/b");
    assert_eq!(directories(None, None).choose_directory(), "/tmp");
}

#[test]
fn an_opened_notebook_gets_the_kernel_it_asks_for() {
    let content = "{\"metadata\": {\"kernelspec\": {\"display_name\": \"J\", \"name\": \"julia-1.9\", \
        \"language\": \"julia\"}}, \"nbformat\": 4, \"nbformat_minor\": 5, \"cells\": []}";
    let path = ProjectPath {
        worktree_id: 1,
        path: "n.ipynb".to_string(),
        file_name: Some("n.ipynb".to_string()),
        extension: Some("ipynb".to_string()),
    };
    let mut item = match NotebookItem::open(path, "/p/n.ipynb".to_string(), content, Some(1)) {
        Ok(item) => item,
        Err(_) => panic!("the notebook opens"),
    };
    let available = vec![local("python3", "python"), remote("Julia-1.9", "julia")];
    let directories = Directories { notebook: Some("/p"), project: None, temporary: "/tmp" };
    let (editor, launch) = NotebookEditor::new(&mut item, None, &available, directories);
    assert_eq!(launch.specification.name(), "Julia-1.9");
    assert!(!launch.native);
    assert!(!launch.shut_down);
    assert_eq!(launch.directory, "/p");
    assert!(matches!(editor.kernel, Kernel::Starting));

    // The metadata now describe the kernel that was chosen.
    let spec = item.notebook.metadata.kernelspec.as_ref();
    assert_eq!(spec.map(|spec| spec.name.as_str()), Some("Julia-1.9"));
    assert_eq!(spec.and_then(|spec| spec.language.as_deref()), Some("julia"));
    assert!(item.changed);
    assert!(editor.has_metadata_changes());
}
