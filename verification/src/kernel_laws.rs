//! Which kernel is chosen and started, what its metadata become, and what the user is told of it.

use vstd::prelude::*;

use crate::cell::CellTest;
use crate::controls::{
    control_color, described, kernel_label, status_color, status_icon, status_in_words, tab_text,
    Action, Click, Color, Control, IconName, KernelStatusBar, NotebookControls,
};
use crate::document::opened;
use crate::execution::{opt_focus, Focus};
use crate::item::{opens_as, NotebookItem, NotebookItemView, ProjectPath, ProjectPathView};
use crate::json::{additional_member, JsonView};
use crate::kernel::{
    is_mode_json, is_pick, is_resolved, kernelspec_json, language_member, link_views,
    lower_languages, lower_names, notebook_language_of, opt_int, preferred_language, preferred_name,
    specification_views, working_directory, Directories, ExecutionState, ExecutionStateView,
    HelpLink, JupyterKernelspec, Kernel, KernelEditorModeView, KernelInfo, KernelInfoView,
    KernelLanguage, KernelLanguageView, KernelSpecification, KernelSpecificationView, KernelStatus,
    KernelView, ReplyError, RunningKernel,
};
use crate::laws::the_kernel_of_a_notebook_is_determined;
use crate::message::MessageContentView;
use crate::notebook::{
    KernelspecMetadata, KernelspecMetadataView, NotebookLanguageView, NotebookMetadataView,
    StoredNotebookView,
};
use crate::session::{is_choice, Launch};
use crate::state::EditorState;
use crate::text::lowercase;

verus! {

/// The name and the files of a kernel are those that its specification gives, on this machine or on
/// a server.
pub proof fn a_specification_tells_its_kernel(specification: KernelSpecification, i: int)
    ensures
        match specification {
            KernelSpecification::Jupyter(local) => {
                &&& specification@ is Jupyter
                &&& specification@.kernel_name() == local.name@
                &&& specification@->Jupyter_path == local.path@
                &&& specification@.spec_file() == local.kernelspec@
            },
            KernelSpecification::PythonEnv(local) => {
                &&& specification@ is PythonEnv
                &&& specification@.kernel_name() == local.name@
                &&& specification@->PythonEnv_path == local.path@
                &&& specification@.spec_file() == local.kernelspec@
            },
            KernelSpecification::Remote(remote) => {
                &&& specification@ is Remote
                &&& specification@.kernel_name() == remote.name@
                &&& specification@->url == remote.url@
                &&& specification@->token == remote.token@
                &&& specification@.spec_file() == remote.kernelspec@
            },
        },
{
}

/// What is known of a kernel is what the fields of its description hold.
pub proof fn a_description_is_its_fields(spec: JupyterKernelspec, metadata: KernelspecMetadata)
    ensures
        spec@.argv.len() == spec.argv@.len(),
        forall|i: int|
            0 <= i < spec.argv@.len() ==> #[trigger] spec@.argv[i] == spec.argv@[i]@,
        spec@.display_name == spec.display_name@,
        spec@.language == spec.language@,
        spec.interrupt_mode matches Some(mode) ==> spec@.interrupt_mode == Some(mode@),
        spec.interrupt_mode is None ==> spec@.interrupt_mode is None,
        spec.metadata matches Some(metadata) ==> spec@.metadata == Some(metadata@),
        spec.metadata is None ==> spec@.metadata is None,
        spec.env matches Some(env) ==> spec@.env == Some(env@),
        spec.env is None ==> spec@.env is None,
        metadata@.display_name == metadata.display_name@,
        metadata@.name == metadata.name@,
        metadata.language matches Some(language) ==> metadata@.language == Some(language@),
        metadata.language is None ==> metadata@.language is None,
        metadata@.additional == metadata.additional@,
{
}

/// The kernels to choose from are told one by one and in their order, and so are their names and
/// their languages in lower case.
pub proof fn kernels_are_told_in_order(available: Seq<KernelSpecification>, i: int)
    requires
        0 <= i < available.len(),
    ensures
        specification_views(available).len() == available.len(),
        specification_views(available)[i] == available[i]@,
        lower_names(specification_views(available)).len() == available.len(),
        lower_names(specification_views(available))[i] == lowercase(available[i]@.kernel_name()),
        lower_languages(specification_views(available)).len() == available.len(),
        lower_languages(specification_views(available))[i] == lowercase(
            available[i]@.spec_file().language,
        ),
        opt_int(Some(i as usize)) == Some((i as usize) as int),
        opt_int(None) is None,
{
}

/// What the metadata of a notebook ask for is the name and the language that they give, whatever
/// the case of the letters, unless an additional member says otherwise.
pub proof fn metadata_ask_by_name_and_language(metadata: KernelspecMetadataView)
    requires
        additional_member(metadata.additional, "name"@) is None,
        additional_member(metadata.additional, "language"@) is None,
    ensures
        preferred_name(Some(metadata)) == Some(lowercase(metadata.name)),
        metadata.language matches Some(language) ==> preferred_language(Some(metadata)) == Some(
            lowercase(language),
        ),
        metadata.language is None ==> preferred_language(Some(metadata)) is None,
        preferred_name(None) is None,
        preferred_language(None) is None,
{
    reveal_strlit("name");
    reveal_strlit("language");
    assert("name"@.len() == 4 && "language"@.len() == 8);
    let members = kernelspec_json(metadata)->Object_0;
    assert(members.contains_key("name"@));
    assert(members.contains_key("language"@));
}

/// An additional member of the name of a field goes before the field: a text there is what is asked
/// for, and anything else asks for nothing.
pub proof fn additional_members_go_first(metadata: KernelspecMetadataView, text: Seq<char>)
    ensures
        additional_member(metadata.additional, "name"@) == Some(JsonView::String(text))
            ==> preferred_name(Some(metadata)) == Some(lowercase(text)),
        additional_member(metadata.additional, "language"@) == Some(JsonView::String(text))
            ==> preferred_language(Some(metadata)) == Some(lowercase(text)),
        additional_member(metadata.additional, "name"@) is Some && !(additional_member(
            metadata.additional,
            "name"@,
        )->0 is String) ==> preferred_name(Some(metadata)) is None,
        additional_member(metadata.additional, "language"@) is Some && !(additional_member(
            metadata.additional,
            "language"@,
        )->0 is String) ==> preferred_language(Some(metadata)) is None,
{
    reveal_strlit("name");
    reveal_strlit("language");
    assert("name"@.len() == 4 && "language"@.len() == 8);
    let members = kernelspec_json(metadata)->Object_0;
    assert(members.contains_key("name"@));
    assert(members.contains_key("language"@));
}

/// The kernel that the metadata of a notebook ask for is the first with their name; without one it
/// is the first with their language; without one there is none.
pub proof fn the_first_fitting_kernel_is_resolved(
    metadata: KernelspecMetadataView,
    available: Seq<KernelSpecificationView>,
    resolved: Option<KernelSpecificationView>,
    i: int,
)
    requires
        is_resolved(Some(metadata), available, resolved),
        additional_member(metadata.additional, "name"@) is None,
        additional_member(metadata.additional, "language"@) is None,
    ensures
        0 <= i < available.len() && lowercase(available[i].kernel_name()) == lowercase(
            metadata.name,
        ) && (forall|j: int|
            0 <= j < i ==> lowercase((#[trigger] available[j]).kernel_name()) != lowercase(
                metadata.name,
            )) ==> resolved == Some(available[i]),
        metadata.language matches Some(language) ==> (0 <= i < available.len() && lowercase(
            available[i].spec_file().language,
        ) == lowercase(language) && (forall|j: int|
            0 <= j < i ==> lowercase((#[trigger] available[j]).spec_file().language) != lowercase(
                language,
            )) && (forall|j: int|
            0 <= j < available.len() ==> lowercase((#[trigger] available[j]).kernel_name())
                != lowercase(metadata.name)) ==> resolved == Some(available[i])),
        (forall|j: int|
            0 <= j < available.len() ==> lowercase((#[trigger] available[j]).kernel_name())
                != lowercase(metadata.name) && (metadata.language is None || lowercase(
                available[j].spec_file().language,
            ) != lowercase(metadata.language->0))) ==> resolved is None,
        resolved is Some ==> exists|j: int|
            0 <= j < available.len() && resolved == Some(#[trigger] available[j]),
{
    metadata_ask_by_name_and_language(metadata);
    let names = lower_names(available);
    let languages = lower_languages(available);
    let picked = choose|picked: Option<int>| #[trigger]
        is_pick(
            names,
            languages,
            preferred_name(Some(metadata)),
            preferred_language(Some(metadata)),
            picked,
        ) && resolved == match picked {
            Some(i) => Some(available[i]),
            None => None,
        };
    assert forall|j: int| 0 <= j < available.len() implies #[trigger] names[j] == lowercase(
        available[j].kernel_name(),
    ) && languages[j] == lowercase(available[j].spec_file().language) by {}
    if 0 <= i < available.len() {
        assert(names[i] == lowercase(available[i].kernel_name()));
        if names[i] == lowercase(metadata.name) {
            assert(names.contains(names[i]));
        }
        if let Some(language) = metadata.language {
            if languages[i] == lowercase(language) {
                assert(languages.contains(languages[i]));
            }
        }
    }
    if let Some(p) = picked {
        assert(0 <= p < available.len());
        assert(names[p] == lowercase(available[p].kernel_name()));
        if i < p {
            assert(0 <= i ==> names[i] == lowercase(available[i].kernel_name()));
        } else if p < i {
            assert(available[p] == available[p]);
        }
    }
}

/// A notebook that asks for no kernel gets none of those to choose from.
pub proof fn nothing_asked_nothing_resolved(
    available: Seq<KernelSpecificationView>,
    resolved: Option<KernelSpecificationView>,
)
    requires
        is_resolved(None, available, resolved),
    ensures
        resolved is None,
{
}

/// The kernel that is started is the one in use; without one it is the one that the notebook asks
/// for; without one it is Python.
pub proof fn the_kernel_in_use_is_started(
    current: Option<KernelSpecificationView>,
    item: NotebookItemView,
    available: Seq<KernelSpecificationView>,
    chosen: KernelSpecificationView,
    resolved: Option<KernelSpecificationView>,
)
    requires
        is_choice(current, item, available, chosen),
        is_resolved(item.notebook.metadata.kernelspec, available, resolved),
    ensures
        current is Some ==> chosen == current->0,
        current is None && resolved is Some ==> chosen == resolved->0,
        current is None && resolved is None ==> chosen.kernel_name() == "python3"@
            && chosen.spec_file().language == "python"@ && chosen.spec_file().display_name
            == "Python 3"@ && chosen is Jupyter && chosen->Jupyter_path == "python3"@
            && chosen.spec_file().argv == seq![
            "python3"@,
            "-m"@,
            "ipykernel_launcher"@,
            "-f"@,
            "{connection_file}"@,
        ] && chosen.spec_file().interrupt_mode is None && chosen.spec_file().metadata is None
            && chosen.spec_file().env is None,
{
    if current is None {
        let kernelspec = item.notebook.metadata.kernelspec;
        if is_resolved(kernelspec, available, Some(chosen)) {
            the_kernel_of_a_notebook_is_determined(
                kernelspec,
                available,
                Some(chosen),
                resolved,
            );
        } else {
            the_kernel_of_a_notebook_is_determined(
                kernelspec,
                available,
                None,
                resolved,
            );
        }
    }
}

/// A kernel is started in the directory of the notebook, if there is one; or else in that of the
/// project, if there is one; or else in the one for temporary files.
pub proof fn a_kernel_starts_beside_its_notebook<P>(
    launch: Launch<P>,
    specification: KernelSpecificationView,
    directories: Directories<P>,
)
    requires
        launch.is_of(specification, directories),
    ensures
        launch.specification@ == specification,
        launch.native <==> specification is Jupyter || specification is PythonEnv,
        directories.notebook matches Some(directory) ==> launch.directory == directory,
        directories.notebook is None ==> (directories.project matches Some(directory)
            ==> launch.directory == directory),
        directories.notebook is None && directories.project is None ==> launch.directory
            == directories.temporary,
        working_directory(directories.notebook, directories.project, directories.temporary)
            == launch.directory,
{
}

/// A notebook that is used with a kernel names that kernel in its metadata, and is otherwise as it
/// was. Others are told.
pub proof fn the_kernel_in_use_is_named(
    item: NotebookItemView,
    specification: KernelSpecificationView,
)
    ensures
        item.used_with(specification).notebook.metadata.kernelspec is Some,
        ({
            let named = item.used_with(specification).notebook.metadata.kernelspec->0;
            &&& named.name == specification.kernel_name()
            &&& named.display_name == specification.spec_file().display_name
            &&& named.language == Some(specification.spec_file().language)
            &&& named.additional.dom().is_empty()
        }),
        item.used_with(specification).changed,
        item.used_with(specification).notebook.cells == item.notebook.cells,
        item.used_with(specification).notebook.nbformat == item.notebook.nbformat,
        item.used_with(specification).notebook.nbformat_minor == item.notebook.nbformat_minor,
        item.used_with(specification).notebook.metadata.language_info
            == item.notebook.metadata.language_info,
        item.used_with(specification).notebook.metadata.authors == item.notebook.metadata.authors,
        item.used_with(specification).notebook.metadata.additional
            == item.notebook.metadata.additional,
        item.used_with(specification).path == item.path,
        item.used_with(specification).project_path == item.project_path,
        item.used_with(specification).id == item.id,
        item.used_with(specification).drawn == item.drawn,
{
    let none = Map::<String, serde_json::Value>::empty();
    assert(none.dom() =~= Set::<String>::empty());
}

/// A kernel that was used with a notebook is the one that the notebook asks for afterwards: it is
/// found by its name.
pub proof fn the_kernel_in_use_is_found_again(
    item: NotebookItemView,
    specification: KernelSpecificationView,
    available: Seq<KernelSpecificationView>,
    resolved: Option<KernelSpecificationView>,
    i: int,
)
    requires
        is_resolved(
            item.used_with(specification).notebook.metadata.kernelspec,
            available,
            resolved,
        ),
        0 <= i < available.len(),
        available[i] == specification,
        forall|j: int|
            0 <= j < i ==> lowercase((#[trigger] available[j]).kernel_name()) != lowercase(
                specification.kernel_name(),
            ),
    ensures
        resolved == Some(specification),
{
    let named = item.used_with(specification).notebook.metadata.kernelspec->0;
    assert(!exists|name: String|
        named.additional.contains_key(name) && #[trigger] name@ == "name"@);
    assert(!exists|name: String|
        named.additional.contains_key(name) && #[trigger] name@ == "language"@);
    the_first_fitting_kernel_is_resolved(named, available, resolved, i);
}

/// What a kernel tells of its language is in the metadata of the notebook afterwards, and is
/// otherwise what they were. Other messages change no metadata.
pub proof fn the_language_of_the_kernel_is_named(
    item: NotebookItemView,
    info: KernelInfoView,
    content: MessageContentView,
)
    ensures
        ({
            let after = item.informed(MessageContentView::KernelInfoReply(info));
            &&& after.notebook.metadata.language_info == Some(
                notebook_language_of(info.language_info),
            )
            &&& after.changed
            &&& after.notebook.metadata.kernelspec == item.notebook.metadata.kernelspec
            &&& after.notebook.metadata.authors == item.notebook.metadata.authors
            &&& after.notebook.metadata.additional == item.notebook.metadata.additional
            &&& after.notebook.cells == item.notebook.cells
            &&& after.notebook.nbformat == item.notebook.nbformat
            &&& after.notebook.nbformat_minor == item.notebook.nbformat_minor
            &&& after.path == item.path
            &&& after.project_path == item.project_path
            &&& after.id == item.id
            &&& after.drawn == item.drawn
        }),
        !(content is KernelInfoReply) ==> item.informed(content) == item,
{
}

/// The language of a notebook is the one that its kernel told; without that, the one of the kernel
/// that it names; without that, none.
pub proof fn the_language_that_was_told_goes_first(item: NotebookItemView)
    ensures
        item.notebook.metadata.language_info matches Some(info) ==> item.language_name() == Some(
            info.name,
        ),
        item.notebook.metadata.language_info is None ==> (
        item.notebook.metadata.kernelspec matches Some(spec) ==> item.language_name()
            == spec.language),
        item.notebook.metadata.language_info is None && item.notebook.metadata.kernelspec is None
            ==> item.language_name() is None,
{
}

/// The additional members that a notebook has of a language are the texts that the kernel told,
/// each under its name, and no others; the mode of the web editor is told as it is.
pub proof fn what_is_told_of_a_language(
    language: KernelLanguageView,
    key: Seq<char>,
    json: JsonView,
)
    ensures
        language.mimetype matches Some(text) ==> language_member(language, "mimetype"@) == Some(
            JsonView::String(text),
        ),
        language.mimetype is None ==> language_member(language, "mimetype"@) is None,
        language.file_extension matches Some(text) ==> language_member(
            language,
            "file_extension"@,
        ) == Some(JsonView::String(text)),
        language.file_extension is None ==> language_member(language, "file_extension"@) is None,
        language.pygments_lexer matches Some(text) ==> language_member(
            language,
            "pygments_lexer"@,
        ) == Some(JsonView::String(text)),
        language.pygments_lexer is None ==> language_member(language, "pygments_lexer"@) is None,
        language.nbconvert_exporter matches Some(text) ==> language_member(
            language,
            "nbconvert_exporter"@,
        ) == Some(JsonView::String(text)),
        language.nbconvert_exporter is None ==> language_member(
            language,
            "nbconvert_exporter"@,
        ) is None,
        key != "mimetype"@ && key != "file_extension"@ && key != "pygments_lexer"@ && key
            != "nbconvert_exporter"@ ==> language_member(language, key) is None,
        language.codemirror_mode matches Some(KernelEditorModeView::Simple(text)) ==> (is_mode_json(
            language.codemirror_mode->0,
            json,
        ) <==> json == JsonView::String(text)),
        language.codemirror_mode matches Some(KernelEditorModeView::Custom { name, .. }) ==> (
        is_mode_json(language.codemirror_mode->0, json) ==> {
            &&& json is Object
            &&& json->Object_0.contains_key(key) <==> key == "name"@ || key == "version"@
            &&& json->Object_0["name"@] == JsonView::String(name)
            &&& json->Object_0["version"@] is Number
        }),
{
    if let Some(KernelEditorModeView::Custom { name, .. }) = language.codemirror_mode {
        if is_mode_json(language.codemirror_mode->0, json) {
            assert(json->Object_0.dom().contains(key) <==> set!["name"@, "version"@].contains(key));
        }
    }
    reveal_strlit("mimetype");
    reveal_strlit("file_extension");
    reveal_strlit("pygments_lexer");
    reveal_strlit("nbconvert_exporter");
    assert("mimetype"@.len() == 8);
    assert("file_extension"@[0] == 'f');
    assert("pygments_lexer"@[0] == 'p');
    assert("nbconvert_exporter"@.len() == 18);
}

/// A kernel is told to be idle, busy and so on exactly when it is so; one that runs in a state
/// without a word for it, or that could not be started, is told to be in error.
pub proof fn the_status_tells_the_state(kernel: KernelView)
    ensures
        kernel.status() == KernelStatus::Idle <==> kernel is Running
            && kernel->Running_0.execution_state is Idle,
        kernel.status() == KernelStatus::Busy <==> kernel is Running
            && kernel->Running_0.execution_state is Busy,
        kernel.status() == KernelStatus::Starting <==> kernel is Starting || (kernel is Running
            && kernel->Running_0.execution_state is Starting),
        kernel.status() == KernelStatus::Restarting <==> kernel is Restarting || (kernel is Running
            && (kernel->Running_0.execution_state is Restarting
            || kernel->Running_0.execution_state is AutoRestarting)),
        kernel.status() == KernelStatus::ShuttingDown <==> kernel is ShuttingDown || (
        kernel is Running && kernel->Running_0.execution_state is Terminating),
        kernel.status() == KernelStatus::Shutdown <==> kernel is Shutdown,
        kernel.status() == KernelStatus::Error <==> kernel is ErroredLaunch || (kernel is Running
            && (kernel->Running_0.execution_state is Unknown
            || kernel->Running_0.execution_state is Dead
            || kernel->Running_0.execution_state is Other)),
{
}

/// No two states of a kernel are told in the same words, and the colour and the picture go with
/// the state: success when it is idle, a warning when it is busy or restarts, an error when
/// something is wrong.
pub proof fn states_are_told_apart(a: KernelStatus, b: KernelStatus)
    ensures
        a != b ==> status_in_words(a) != status_in_words(b),
        status_in_words(KernelStatus::Idle) == "Idle"@,
        status_in_words(KernelStatus::Busy) == "Busy"@,
        status_in_words(KernelStatus::Starting) == "Starting"@,
        status_in_words(KernelStatus::Error) == "Error"@,
        status_in_words(KernelStatus::ShuttingDown) == "Shutting Down"@,
        status_in_words(KernelStatus::Shutdown) == "Shutdown"@,
        status_in_words(KernelStatus::Restarting) == "Restarting"@,
        control_color(a) == Color::Success <==> a == KernelStatus::Idle,
        control_color(a) == Color::Warning <==> a == KernelStatus::Busy || a
            == KernelStatus::Restarting,
        control_color(a) == Color::Muted <==> a == KernelStatus::Starting || a
            == KernelStatus::ShuttingDown,
        control_color(a) == Color::Error <==> a == KernelStatus::Error,
        control_color(a) == Color::Disabled <==> a == KernelStatus::Shutdown,
        a != KernelStatus::Shutdown ==> status_color(a) == control_color(a),
        status_color(KernelStatus::Shutdown) == Color::Muted,
        status_icon(a) == IconName::Circle <==> a == KernelStatus::Idle || a
            == KernelStatus::Shutdown,
        status_icon(a) == IconName::XCircle <==> a == KernelStatus::Error,
        status_icon(a) == IconName::ArrowCircle <==> a == KernelStatus::Busy || a
            == KernelStatus::Starting || a == KernelStatus::ShuttingDown || a
            == KernelStatus::Restarting,
{
    reveal_strlit("Idle");
    reveal_strlit("Busy");
    reveal_strlit("Starting");
    reveal_strlit("Error");
    reveal_strlit("Shutting Down");
    reveal_strlit("Shutdown");
    reveal_strlit("Restarting");
    assert("Idle"@.len() == 4 && "Busy"@.len() == 4 && "Error"@.len() == 5);
    assert("Starting"@.len() == 8 && "Shutdown"@.len() == 8);
    assert("Restarting"@.len() == 10 && "Shutting Down"@.len() == 13);
    assert("Idle"@[0] == 'I' && "Busy"@[0] == 'B');
    assert("Starting"@[1] == 't' && "Shutdown"@[1] == 'h');
}

/// Outputs can be cleared if and only if some code cell shows one; everything else among the
/// controls can always be asked for.
pub proof fn what_can_be_asked_for(state: EditorState, id: Seq<char>)
    ensures
        state.cells.contains_key(id) && state.cells[id] is Code
            && state.cells[id]->Code_0.outputs.len() > 0
            ==> !state.controls().run.second.disabled,
        !state.controls().run.second.disabled ==> exists|other: Seq<char>| #[trigger]
            state.cells.contains_key(other) && state.cells[other] is Code
                && state.cells[other]->Code_0.outputs.len() > 0,
        !state.controls().run.first.disabled,
        !state.controls().arrange.first.disabled,
        !state.controls().arrange.second.disabled,
        !state.controls().add.first.disabled,
        !state.controls().add.second.disabled,
        !state.controls().edit.first.disabled,
        !state.controls().edit.second.disabled,
        !state.controls().more.disabled,
        !state.controls().kernel.disabled,
        !state.status_bar().restart.disabled,
        !state.status_bar().selector.control.disabled,
        state.status_bar().interrupt.disabled <==> !(state.kernel is Running
            && state.kernel->Running_0.execution_state is Busy),
{
    if !state.controls().run.second.disabled {
        let other = choose|other: Seq<char>| #[trigger]
            state.cells.contains_key(other) && state.cells[other].has_outputs();
        assert(state.cells[other] is Code);
    }
    if state.cells.contains_key(id) && state.cells[id].has_outputs() {
        assert(CellTest::HasOutputs.holds(state.cells[id]));
    }
}

/// Each control asks for what it is called after.
pub proof fn controls_do_what_they_say(state: EditorState)
    ensures
        state.controls().run.first.click == Click::Dispatch(Action::RunAll),
        state.controls().run.first.tooltip == "Execute all cells"@,
        state.controls().run.first.icon == IconName::PlayFilled,
        state.controls().run.first.id == "run-all-cells"@,
        state.controls().run.second.click == Click::Dispatch(Action::ClearOutputs),
        state.controls().run.second.tooltip == "Clear all outputs"@,
        state.controls().run.second.icon == IconName::ListX,
        state.controls().run.second.id == "clear-all-outputs"@,
        state.controls().arrange.first.click == Click::Dispatch(Action::MoveCellUp),
        state.controls().arrange.first.tooltip == "Move cell up"@,
        state.controls().arrange.first.icon == IconName::ArrowUp,
        state.controls().arrange.first.id == "move-cell-up"@,
        state.controls().arrange.second.click == Click::Dispatch(Action::MoveCellDown),
        state.controls().arrange.second.tooltip == "Move cell down"@,
        state.controls().arrange.second.icon == IconName::ArrowDown,
        state.controls().arrange.second.id == "move-cell-down"@,
        state.controls().add.first.click == Click::Dispatch(Action::AddMarkdownBlock),
        state.controls().add.first.tooltip == "Add markdown block"@,
        state.controls().add.first.icon == IconName::Plus,
        state.controls().add.first.id == "new-markdown-cell"@,
        state.controls().add.second.click == Click::Dispatch(Action::AddCodeBlock),
        state.controls().add.second.tooltip == "Add code block"@,
        state.controls().add.second.icon == IconName::Code,
        state.controls().add.second.id == "new-code-cell"@,
        state.controls().edit.first.click == Click::Dispatch(Action::DuplicateCell),
        state.controls().edit.first.tooltip == "Duplicate cell"@,
        state.controls().edit.first.icon == IconName::Copy,
        state.controls().edit.first.id == "duplicate-cell"@,
        state.controls().edit.second.click == Click::Dispatch(Action::DeleteCell),
        state.controls().edit.second.tooltip == "Delete cell"@,
        state.controls().edit.second.icon == IconName::Trash,
        state.controls().edit.second.id == "delete-cell"@,
        state.controls().more.click == Click::Nothing,
        state.controls().more.tooltip == "More options"@,
        state.controls().more.icon == IconName::Ellipsis,
        state.controls().more.id == "more-menu"@,
        state.controls().kernel.click == Click::ToggleKernelPicker,
        state.controls().kernel.icon == IconName::ReplNeutral,
        state.controls().kernel.id == "repl"@,
        state.status_bar().restart.click == Click::Dispatch(Action::RestartKernel),
        state.status_bar().restart.tooltip == "Restart Kernel"@,
        state.status_bar().restart.icon == IconName::RotateCw,
        state.status_bar().restart.id == "restart-kernel"@,
        state.status_bar().interrupt.click == Click::Dispatch(Action::InterruptKernel),
        state.status_bar().interrupt.tooltip == "Interrupt Kernel"@,
        state.status_bar().interrupt.icon == IconName::Stop,
        state.status_bar().interrupt.id == "interrupt-kernel"@,
        state.status_bar().selector.control.click == Click::ToggleKernelPicker,
        state.status_bar().selector.control.id == "kernel-selector"@,
        state.controls().run.first.color == Color::Default && state.controls().run.second.color
            == Color::Default && state.controls().arrange.first.color == Color::Default
            && state.controls().arrange.second.color == Color::Default
            && state.controls().add.first.color == Color::Default
            && state.controls().add.second.color == Color::Default
            && state.controls().edit.first.color == Color::Default
            && state.controls().edit.second.color == Color::Default && state.controls().more.color
            == Color::Default && state.status_bar().restart.color == Color::Default
            && state.status_bar().interrupt.color == Color::Default,
{
}

/// The bar and the controls tell which kernel is in use, what it is doing and what went wrong last.
/// Without a kernel in use they ask for one.
pub proof fn the_bar_tells_of_the_kernel(state: EditorState, name: Seq<char>, status: KernelStatus)
    requires
        status == state.kernel.status(),
        state.specification matches Some(specification) ==> name == specification.kernel_name(),
        state.specification is None ==> name == "Select Kernel"@,
    ensures
        state.status_bar().selector.label == name,
        state.status_bar().selector.worktree_id == state.worktree_id,
        state.status_bar().selector.control.tooltip == "Kernel: "@ + (name + " ("@
            + status_in_words(status)) + "). Click to change."@,
        state.status_bar().selector.control.color == status_color(status),
        state.status_bar().selector.control.icon == status_icon(status),
        state.status_bar().error == state.last_error,
        state.controls().kernel.tooltip == name + " ("@ + status_in_words(status)
            + "). Click to change kernel."@,
        state.controls().kernel.color == control_color(status),
        kernel_label(state.specification) == name,
        described(name, status) == name + " ("@ + status_in_words(status),
{
}

/// What is shown stands for what its fields hold.
pub proof fn what_is_shown_is_its_fields(
    control: Control,
    controls: NotebookControls,
    bar: KernelStatusBar,
    focus: Focus,
)
    ensures
        control@.id == control.id@,
        control@.icon == control.icon,
        control@.color == control.color,
        control@.tooltip == control.tooltip@,
        control@.click == control.click,
        control@.disabled == control.disabled,
        controls@.run.first == controls.run.first@,
        controls@.run.second == controls.run.second@,
        controls@.arrange.first == controls.arrange.first@,
        controls@.arrange.second == controls.arrange.second@,
        controls@.add.first == controls.add.first@,
        controls@.add.second == controls.add.second@,
        controls@.edit.first == controls.edit.first@,
        controls@.edit.second == controls.edit.second@,
        controls@.more == controls.more@,
        controls@.kernel == controls.kernel@,
        bar@.selector.label == bar.selector.label@,
        bar@.selector.control == bar.selector.control@,
        bar@.selector.worktree_id == bar.selector.worktree_id,
        bar@.restart == bar.restart@,
        bar@.interrupt == bar.interrupt@,
        bar.error matches Some(error) ==> bar@.error == Some(error@),
        bar.error is None ==> bar@.error is None,
        opt_focus(Some(focus)) is Some,
        opt_focus(Some(focus))->0.cell_id == focus.cell_id@,
        opt_focus(Some(focus))->0.cursor == focus.cursor,
        opt_focus(None) is None,
{
}

/// The tab shows the name of the file, or nothing where there is none.
pub proof fn the_tab_shows_the_file_name(item: NotebookItemView)
    ensures
        item.project_path.file_name matches Some(name) ==> tab_text(item) == name,
        item.project_path.file_name is None ==> tab_text(item).len() == 0,
{
}

/// An item and the place of its file stand for what their fields hold.
pub proof fn an_item_is_its_fields(item: NotebookItem, path: ProjectPath)
    ensures
        item@.path == item.path@,
        item@.project_path == item.project_path@,
        item@.notebook == item.notebook@,
        item@.id == item.id,
        item@.changed == item.changed,
        item@.drawn == item.ids.log(),
        path@.worktree_id == path.worktree_id,
        path@.path == path.path@,
        path.file_name matches Some(name) ==> path@.file_name == Some(name@),
        path.file_name is None ==> path@.file_name is None,
        path.extension matches Some(extension) ==> path@.extension == Some(extension@),
        path.extension is None ==> path@.extension is None,
{
}

/// Another notebook, another kernel, another language or other identifiers for an item change that
/// and nothing else; but for identifiers others are told.
pub proof fn items_change_one_thing_at_a_time(
    item: NotebookItemView,
    notebook: StoredNotebookView,
    kernelspec: KernelspecMetadataView,
    info: NotebookLanguageView,
    ids: Seq<Seq<char>>,
)
    ensures
        item.with_notebook(notebook).notebook == notebook,
        item.with_notebook(notebook).changed,
        (NotebookItemView {
            notebook: item.notebook,
            changed: item.changed,
            ..item.with_notebook(notebook)
        }) == item,
        item.with_kernelspec(kernelspec).notebook == (StoredNotebookView {
            metadata: NotebookMetadataView {
                kernelspec: Some(kernelspec),
                ..item.notebook.metadata
            },
            ..item.notebook
        }),
        item.with_kernelspec(kernelspec).changed,
        item.with_language_info(info).notebook == (StoredNotebookView {
            metadata: NotebookMetadataView { language_info: Some(info), ..item.notebook.metadata },
            ..item.notebook
        }),
        item.with_language_info(info).changed,
        item.drew_all(ids).drawn == item.drawn + ids,
        (NotebookItemView { drawn: item.drawn, ..item.drew_all(ids) }) == item,
{
}

/// What a kernel tells about itself, and a kernel itself, stand for what their fields hold.
pub proof fn a_kernel_is_its_fields(
    info: KernelInfo,
    language: KernelLanguage,
    error: ReplyError,
    links: Seq<HelpLink>,
    kernel: Kernel,
    running: RunningKernel,
    i: int,
)
    ensures
        info@.status == info.status,
        info@.protocol_version == info.protocol_version@,
        info@.implementation == info.implementation@,
        info@.implementation_version == info.implementation_version@,
        info@.language_info == info.language_info@,
        info@.banner == info.banner@,
        info@.help_links == link_views(info.help_links@),
        info@.debugger == info.debugger,
        info.error matches Some(error) ==> info@.error == Some(error@),
        info.error is None ==> info@.error is None,
        link_views(links).len() == links.len(),
        0 <= i < links.len() ==> link_views(links)[i].text == links[i].text@ && link_views(
            links,
        )[i].url == links[i].url@,
        error@.ename == error.ename@,
        error@.evalue == error.evalue@,
        error@.traceback.len() == error.traceback@.len(),
        0 <= i < error.traceback@.len() ==> error@.traceback[i] == error.traceback@[i]@,
        language@.name == language.name@,
        language@.version == language.version@,
        language.mimetype matches Some(text) ==> language@.mimetype == Some(text@),
        language.file_extension matches Some(text) ==> language@.file_extension == Some(text@),
        language.pygments_lexer matches Some(text) ==> language@.pygments_lexer == Some(text@),
        language.nbconvert_exporter matches Some(text) ==> language@.nbconvert_exporter == Some(
            text@,
        ),
        kernel matches Kernel::Running(running) ==> kernel@ == KernelView::Running(running@),
        kernel matches Kernel::ErroredLaunch(error) ==> kernel@ == KernelView::ErroredLaunch(
            error@,
        ),
        kernel is Starting <==> kernel@ is Starting,
        kernel is ShuttingDown <==> kernel@ is ShuttingDown,
        kernel is Shutdown <==> kernel@ is Shutdown,
        kernel is Restarting <==> kernel@ is Restarting,
        running@.execution_state == running.execution_state@,
        running.kernel_info matches Some(info) ==> running@.kernel_info == Some(info@),
        running.kernel_info is None ==> running@.kernel_info is None,
        running@.sent == running.channel.log(),
        running@.refused == running.channel.refused(),
{
}

/// What a kernel is doing is told in its own words, each word for itself.
pub proof fn words_of_a_kernel_are_kept(state: ExecutionState)
    ensures
        state is Unknown <==> state@ is Unknown,
        state is Starting <==> state@ is Starting,
        state is Busy <==> state@ is Busy,
        state is Idle <==> state@ is Idle,
        state is Restarting <==> state@ is Restarting,
        state is Terminating <==> state@ is Terminating,
        state is AutoRestarting <==> state@ is AutoRestarting,
        state is Dead <==> state@ is Dead,
        state matches ExecutionState::Other(words) ==> state@ == ExecutionStateView::Other(words@),
{
}

/// The item of a file knows where the file lies and which entry it has, holds what the file holds,
/// and nobody has to be told of a change yet.
pub proof fn an_item_is_of_its_file(
    project_path: ProjectPathView,
    path: Seq<char>,
    content: Seq<char>,
    entry: Option<u64>,
    item: NotebookItemView,
)
    requires
        opens_as(project_path, path, content, entry, item),
    ensures
        item.path == path,
        item.project_path.worktree_id == project_path.worktree_id,
        item.project_path.path == project_path.path,
        item.project_path.file_name == project_path.file_name,
        item.project_path.extension == project_path.extension,
        entry == Some(item.id),
        !item.changed,
        opened(content, item.drawn, Ok(item.notebook)),
        item.notebook.nbformat == 4,
        item.notebook.nbformat_minor == 5,
{
}

} // verus!
