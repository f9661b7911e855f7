//! The kernel of an editor: starting it, replacing it, and what its messages change.

use vstd::prelude::*;

use crate::cell::EditorCell;
use crate::execution::{is_script, lemma_some_script, Attempt};
use crate::document::{depth_left, regular_language, regular_metadata};
use crate::ids::CellId;
use crate::item::{NotebookItem, NotebookItemView};
use crate::json::{additional_member, nests_within, JsonView};
use crate::kernel::{
    default_python, default_python_kernel_specification, is_mode_json, is_resolved,
    kernelspec_from_json, kernelspec_of, language_member, notebook_language_from_kernel,
    notebook_language_of, resolve_specification, specification_views, working_directory,
    Directories, ExecutionState, Kernel, KernelLanguageView, KernelSpecification,
    KernelSpecificationView, KernelView, RunningKernel, RunningKernelView,
};
use crate::message::{
    CompletionReplyView, Delivery, KernelMessage, MessageContent, MessageContentView,
};
use crate::notebook::{mode_json, NotebookLanguageView};
use crate::state::{EditorState, NotebookEditor};
use crate::text::{followed_by, opt_text};

verus! {

/// A kernel that has to be started.
pub struct Launch<P> {
    pub specification: KernelSpecification,
    /// Whether it runs as a process on this machine.
    pub native: bool,
    pub directory: P,
    /// Whether the kernel before it is running and has to be shut down first.
    pub shut_down: bool,
}

impl<P> Launch<P> {
    /// It is the kernel of the given specification that has to be started in the right directory.
    pub open spec fn is_of(
        &self,
        specification: KernelSpecificationView,
        directories: Directories<P>,
    ) -> bool {
        &&& self.specification@ == specification
        &&& self.native == !(specification is Remote)
        &&& self.directory == working_directory(
            directories.notebook,
            directories.project,
            directories.temporary,
        )
    }
}

impl NotebookItemView {
    /// The item once its notebook is used with the given kernel.
    pub open spec fn used_with(self, specification: KernelSpecificationView) -> NotebookItemView {
        self.with_kernelspec(
            kernelspec_of(
                specification.spec_file().display_name,
                specification.kernel_name(),
                specification.spec_file().language,
            ),
        )
    }
}

/// `chosen` is the kernel to start for an editor: the one that it already uses, or else the one
/// that its notebook asks for, or else the one to fall back on.
pub open spec fn is_choice(
    current: Option<KernelSpecificationView>,
    item: NotebookItemView,
    available: Seq<KernelSpecificationView>,
    chosen: KernelSpecificationView,
) -> bool {
    match current {
        Some(specification) => chosen == specification,
        None => {
            ||| is_resolved(item.notebook.metadata.kernelspec, available, Some(chosen))
            ||| is_resolved(item.notebook.metadata.kernelspec, available, None) && chosen
                == default_python()
        },
    }
}

/// What starting a kernel came to: the kernel, or what went wrong.
pub open spec fn launch_outcome(result: Result<RunningKernel, String>) -> Result<
    RunningKernelView,
    Seq<char>,
> {
    match result {
        Ok(kernel) => Ok(kernel@),
        Err(error) => Err(error@),
    }
}

impl EditorState {
    /// The editor with a kernel in another state.
    pub open spec fn with_kernel(self, kernel: KernelView) -> EditorState {
        EditorState { kernel, ..self }
    }

    /// The editor while a kernel starts.
    pub open spec fn launching(self, specification: KernelSpecificationView) -> EditorState {
        EditorState {
            specification: Some(specification),
            metadata_dirty: true,
            kernel: KernelView::Starting,
            stale: true,
            ..self
        }
    }

    /// The editor once starting a kernel has ended, with the kernel or with what went wrong.
    pub open spec fn launched(self, result: Result<RunningKernelView, Seq<char>>) -> EditorState {
        match result {
            Ok(kernel) => self.with_kernel(KernelView::Running(kernel)).without_error().notified(),
            Err(error) => self.with_kernel(KernelView::ErroredLaunch(error)).with_error(
                "Failed to launch kernel: "@ + error,
            ),
        }
    }

    /// The editor once it is given another kernel.
    pub open spec fn changed_to(self, specification: KernelSpecificationView) -> EditorState {
        self.cancelled("Kernel changed before execution finished."@).launching(specification)
    }

    /// The editor once its kernel is started anew.
    pub open spec fn restarted(self, specification: KernelSpecificationView) -> EditorState {
        self.cancelled("Kernel restarted before execution finished."@).launching(specification)
    }

    /// The editor once its kernel has broken down.
    pub open spec fn errored(self, error: Seq<char>) -> EditorState {
        self.cancelled("Kernel errored before execution finished."@).with_kernel(
            KernelView::ErroredLaunch(error),
        ).with_error("Kernel error: "@ + error)
    }

    /// The cell that has to handle a message.
    pub open spec fn message_target(
        self,
        parent: Option<Seq<char>>,
        content: MessageContentView,
    ) -> Option<Seq<char>> {
        match parent {
            Some(parent) => if !(content is CompleteReply) && self.executions.contains_key(parent)
                && self.has_code_cell(self.executions[parent]) {
                Some(self.executions[parent])
            } else {
                None
            },
            None => None,
        }
    }

    /// The editor once a message has been taken note of that every editor gets. An idle kernel gets
    /// the next cell in the queue.
    pub open spec fn informed(
        self,
        content: MessageContentView,
        script: Seq<Attempt>,
    ) -> EditorState {
        match content {
            MessageContentView::Status(state) => {
                let told = EditorState { kernel: self.kernel.with_execution_state(state), ..self };
                if state is Idle {
                    told.advanced(script).notified()
                } else {
                    told.notified()
                }
            },
            MessageContentView::KernelInfoReply(info) => EditorState {
                kernel: self.kernel.with_kernel_info(info),
                metadata_dirty: true,
                ..self
            }.notified(),
            _ => self,
        }
    }

    /// The editor once completions have come for the request with the given identifier, with
    /// `awaited` as whether the one who asked still waits.
    pub open spec fn completed(
        self,
        request: Seq<char>,
        reply: CompletionReplyView,
        awaited: bool,
    ) -> EditorState {
        if !self.completions.contains_key(request) {
            self
        } else {
            let taken = EditorState { completions: self.completions.remove(request), ..self };
            let delivery = Delivery { channel: self.completions[request], reply };
            if awaited {
                EditorState { delivered: self.delivered.push(delivery), ..taken }
            } else {
                EditorState { lost: self.lost.push(delivery), ..taken }.with_error(
                    "Notebook completion request was dropped before reply arrived."@,
                )
            }
        }
    }

    /// The editor once a message has been taken note of, up to what a cell does with it.
    pub open spec fn routed(
        self,
        parent: Option<Seq<char>>,
        content: MessageContentView,
        script: Seq<Attempt>,
        awaited: bool,
    ) -> EditorState {
        match (parent, content) {
            (Some(parent), MessageContentView::CompleteReply(reply)) => self.completed(
                parent,
                reply,
                awaited,
            ),
            _ => self.informed(content, script),
        }
    }

    /// The editor once its cell has handled a message. When the kernel is done with a cell, nothing
    /// more is expected for the request, and the next cell in the queue gets its turn.
    pub open spec fn concluded(
        self,
        parent: Option<Seq<char>>,
        content: MessageContentView,
        script: Seq<Attempt>,
    ) -> EditorState {
        match (parent, content) {
            (Some(parent), MessageContentView::ExecuteReply) => EditorState {
                executions: self.executions.remove(parent),
                ..self
            }.advanced(script),
            _ => self,
        }
    }
}

impl NotebookItemView {
    /// The item once a message has been taken note of.
    pub open spec fn informed(self, content: MessageContentView) -> NotebookItemView {
        match content {
            MessageContentView::KernelInfoReply(info) => self.with_language_info(
                notebook_language_of(info.language_info),
            ),
            _ => self,
        }
    }
}

/// What a notebook takes over from what a kernel tells about its language can be read again once
/// it has been written.
proof fn lemma_kernel_language_is_regular(language: KernelLanguageView, info: NotebookLanguageView)
    requires
        forall|key: Seq<char>| #[trigger]
            additional_member(info.additional, key) == language_member(language, key),
        language.codemirror_mode is None ==> info.codemirror_mode is None,
        language.codemirror_mode is Some ==> info.codemirror_mode is Some && is_mode_json(
            language.codemirror_mode->0,
            mode_json(info.codemirror_mode->0),
        ),
    ensures
        regular_language(info),
{
    reveal_strlit("name");
    reveal_strlit("version");
    reveal_strlit("codemirror_mode");
    reveal_strlit("mimetype");
    reveal_strlit("file_extension");
    reveal_strlit("pygments_lexer");
    reveal_strlit("nbconvert_exporter");
    assert forall|key: Seq<char>| #[trigger]
        additional_member(info.additional, key) is Some implies !set![
        "name"@,
        "version"@,
        "codemirror_mode"@,
    ].contains(key) && nests_within(
        additional_member(info.additional, key)->0,
        depth_left(3),
    ) by {
        assert(language_member(language, key) is Some);
        assert(key.len() == 8 || key.len() == 14 || key.len() == 18);
    }
    if let Some(mode) = info.codemirror_mode {
        assert(nests_within(mode_json(mode), depth_left(3))) by {
            if let JsonView::Object(members) = mode_json(mode) {
                assert forall|key: Seq<char>| #[trigger]
                    members.contains_key(key) implies nests_within(members[key], depth_left(4)) by {
                    assert(set!["name"@, "version"@].contains(key));
                }
            }
        }
    }
}

impl NotebookEditor {
    /// The kernel that the notebook asks for.
    pub fn resolve_notebook_kernel_specification(
        item: &NotebookItem,
        available: &Vec<KernelSpecification>,
    ) -> (resolved: Option<KernelSpecification>)
        ensures
            is_resolved(
                item@.notebook.metadata.kernelspec,
                specification_views(available@),
                match resolved {
                    Some(specification) => Some(specification@),
                    None => None,
                },
            ),
    {
        resolve_specification(&item.notebook.metadata.kernelspec, available)
    }

    /// Starts the kernel that the editor uses already, or the one that the notebook asks for, or
    /// the one to fall back on.
    pub fn launch_kernel<P>(
        &mut self,
        item: &mut NotebookItem,
        available: &Vec<KernelSpecification>,
        directories: Directories<P>,
    ) -> (launch: Launch<P>)
        requires
            old(self).wf(),
            old(item).wf(),
        ensures
            final(self).wf(),
            final(item).wf(),
            is_choice(
                old(self)@.specification,
                old(item)@,
                specification_views(available@),
                launch.specification@,
            ),
            launch.is_of(launch.specification@, directories),
            !launch.shut_down,
            final(self)@ == old(self)@.launching(launch.specification@),
            final(item)@ == old(item)@.used_with(launch.specification@),
    {
        let specification = match &self.kernel_specification {
            Some(specification) => specification.copy(),
            None => match Self::resolve_notebook_kernel_specification(item, available) {
                Some(specification) => specification,
                None => default_python_kernel_specification(),
            },
        };
        self.launch_kernel_with_spec(item, specification, directories)
    }

    /// Starts a kernel.
    pub fn launch_kernel_with_spec<P>(
        &mut self,
        item: &mut NotebookItem,
        specification: KernelSpecification,
        directories: Directories<P>,
    ) -> (launch: Launch<P>)
        requires
            old(self).wf(),
            old(item).wf(),
        ensures
            final(self).wf(),
            final(item).wf(),
            launch.is_of(specification@, directories),
            !launch.shut_down,
            final(self)@ == old(self)@.launching(specification@),
            final(item)@ == old(item)@.used_with(specification@),
    {
        let directory = directories.choose_directory();
        self.kernel_specification = Some(specification.copy());
        if let Some(kernelspec) = kernelspec_from_json(
            specification.display_name().as_str(),
            specification.name().as_str(),
            specification.language().as_str(),
        ) {
            item.set_kernelspec(kernelspec);
        }
        self.notebook_metadata_dirty = true;
        self.kernel = Kernel::Starting;
        self.stale = true;
        let native = specification.is_native();
        Launch { specification, native, directory, shut_down: false }
    }

    /// Takes note of how starting a kernel ended.
    pub fn kernel_launched(&mut self, result: Result<RunningKernel, String>)
        requires
            old(self).wf(),
        ensures
            final(self).wf(),
            final(self)@ == old(self)@.launched(launch_outcome(result)),
    {
        match result {
            Ok(kernel) => {
                self.kernel = Kernel::Running(kernel);
                self.clear_last_error();
                self.stale = true;
            },
            Err(error) => {
                let message = followed_by("Failed to launch kernel: ", error.as_str());
                self.kernel = Kernel::ErroredLaunch(error);
                self.set_last_error(message);
            },
        }
    }

    /// Replaces the kernel.
    pub fn change_kernel<P>(
        &mut self,
        item: &mut NotebookItem,
        specification: KernelSpecification,
        directories: Directories<P>,
    ) -> (launch: Launch<P>)
        requires
            old(self).wf(),
            old(item).wf(),
        ensures
            final(self).wf(),
            final(item).wf(),
            launch.is_of(specification@, directories),
            launch.shut_down == (old(self)@.kernel is Running),
            final(self)@ == old(self)@.changed_to(specification@),
            final(item)@ == old(item)@.used_with(specification@),
    {
        let shut_down = self.kernel.is_running();
        self.cancel_pending_executions("Kernel changed before execution finished.");
        let launch = self.launch_kernel_with_spec(item, specification, directories);
        Launch { shut_down, ..launch }
    }

    /// Starts the kernel anew, if the editor uses one.
    pub fn restart_kernel<P>(
        &mut self,
        item: &mut NotebookItem,
        directories: Directories<P>,
    ) -> (launch: Option<Launch<P>>)
        requires
            old(self).wf(),
            old(item).wf(),
        ensures
            final(self).wf(),
            final(item).wf(),
            match old(self)@.specification {
                Some(specification) => {
                    &&& launch is Some
                    &&& launch->0.is_of(specification, directories)
                    &&& launch->0.shut_down == (old(self)@.kernel is Running)
                    &&& final(self)@ == old(self)@.restarted(specification)
                    &&& final(item)@ == old(item)@.used_with(specification)
                },
                None => {
                    &&& launch is None
                    &&& final(self)@ == old(self)@
                    &&& final(item)@ == old(item)@
                },
            },
    {
        let specification = match &self.kernel_specification {
            Some(specification) => specification.copy(),
            None => {
                return None;
            },
        };
        let shut_down = self.kernel.is_running();
        self.cancel_pending_executions("Kernel restarted before execution finished.");
        self.kernel = Kernel::Restarting;
        self.stale = true;
        let launch = self.launch_kernel_with_spec(item, specification, directories);
        Some(Launch { shut_down, ..launch })
    }

    /// Takes note that the kernel has broken down.
    pub fn kernel_errored(&mut self, error_message: String)
        requires
            old(self).wf(),
        ensures
            final(self).wf(),
            final(self)@ == old(self)@.errored(error_message@),
    {
        self.cancel_pending_executions("Kernel errored before execution finished.");
        let message = followed_by("Kernel error: ", error_message.as_str());
        self.kernel = Kernel::ErroredLaunch(error_message);
        self.set_last_error(message);
    }

    /// The cell that has to handle a message.
    pub fn message_target(&self, message: &KernelMessage) -> (target: Option<CellId>)
        requires
            self.wf(),
        ensures
            opt_text(target) == self@.message_target(opt_text(message.parent), message.content@),
    {
        let parent = match &message.parent {
            Some(parent) => parent,
            None => {
                return None;
            },
        };
        if let MessageContent::CompleteReply(_) = &message.content {
            return None;
        }
        match self.execution_requests.get(parent) {
            Some(id) => match self.cell_map.get(id) {
                Some(EditorCell::Code(_)) => Some(id.clone()),
                _ => None,
            },
            None => None,
        }
    }

    /// Takes note of a message of the kernel. The result is the cell that has to handle it. Once it
    /// has, [`NotebookEditor::message_handled`] does the rest.
    pub fn route(&mut self, item: &mut NotebookItem, message: &KernelMessage) -> (target: Option<
        CellId,
    >)
        requires
            old(self).wf(),
            old(item).wf(),
        ensures
            final(self).wf(),
            final(item).wf(),
            exists|script: Seq<Attempt>, awaited: bool| #[trigger]
                old(self)@.routed(opt_text(message.parent), message.content@, script, awaited)
                    == final(self)@ && is_script(script, old(self)@.queue.len()),
            final(item)@ == old(item)@.informed(message.content@),
            regular_metadata(old(item)@.notebook.metadata) ==> regular_metadata(
                final(item)@.notebook.metadata,
            ),
            opt_text(target) == final(self)@.message_target(
                opt_text(message.parent),
                message.content@,
            ),
    {
        let ghost before = self@;
        let ghost parent = opt_text(message.parent);
        match &message.content {
            MessageContent::Status(state) => {
                self.kernel.set_execution_state(state);
                let ghost told = self@;
                let idle: bool = match state {
                    ExecutionState::Idle => true,
                    _ => false,
                };
                if idle {
                    self.execute_next_queued_cell();
                    let ghost advanced = self@;
                    self.stale = true;
                    proof {
                        let script = choose|script: Seq<Attempt>|
                            is_script(script, told.queue.len()) && #[trigger] told.advanced(script)
                                == advanced;
                        assert(before.routed(parent, message.content@, script, true) == self@);
                    }
                } else {
                    self.stale = true;
                    proof {
                        let script = lemma_some_script(before.queue.len());
                        assert(before.routed(parent, message.content@, script, true) == self@);
                    }
                }
            },
            MessageContent::KernelInfoReply(info) => {
                self.kernel.set_kernel_info(info);
                let told = info.language_info.copy();
                if let Some(language) = notebook_language_from_kernel(told) {
                    proof {
                        lemma_kernel_language_is_regular(told@, language@);
                    }
                    item.set_language_info(language);
                    self.notebook_metadata_dirty = true;
                }
                self.stale = true;
                proof {
                    let script = lemma_some_script(before.queue.len());
                    assert(before.routed(parent, message.content@, script, true) == self@);
                }
            },
            MessageContent::CompleteReply(reply) => {
                let ghost mut awaited = true;
                if let Some(request) = &message.parent {
                    if let Some(pending) = self.completion_requests.remove(request) {
                        let taken: bool = self.delivered.hand_over(pending, reply.copy());
                        proof {
                            awaited = taken;
                        }
                        self.completion_delivered(taken);
                    } else {
                        assert(self@.completions =~= before.completions);
                    }
                }
                proof {
                    let script = lemma_some_script(before.queue.len());
                    assert(before.routed(parent, message.content@, script, awaited) == self@);
                }
            },
            _ => {
                proof {
                    let script = lemma_some_script(before.queue.len());
                    assert(before.routed(parent, message.content@, script, true) == self@);
                }
            },
        }
        self.message_target(message)
    }

    /// Takes note of whether completions reached the one who asked for them.
    pub fn completion_delivered(&mut self, awaited: bool)
        requires
            old(self).wf(),
        ensures
            final(self).wf(),
            final(self)@ == if awaited {
                old(self)@
            } else {
                old(self)@.with_error(
                    "Notebook completion request was dropped before reply arrived."@,
                )
            },
    {
        if !awaited {
            self.set_last_error(
                "Notebook completion request was dropped before reply arrived.".to_string(),
            );
        }
    }

    /// Takes note that the cell that has to handle a message has done so.
    pub fn message_handled(&mut self, message: &KernelMessage)
        requires
            old(self).wf(),
        ensures
            final(self).wf(),
            exists|script: Seq<Attempt>| #[trigger]
                old(self)@.concluded(opt_text(message.parent), message.content@, script)
                    == final(self)@ && is_script(script, old(self)@.queue.len()),
    {
        let ghost before = self@;
        let ghost parent = opt_text(message.parent);
        if let (Some(request), MessageContent::ExecuteReply) = (&message.parent, &message.content) {
            self.execution_requests.remove(request);
            let ghost removed = self@;
            self.execute_next_queued_cell();
            proof {
                let script = choose|script: Seq<Attempt>|
                    is_script(script, removed.queue.len()) && #[trigger] removed.advanced(script)
                        == self@;
                assert(before.concluded(parent, message.content@, script) == self@);
            }
        } else {
            proof {
                let script = lemma_some_script(before.queue.len());
                assert(before.concluded(parent, message.content@, script) == self@);
            }
        }
    }
}

} // verus!
