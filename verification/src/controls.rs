//! What the editor shows around its cells.

use vstd::prelude::*;

use crate::cell::CellTest;
use crate::item::{NotebookItem, NotebookItemView};
use crate::kernel::{KernelSpecificationView, KernelStatus};
use crate::state::{EditorState, NotebookEditor};
use crate::text::{copy_option, followed_by, opt_text};

verus! {

/// What the user can ask the editor to do.
#[derive(Clone, Copy, PartialEq, Eq, Structural, Debug)]
pub enum Action {
    /// Opens a notebook file.
    OpenNotebook,
    /// Runs all cells of the notebook.
    RunAll,
    /// Runs the selected cell.
    Run,
    /// Clears all outputs.
    ClearOutputs,
    /// Moves the selected cell up.
    MoveCellUp,
    /// Moves the selected cell down.
    MoveCellDown,
    /// Adds a Markdown cell.
    AddMarkdownBlock,
    /// Adds a code cell.
    AddCodeBlock,
    /// Duplicates the selected cell.
    DuplicateCell,
    /// Deletes the selected cell.
    DeleteCell,
    /// Restarts the kernel.
    RestartKernel,
    /// Interrupts what the kernel is doing.
    InterruptKernel,
    /// Moves the cursor to the cell above.
    MoveUp,
    /// Moves the cursor to the cell below.
    MoveDown,
}

/// The pictures on controls.
#[derive(Clone, Copy, PartialEq, Eq, Structural, Debug)]
pub enum IconName {
    PlayFilled,
    ListX,
    ArrowUp,
    ArrowDown,
    Plus,
    Code,
    Copy,
    Trash,
    Ellipsis,
    ReplNeutral,
    Circle,
    ArrowCircle,
    XCircle,
    RotateCw,
    Stop,
    Book,
}

/// The colours of controls.
#[derive(Clone, Copy, PartialEq, Eq, Structural, Debug)]
pub enum Color {
    Default,
    Success,
    Warning,
    Muted,
    Error,
    Disabled,
}

/// What a click on a control does.
#[derive(Clone, Copy, PartialEq, Eq, Structural, Debug)]
pub enum Click {
    Nothing,
    Dispatch(Action),
    ToggleKernelPicker,
}

/// A control with a picture.
pub struct Control {
    pub id: String,
    pub icon: IconName,
    pub color: Color,
    pub tooltip: String,
    pub click: Click,
    pub disabled: bool,
}

/// What a [`Control`] stands for.
#[verifier::ext_equal]
pub struct ControlView {
    pub id: Seq<char>,
    pub icon: IconName,
    pub color: Color,
    pub tooltip: Seq<char>,
    pub click: Click,
    pub disabled: bool,
}

impl View for Control {
    type V = ControlView;

    open spec fn view(&self) -> ControlView {
        ControlView {
            id: self.id@,
            icon: self.icon,
            color: self.color,
            tooltip: self.tooltip@,
            click: self.click,
            disabled: self.disabled,
        }
    }
}

/// A control that asks for an action.
pub open spec fn action_control(
    id: Seq<char>,
    icon: IconName,
    tooltip: Seq<char>,
    action: Action,
) -> ControlView {
    ControlView {
        id,
        icon,
        color: Color::Default,
        tooltip,
        click: Click::Dispatch(action),
        disabled: false,
    }
}

/// A control that asks for an action.
fn render_notebook_control(id: &str, icon: IconName, tooltip: &str, action: Action) -> (control:
    Control)
    ensures
        control@ == action_control(id@, icon, tooltip@, action),
{
    Control {
        id: id.to_string(),
        icon,
        color: Color::Default,
        tooltip: tooltip.to_string(),
        click: Click::Dispatch(action),
        disabled: false,
    }
}

/// Two controls in one frame.
pub struct ButtonGroup {
    pub first: Control,
    pub second: Control,
}

/// What a [`ButtonGroup`] stands for.
#[verifier::ext_equal]
pub struct ButtonGroupView {
    pub first: ControlView,
    pub second: ControlView,
}

impl View for ButtonGroup {
    type V = ButtonGroupView;

    open spec fn view(&self) -> ButtonGroupView {
        ButtonGroupView { first: self.first@, second: self.second@ }
    }
}

/// The controls beside the cells, from top to bottom.
pub struct NotebookControls {
    pub run: ButtonGroup,
    pub arrange: ButtonGroup,
    pub add: ButtonGroup,
    pub edit: ButtonGroup,
    pub more: Control,
    pub kernel: Control,
}

/// What [`NotebookControls`] stand for.
#[verifier::ext_equal]
pub struct NotebookControlsView {
    pub run: ButtonGroupView,
    pub arrange: ButtonGroupView,
    pub add: ButtonGroupView,
    pub edit: ButtonGroupView,
    pub more: ControlView,
    pub kernel: ControlView,
}

impl View for NotebookControls {
    type V = NotebookControlsView;

    open spec fn view(&self) -> NotebookControlsView {
        NotebookControlsView {
            run: self.run@,
            arrange: self.arrange@,
            add: self.add@,
            edit: self.edit@,
            more: self.more@,
            kernel: self.kernel@,
        }
    }
}

/// The status of a kernel in words.
pub open spec fn status_in_words(status: KernelStatus) -> Seq<char> {
    match status {
        KernelStatus::Idle => "Idle"@,
        KernelStatus::Busy => "Busy"@,
        KernelStatus::Starting => "Starting"@,
        KernelStatus::Error => "Error"@,
        KernelStatus::ShuttingDown => "Shutting Down"@,
        KernelStatus::Shutdown => "Shutdown"@,
        KernelStatus::Restarting => "Restarting"@,
    }
}

/// The colour of a kernel among the controls.
pub open spec fn control_color(status: KernelStatus) -> Color {
    match status {
        KernelStatus::Idle => Color::Success,
        KernelStatus::Busy => Color::Warning,
        KernelStatus::Starting => Color::Muted,
        KernelStatus::Error => Color::Error,
        KernelStatus::ShuttingDown => Color::Muted,
        KernelStatus::Shutdown => Color::Disabled,
        KernelStatus::Restarting => Color::Warning,
    }
}

/// The picture of a kernel in the status bar.
pub open spec fn status_icon(status: KernelStatus) -> IconName {
    match status {
        KernelStatus::Idle => IconName::Circle,
        KernelStatus::Busy => IconName::ArrowCircle,
        KernelStatus::Starting => IconName::ArrowCircle,
        KernelStatus::Error => IconName::XCircle,
        KernelStatus::ShuttingDown => IconName::ArrowCircle,
        KernelStatus::Shutdown => IconName::Circle,
        KernelStatus::Restarting => IconName::ArrowCircle,
    }
}

/// The colour of a kernel in the status bar.
pub open spec fn status_color(status: KernelStatus) -> Color {
    match status {
        KernelStatus::Idle => Color::Success,
        KernelStatus::Busy => Color::Warning,
        KernelStatus::Starting => Color::Muted,
        KernelStatus::Error => Color::Error,
        KernelStatus::ShuttingDown => Color::Muted,
        KernelStatus::Shutdown => Color::Muted,
        KernelStatus::Restarting => Color::Warning,
    }
}

/// What the kernel is called in front of the user.
pub open spec fn kernel_label(specification: Option<KernelSpecificationView>) -> Seq<char> {
    match specification {
        Some(specification) => specification.kernel_name(),
        None => "Select Kernel"@,
    }
}

/// The name of the kernel with its status behind it.
pub open spec fn described(name: Seq<char>, status: KernelStatus) -> Seq<char> {
    name + " ("@ + status_in_words(status)
}

impl KernelStatus {
    /// The status in words.
    pub fn in_words(&self) -> (words: String)
        ensures
            words@ == status_in_words(*self),
    {
        match self {
            KernelStatus::Idle => "Idle".to_string(),
            KernelStatus::Busy => "Busy".to_string(),
            KernelStatus::Starting => "Starting".to_string(),
            KernelStatus::Error => "Error".to_string(),
            KernelStatus::ShuttingDown => "Shutting Down".to_string(),
            KernelStatus::Shutdown => "Shutdown".to_string(),
            KernelStatus::Restarting => "Restarting".to_string(),
        }
    }

    /// The colour among the controls.
    pub fn control_color(&self) -> (color: Color)
        ensures
            color == control_color(*self),
    {
        match self {
            KernelStatus::Idle => Color::Success,
            KernelStatus::Busy => Color::Warning,
            KernelStatus::Starting => Color::Muted,
            KernelStatus::Error => Color::Error,
            KernelStatus::ShuttingDown => Color::Muted,
            KernelStatus::Shutdown => Color::Disabled,
            KernelStatus::Restarting => Color::Warning,
        }
    }

    /// The picture in the status bar.
    pub fn status_icon(&self) -> (icon: IconName)
        ensures
            icon == status_icon(*self),
    {
        match self {
            KernelStatus::Idle => IconName::Circle,
            KernelStatus::Busy => IconName::ArrowCircle,
            KernelStatus::Starting => IconName::ArrowCircle,
            KernelStatus::Error => IconName::XCircle,
            KernelStatus::ShuttingDown => IconName::ArrowCircle,
            KernelStatus::Shutdown => IconName::Circle,
            KernelStatus::Restarting => IconName::ArrowCircle,
        }
    }

    /// The colour in the status bar.
    pub fn status_color(&self) -> (color: Color)
        ensures
            color == status_color(*self),
    {
        match self {
            KernelStatus::Idle => Color::Success,
            KernelStatus::Busy => Color::Warning,
            KernelStatus::Starting => Color::Muted,
            KernelStatus::Error => Color::Error,
            KernelStatus::ShuttingDown => Color::Muted,
            KernelStatus::Shutdown => Color::Muted,
            KernelStatus::Restarting => Color::Warning,
        }
    }
}

/// The control that shows the kernel and lets the user pick another one.
pub struct KernelSelector {
    pub label: String,
    pub control: Control,
    /// The worktree whose kernels there are to pick from.
    pub worktree_id: u64,
}

/// What a [`KernelSelector`] stands for.
#[verifier::ext_equal]
pub struct KernelSelectorView {
    pub label: Seq<char>,
    pub control: ControlView,
    pub worktree_id: u64,
}

impl View for KernelSelector {
    type V = KernelSelectorView;

    open spec fn view(&self) -> KernelSelectorView {
        KernelSelectorView {
            label: self.label@,
            control: self.control@,
            worktree_id: self.worktree_id,
        }
    }
}

/// The bar that shows what the kernel is doing.
pub struct KernelStatusBar {
    pub selector: KernelSelector,
    pub restart: Control,
    pub interrupt: Control,
    /// What went wrong last.
    pub error: Option<String>,
}

/// What a [`KernelStatusBar`] stands for.
#[verifier::ext_equal]
pub struct KernelStatusBarView {
    pub selector: KernelSelectorView,
    pub restart: ControlView,
    pub interrupt: ControlView,
    pub error: Option<Seq<char>>,
}

impl View for KernelStatusBar {
    type V = KernelStatusBarView;

    open spec fn view(&self) -> KernelStatusBarView {
        KernelStatusBarView {
            selector: self.selector@,
            restart: self.restart@,
            interrupt: self.interrupt@,
            error: opt_text(self.error),
        }
    }
}

impl EditorState {
    /// The controls beside the cells. There is something to clear only where cells show outputs.
    pub open spec fn controls(self) -> NotebookControlsView {
        NotebookControlsView {
            run: ButtonGroupView {
                first: action_control(
                    "run-all-cells"@,
                    IconName::PlayFilled,
                    "Execute all cells"@,
                    Action::RunAll,
                ),
                second: ControlView {
                    disabled: !CellTest::HasOutputs.holds_of_some(self.cells),
                    ..action_control(
                        "clear-all-outputs"@,
                        IconName::ListX,
                        "Clear all outputs"@,
                        Action::ClearOutputs,
                    )
                },
            },
            arrange: ButtonGroupView {
                first: action_control(
                    "move-cell-up"@,
                    IconName::ArrowUp,
                    "Move cell up"@,
                    Action::MoveCellUp,
                ),
                second: action_control(
                    "move-cell-down"@,
                    IconName::ArrowDown,
                    "Move cell down"@,
                    Action::MoveCellDown,
                ),
            },
            add: ButtonGroupView {
                first: action_control(
                    "new-markdown-cell"@,
                    IconName::Plus,
                    "Add markdown block"@,
                    Action::AddMarkdownBlock,
                ),
                second: action_control(
                    "new-code-cell"@,
                    IconName::Code,
                    "Add code block"@,
                    Action::AddCodeBlock,
                ),
            },
            edit: ButtonGroupView {
                first: action_control(
                    "duplicate-cell"@,
                    IconName::Copy,
                    "Duplicate cell"@,
                    Action::DuplicateCell,
                ),
                second: action_control(
                    "delete-cell"@,
                    IconName::Trash,
                    "Delete cell"@,
                    Action::DeleteCell,
                ),
            },
            more: ControlView {
                id: "more-menu"@,
                icon: IconName::Ellipsis,
                color: Color::Default,
                tooltip: "More options"@,
                click: Click::Nothing,
                disabled: false,
            },
            kernel: ControlView {
                id: "repl"@,
                icon: IconName::ReplNeutral,
                color: control_color(self.kernel.status()),
                tooltip: described(kernel_label(self.specification), self.kernel.status())
                    + "). Click to change kernel."@,
                click: Click::ToggleKernelPicker,
                disabled: false,
            },
        }
    }

    /// The bar that shows what the kernel is doing. Only a busy kernel can be interrupted.
    pub open spec fn status_bar(self) -> KernelStatusBarView {
        let status = self.kernel.status();
        KernelStatusBarView {
            selector: KernelSelectorView {
                label: kernel_label(self.specification),
                control: ControlView {
                    id: "kernel-selector"@,
                    icon: status_icon(status),
                    color: status_color(status),
                    tooltip: "Kernel: "@ + described(kernel_label(self.specification), status)
                        + "). Click to change."@,
                    click: Click::ToggleKernelPicker,
                    disabled: false,
                },
                worktree_id: self.worktree_id,
            },
            restart: action_control(
                "restart-kernel"@,
                IconName::RotateCw,
                "Restart Kernel"@,
                Action::RestartKernel,
            ),
            interrupt: ControlView {
                disabled: status != KernelStatus::Busy,
                ..action_control(
                    "interrupt-kernel"@,
                    IconName::Stop,
                    "Interrupt Kernel"@,
                    Action::InterruptKernel,
                )
            },
            error: self.last_error,
        }
    }
}

/// What the editor looks like.
pub struct EditorLayout {
    /// How many cells are listed.
    pub item_count: usize,
    pub controls: NotebookControls,
    pub status_bar: KernelStatusBar,
}

/// How the tab of the editor looks.
pub struct Tab {
    pub text: String,
    pub icon: IconName,
    pub italic: bool,
}

/// The text on the tab of an editor: the name of its file.
pub open spec fn tab_text(item: NotebookItemView) -> Seq<char> {
    match item.project_path.file_name {
        Some(name) => name,
        None => Seq::empty(),
    }
}

impl NotebookEditor {
    /// What the kernel is called in front of the user.
    pub fn kernel_label(&self) -> (label: String)
        ensures
            label@ == kernel_label(self@.specification),
    {
        match &self.kernel_specification {
            Some(specification) => specification.name().clone(),
            None => "Select Kernel".to_string(),
        }
    }

    /// The name of the kernel with its status behind it.
    fn kernel_description(&self) -> (description: String)
        ensures
            description@ == described(kernel_label(self@.specification), self@.kernel.status()),
    {
        let label = self.kernel_label();
        let status = self.kernel.status().in_words();
        followed_by(followed_by(label.as_str(), " (").as_str(), status.as_str())
    }

    /// The controls beside the cells.
    pub fn render_notebook_controls(&self) -> (controls: NotebookControls)
        requires
            self.wf(),
        ensures
            controls@ == self@.controls(),
    {
        let has_outputs = self.has_outputs();
        let mut clear = render_notebook_control(
            "clear-all-outputs",
            IconName::ListX,
            "Clear all outputs",
            Action::ClearOutputs,
        );
        clear.disabled = !has_outputs;
        NotebookControls {
            run: ButtonGroup {
                first: render_notebook_control(
                    "run-all-cells",
                    IconName::PlayFilled,
                    "Execute all cells",
                    Action::RunAll,
                ),
                second: clear,
            },
            arrange: ButtonGroup {
                first: render_notebook_control(
                    "move-cell-up",
                    IconName::ArrowUp,
                    "Move cell up",
                    Action::MoveCellUp,
                ),
                second: render_notebook_control(
                    "move-cell-down",
                    IconName::ArrowDown,
                    "Move cell down",
                    Action::MoveCellDown,
                ),
            },
            add: ButtonGroup {
                first: render_notebook_control(
                    "new-markdown-cell",
                    IconName::Plus,
                    "Add markdown block",
                    Action::AddMarkdownBlock,
                ),
                second: render_notebook_control(
                    "new-code-cell",
                    IconName::Code,
                    "Add code block",
                    Action::AddCodeBlock,
                ),
            },
            edit: ButtonGroup {
                first: render_notebook_control(
                    "duplicate-cell",
                    IconName::Copy,
                    "Duplicate cell",
                    Action::DuplicateCell,
                ),
                second: render_notebook_control(
                    "delete-cell",
                    IconName::Trash,
                    "Delete cell",
                    Action::DeleteCell,
                ),
            },
            more: Control {
                id: "more-menu".to_string(),
                icon: IconName::Ellipsis,
                color: Color::Default,
                tooltip: "More options".to_string(),
                click: Click::Nothing,
                disabled: false,
            },
            kernel: Control {
                id: "repl".to_string(),
                icon: IconName::ReplNeutral,
                color: self.kernel.status().control_color(),
                tooltip: followed_by(
                    self.kernel_description().as_str(),
                    "). Click to change kernel.",
                ),
                click: Click::ToggleKernelPicker,
                disabled: false,
            },
        }
    }

    /// The bar that shows what the kernel is doing.
    pub fn render_kernel_status_bar(&self) -> (bar: KernelStatusBar)
        ensures
            bar@ == self@.status_bar(),
    {
        let status = self.kernel.status();
        let mut interrupt = render_notebook_control(
            "interrupt-kernel",
            IconName::Stop,
            "Interrupt Kernel",
            Action::InterruptKernel,
        );
        interrupt.disabled = match status {
            KernelStatus::Busy => false,
            _ => true,
        };
        let description = followed_by("Kernel: ", self.kernel_description().as_str());
        proof {
            let label = kernel_label(self@.specification);
            assert(description@ =~= "Kernel: "@ + described(label, self@.kernel.status()));
        }
        KernelStatusBar {
            selector: KernelSelector {
                label: self.kernel_label(),
                control: Control {
                    id: "kernel-selector".to_string(),
                    icon: status.status_icon(),
                    color: status.status_color(),
                    tooltip: followed_by(description.as_str(), "). Click to change."),
                    click: Click::ToggleKernelPicker,
                    disabled: false,
                },
                worktree_id: self.worktree_id,
            },
            restart: render_notebook_control(
                "restart-kernel",
                IconName::RotateCw,
                "Restart Kernel",
                Action::RestartKernel,
            ),
            interrupt,
            error: copy_option(&self.last_error),
        }
    }

    /// What the editor looks like.
    pub fn render(&self) -> (layout: EditorLayout)
        requires
            self.wf(),
        ensures
            layout.item_count == self@.order.len(),
            layout.controls@ == self@.controls(),
            layout.status_bar@ == self@.status_bar(),
    {
        EditorLayout {
            item_count: self.cell_list.item_count,
            controls: self.render_notebook_controls(),
            status_bar: self.render_kernel_status_bar(),
        }
    }

    /// The text on the tab of the editor.
    pub fn tab_content_text(item: &NotebookItem) -> (text: String)
        ensures
            text@ == tab_text(item@),
    {
        match &item.project_path.file_name {
            Some(name) => name.clone(),
            None => String::new(),
        }
    }

    /// How the tab of the editor looks. A tab that is only a preview is in italics.
    pub fn tab_content(item: &NotebookItem, preview: bool) -> (tab: Tab)
        ensures
            tab.text@ == tab_text(item@),
            tab.icon == IconName::Book,
            tab.italic == preview,
    {
        Tab { text: Self::tab_content_text(item), icon: IconName::Book, italic: preview }
    }
}

} // verus!
