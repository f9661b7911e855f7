//! Messages to a kernel and from it.

use vstd::prelude::*;

use crate::ids::is_uuid_text;
use crate::kernel::{ExecutionState, ExecutionStateView, KernelInfo, KernelInfoView};
use crate::text::{copy_strings, texts};

verus! {

/// A message of the Jupyter protocol.
#[verifier::external_type_specification]
#[verifier::external_body]
pub struct ExJupyterMessage(jupyter_protocol::JupyterMessage);

/// The end of a bounded channel at which values go in.
#[verifier::external_type_specification]
#[verifier::external_body]
#[verifier::reject_recursive_types(T)]
pub struct ExRequestSender<T>(futures::channel::mpsc::Sender<T>);

/// The end of a channel for one value at which the value goes in.
#[verifier::external_type_specification]
#[verifier::external_body]
#[verifier::reject_recursive_types(T)]
pub struct ExReplySender<T>(futures::channel::oneshot::Sender<T>);

/// The end of a channel for one value at which the value comes out.
#[verifier::external_type_specification]
#[verifier::external_body]
#[verifier::reject_recursive_types(T)]
pub struct ExReplyReceiver<T>(futures::channel::oneshot::Receiver<T>);

/// What a receiver reports when its sender is gone. It is declared because the type of receivers
/// cannot be without it: waiting for a value gives either the value or this.
#[verifier::external_type_specification]
#[verifier::external_body]
pub struct ExCanceled(futures::channel::oneshot::Canceled);

/// What a kernel is asked for.
#[verifier::ext_equal]
pub enum RequestView {
    Execute {
        code: Seq<char>,
        silent: bool,
        store_history: bool,
        allow_stdin: bool,
        stop_on_error: bool,
        has_user_expressions: bool,
    },
    Complete { code: Seq<char>, cursor_pos: usize },
    Interrupt,
    Other,
}

/// The request to run `code` as a notebook does: it is recorded in the history, nothing is read
/// from the user, and an error stops what is queued behind it.
pub open spec fn execute_request(code: Seq<char>) -> RequestView {
    RequestView::Execute {
        code,
        silent: false,
        store_history: true,
        allow_stdin: false,
        stop_on_error: true,
        has_user_expressions: false,
    }
}

/// The identifier in the header of a message.
pub uninterp spec fn message_id(message: jupyter_protocol::JupyterMessage) -> Seq<char>;

/// What a message asks for.
pub uninterp spec fn message_request(message: jupyter_protocol::JupyterMessage) -> RequestView;

/// Turns a `jupyter_protocol::ExecuteRequest` with the given code and otherwise the values of its
/// `Default` into a message. The identifier is left to chance and has the form of a random UUID.
#[verifier::external_body]
pub(crate) fn execute_message(code: String) -> (message: jupyter_protocol::JupyterMessage)
    ensures
        message_request(message) == execute_request(code@),
        is_uuid_text(message_id(message)),
{
    jupyter_protocol::ExecuteRequest { code, ..Default::default() }.into()
}

/// Turns a `jupyter_protocol::CompleteRequest` into a message. The identifier is left to chance and
/// has the form of a random UUID.
#[verifier::external_body]
pub(crate) fn complete_message(
    code: String,
    cursor_pos: usize,
) -> (message: jupyter_protocol::JupyterMessage)
    ensures
        message_request(message) == (RequestView::Complete { code: code@, cursor_pos }),
        is_uuid_text(message_id(message)),
{
    jupyter_protocol::CompleteRequest { code, cursor_pos }.into()
}

/// Turns a `jupyter_protocol::InterruptRequest` into a message. The identifier is left to chance
/// and has the form of a random UUID.
#[verifier::external_body]
pub(crate) fn interrupt_message() -> (message: jupyter_protocol::JupyterMessage)
    ensures
        message_request(message) == RequestView::Interrupt,
        is_uuid_text(message_id(message)),
{
    jupyter_protocol::InterruptRequest {}.into()
}

/// Reads the field `msg_id` of the header of a `jupyter_protocol::JupyterMessage`.
#[verifier::external_body]
pub(crate) fn id_of_message(message: &jupyter_protocol::JupyterMessage) -> (id: String)
    ensures
        id@ == message_id(*message),
{
    message.header.msg_id.clone()
}

/// What a channel says when it takes no message: it is full, or nobody is left at its other end.
pub open spec fn is_refusal(text: Seq<char>) -> bool {
    ||| text == "send failed because channel is full"@
    ||| text == "send failed because receiver is gone"@
}

/// A request that a kernel was sent.
#[verifier::ext_equal]
pub struct SentRequest {
    pub id: Seq<char>,
    pub request: RequestView,
}

/// The record of a request.
pub open spec fn sent_request(message: jupyter_protocol::JupyterMessage) -> SentRequest {
    SentRequest { id: message_id(message), request: message_request(message) }
}

/// How requests reach a kernel, with a record of those that the channel has taken and of those that
/// it has refused. The record is kept for proofs only.
pub struct RequestChannel {
    requests: futures::channel::mpsc::Sender<jupyter_protocol::JupyterMessage>,
    sent: Ghost<Seq<SentRequest>>,
    refusals: Ghost<Seq<SentRequest>>,
}

impl RequestChannel {
    /// The requests that have gone through, in their order.
    pub closed spec fn log(&self) -> Seq<SentRequest> {
        self.sent@
    }

    /// The requests that have not been taken, in their order.
    pub closed spec fn refused(&self) -> Seq<SentRequest> {
        self.refusals@
    }

    /// A channel that nothing has been handed to yet.
    pub fn new(
        requests: futures::channel::mpsc::Sender<jupyter_protocol::JupyterMessage>,
    ) -> (channel: RequestChannel)
        ensures
            channel.log() == Seq::<SentRequest>::empty(),
            channel.refused() == Seq::<SentRequest>::empty(),
    {
        RequestChannel { requests, sent: Ghost(Seq::empty()), refusals: Ghost(Seq::empty()) }
    }

    /// Calls `futures::channel::mpsc::Sender::try_send` on a clone of the sender, and `to_string`
    /// on the error. It returns `Ok` exactly where the message has gone into the channel, so that
    /// the message joins the record of those taken there, and of those refused elsewhere. Whether
    /// the channel takes the message depends on its other end. The clone panics only where the
    /// channel has more senders than fit in memory.
    #[verifier::external_body]
    pub(crate) fn send(&mut self, message: jupyter_protocol::JupyterMessage) -> (result: Result<
        (),
        String,
    >)
        ensures
            result is Ok ==> final(self).log() == old(self).log().push(sent_request(message)),
            result is Ok ==> final(self).refused() == old(self).refused(),
            result is Err ==> final(self).log() == old(self).log(),
            result is Err ==> final(self).refused() == old(self).refused().push(
                sent_request(message),
            ),
            result is Err ==> is_refusal(result->Err_0@),
    {
        self.requests.clone().try_send(message).map_err(|error| error.to_string())
    }
}

/// Whether a kernel could do what it was asked for.
#[derive(Clone, Copy, PartialEq, Eq, Structural, Debug)]
pub enum ReplyStatus {
    Success,
    Error,
    Aborted,
}

/// What a kernel offers to complete code with.
pub struct CompletionReply {
    pub matches: Vec<String>,
    pub cursor_start: usize,
    pub cursor_end: usize,
    pub status: ReplyStatus,
}

/// What a [`CompletionReply`] stands for.
#[verifier::ext_equal]
pub struct CompletionReplyView {
    pub matches: Seq<Seq<char>>,
    pub cursor_start: usize,
    pub cursor_end: usize,
    pub status: ReplyStatus,
}

impl View for CompletionReply {
    type V = CompletionReplyView;

    open spec fn view(&self) -> CompletionReplyView {
        CompletionReplyView {
            matches: texts(self.matches@),
            cursor_start: self.cursor_start,
            cursor_end: self.cursor_end,
            status: self.status,
        }
    }
}

impl CompletionReply {
    /// A copy.
    pub fn copy(&self) -> (copy: CompletionReply)
        ensures
            copy@ == self@,
    {
        CompletionReply {
            matches: copy_strings(&self.matches),
            cursor_start: self.cursor_start,
            cursor_end: self.cursor_end,
            status: self.status,
        }
    }
}

/// The channel that a sender of completions belongs to.
pub uninterp spec fn sender_channel(
    sender: futures::channel::oneshot::Sender<CompletionReply>,
) -> int;

/// The channel that a receiver of completions belongs to.
pub uninterp spec fn receiver_channel(
    receiver: futures::channel::oneshot::Receiver<CompletionReply>,
) -> int;

/// Calls `futures::channel::oneshot::channel`. Both ends belong to one channel.
#[verifier::external_body]
pub(crate) fn reply_channel() -> (ends: (
    futures::channel::oneshot::Sender<CompletionReply>,
    futures::channel::oneshot::Receiver<CompletionReply>,
))
    ensures
        sender_channel(ends.0) == receiver_channel(ends.1),
{
    futures::channel::oneshot::channel()
}

/// Somebody who waits for completions.
pub struct PendingCompletion {
    pub sender: futures::channel::oneshot::Sender<CompletionReply>,
}

impl View for PendingCompletion {
    type V = int;

    open spec fn view(&self) -> int {
        sender_channel(self.sender)
    }
}

/// A reply to one who asked for it.
#[verifier::ext_equal]
pub struct Delivery {
    pub channel: int,
    pub reply: CompletionReplyView,
}

/// A record of the replies that have reached those who asked for them, and of those that came too
/// late. It is kept for proofs only.
pub struct Deliveries {
    delivered: Ghost<Seq<Delivery>>,
    dropped: Ghost<Seq<Delivery>>,
}

impl Deliveries {
    /// The replies that have been handed over, in their order.
    pub closed spec fn log(&self) -> Seq<Delivery> {
        self.delivered@
    }

    /// The replies that nobody waited for any more, in their order.
    pub closed spec fn lost(&self) -> Seq<Delivery> {
        self.dropped@
    }

    /// A record of nothing.
    pub fn new() -> (deliveries: Deliveries)
        ensures
            deliveries.log() == Seq::<Delivery>::empty(),
            deliveries.lost() == Seq::<Delivery>::empty(),
    {
        Deliveries { delivered: Ghost(Seq::empty()), dropped: Ghost(Seq::empty()) }
    }

    /// Calls `futures::channel::oneshot::Sender::send`. It returns `Ok` exactly where the reply has
    /// gone into the channel, so that the reply joins the record of those handed over there, and of
    /// those lost elsewhere. Whether somebody still waits for the reply depends on the other end of
    /// the channel.
    #[verifier::external_body]
    pub(crate) fn hand_over(
        &mut self,
        pending: PendingCompletion,
        reply: CompletionReply,
    ) -> (taken: bool)
        ensures
            taken ==> final(self).log() == old(self).log().push(
                Delivery { channel: pending@, reply: reply@ },
            ),
            taken ==> final(self).lost() == old(self).lost(),
            !taken ==> final(self).log() == old(self).log(),
            !taken ==> final(self).lost() == old(self).lost().push(
                Delivery { channel: pending@, reply: reply@ },
            ),
    {
        pending.sender.send(reply).is_ok()
    }
}

/// What a message from a kernel says.
pub enum MessageContent {
    /// What the kernel is doing.
    Status(ExecutionState),
    /// What the kernel tells about itself.
    KernelInfoReply(KernelInfo),
    /// What the kernel offers to complete code with.
    CompleteReply(CompletionReply),
    /// That the kernel is done with a cell.
    ExecuteReply,
    /// Something else, such as an output.
    Other,
}

/// What a [`MessageContent`] stands for.
#[verifier::ext_equal]
pub enum MessageContentView {
    Status(ExecutionStateView),
    KernelInfoReply(KernelInfoView),
    CompleteReply(CompletionReplyView),
    ExecuteReply,
    Other,
}

impl View for MessageContent {
    type V = MessageContentView;

    open spec fn view(&self) -> MessageContentView {
        match self {
            MessageContent::Status(state) => MessageContentView::Status(state@),
            MessageContent::KernelInfoReply(info) => MessageContentView::KernelInfoReply(info@),
            MessageContent::CompleteReply(reply) => MessageContentView::CompleteReply(reply@),
            MessageContent::ExecuteReply => MessageContentView::ExecuteReply,
            MessageContent::Other => MessageContentView::Other,
        }
    }
}

/// A message from a kernel, taken apart.
pub struct KernelMessage {
    /// The identifier of the request that it answers.
    pub parent: Option<String>,
    pub content: MessageContent,
}

} // verus!
