//! Completing code with the help of the kernel.

use vstd::prelude::*;

use crate::execution::{is_attempt, Attempt, CompletionError, CompletionErrorView};
use crate::ids::CellId;
use crate::message::{receiver_channel, CompletionReply, CompletionReplyView, ReplyStatus};
use crate::state::NotebookEditor;
use crate::text::{
    byte_offset_of, byte_offset_to_character_offset, character_offset_to_byte_offset,
    is_character_offset, position_of, texts,
};

verus! {

/// The bytes of a text that a completion replaces.
#[derive(Clone, Copy, PartialEq, Eq, Structural, Debug)]
pub struct ReplacedRange {
    pub start: usize,
    pub end: usize,
}

/// The smaller of two numbers.
pub open spec fn smaller(a: nat, b: nat) -> nat {
    if a <= b {
        a
    } else {
        b
    }
}

/// The larger of two numbers.
pub open spec fn larger(a: nat, b: nat) -> nat {
    if a <= b {
        b
    } else {
        a
    }
}

/// `range` lies between the two places of `code` that a reply names, whichever comes first.
pub open spec fn is_replaced_range(
    code: Seq<char>,
    reply: CompletionReplyView,
    range: ReplacedRange,
) -> bool {
    let a = byte_offset_of(code, reply.cursor_start as int);
    let b = byte_offset_of(code, reply.cursor_end as int);
    range.start == smaller(a, b) && range.end == larger(a, b)
}

/// The bytes of `code` that the completions of a reply replace.
pub fn replacement_range_from_reply(code: &str, reply: &CompletionReply) -> (range: ReplacedRange)
    ensures
        is_replaced_range(code@, reply@, range),
{
    let a: usize = character_offset_to_byte_offset(code, reply.cursor_start);
    let b: usize = character_offset_to_byte_offset(code, reply.cursor_end);
    if a > b {
        ReplacedRange { start: b, end: a }
    } else {
        ReplacedRange { start: a, end: b }
    }
}

/// The range once a buffer has moved its ends to places that it has, where `start` and `end` are
/// what they came to: it never ends before it starts.
pub fn clipped_range(start: usize, end: usize) -> (range: ReplacedRange)
    ensures
        range.start == start,
        range.end == larger(start as nat, end as nat),
{
    ReplacedRange {
        start,
        end: if end < start {
            start
        } else {
            end
        },
    }
}

/// Where a completion comes from.
#[derive(Clone, Copy, PartialEq, Eq, Structural, Debug)]
pub enum CompletionSource {
    /// From something other than a language server.
    Custom,
}

/// A text that can be put in place of a part of the code.
pub struct Completion {
    pub range: ReplacedRange,
    pub new_text: String,
    /// What the list of completions shows.
    pub label: String,
    pub source: CompletionSource,
}

/// What a [`Completion`] stands for.
#[verifier::ext_equal]
pub struct CompletionView {
    pub range: ReplacedRange,
    pub new_text: Seq<char>,
    pub label: Seq<char>,
    pub source: CompletionSource,
}

impl View for Completion {
    type V = CompletionView;

    open spec fn view(&self) -> CompletionView {
        CompletionView {
            range: self.range,
            new_text: self.new_text@,
            label: self.label@,
            source: self.source,
        }
    }
}

/// What each of `completions` stands for.
pub open spec fn completion_views(completions: Seq<Completion>) -> Seq<CompletionView> {
    completions.map_values(|completion: Completion| completion@)
}

/// How a list of completions is shown.
#[derive(Clone, Copy, PartialEq, Eq, Structural, Debug)]
pub enum CompletionDisplay {
    /// As lists of completions are shown unless something else is asked for.
    Standard,
}

/// A list of completions.
pub struct CompletionResponse {
    pub completions: Vec<Completion>,
    pub display: CompletionDisplay,
    /// Whether there are more to be had once more has been typed.
    pub is_incomplete: bool,
}

/// What a [`CompletionResponse`] stands for.
#[verifier::ext_equal]
pub struct CompletionResponseView {
    pub completions: Seq<CompletionView>,
    pub display: CompletionDisplay,
    pub is_incomplete: bool,
}

impl View for CompletionResponse {
    type V = CompletionResponseView;

    open spec fn view(&self) -> CompletionResponseView {
        CompletionResponseView {
            completions: completion_views(self.completions@),
            display: self.display,
            is_incomplete: self.is_incomplete,
        }
    }
}

/// What each of `responses` stands for.
pub open spec fn response_views(responses: Seq<CompletionResponse>) -> Seq<
    CompletionResponseView,
> {
    responses.map_values(|response: CompletionResponse| response@)
}

/// Why a question about completions remains without an answer.
#[derive(Clone, Copy, PartialEq, Eq, Structural, Debug)]
pub enum CompletionFailure {
    /// The question was given up.
    Cancelled,
    /// The kernel could not answer it.
    Failed,
}

/// A failure in words.
pub open spec fn failure_in_words(failure: CompletionFailure) -> Seq<char> {
    match failure {
        CompletionFailure::Cancelled => "kernel completion request was cancelled"@,
        CompletionFailure::Failed => "kernel completion request failed"@,
    }
}

impl CompletionFailure {
    /// The failure in words.
    pub fn message(&self) -> (message: String)
        ensures
            message@ == failure_in_words(*self),
    {
        match self {
            CompletionFailure::Cancelled => "kernel completion request was cancelled".to_string(),
            CompletionFailure::Failed => "kernel completion request failed".to_string(),
        }
    }
}

/// The texts of a reply, each of which replaces `range` and is shown as it is.
pub open spec fn offered(reply: CompletionReplyView, range: ReplacedRange) -> Seq<CompletionView> {
    reply.matches.map_values(
        |text: Seq<char>|
            CompletionView {
                range,
                new_text: text,
                label: text,
                source: CompletionSource::Custom,
            },
    )
}

/// The one list in which the texts of a reply are offered. It is complete.
pub open spec fn response_of(
    reply: CompletionReplyView,
    range: ReplacedRange,
) -> CompletionResponseView {
    CompletionResponseView {
        completions: offered(reply, range),
        display: CompletionDisplay::Standard,
        is_incomplete: false,
    }
}

/// What a result of asking for completions stands for.
pub open spec fn completion_outcome(
    result: Result<Vec<CompletionResponse>, CompletionFailure>,
) -> Result<Seq<CompletionResponseView>, CompletionFailure> {
    match result {
        Ok(responses) => Ok(response_views(responses@)),
        Err(failure) => Err(failure),
    }
}

/// What an optional reply stands for.
pub open spec fn opt_reply(reply: Option<CompletionReply>) -> Option<CompletionReplyView> {
    match reply {
        Some(reply) => Some(reply@),
        None => None,
    }
}

/// The result is what is offered to the user once the kernel has answered, or the question has been
/// given up.
pub open spec fn answers(
    code: Seq<char>,
    reply: Option<CompletionReplyView>,
    result: Result<Seq<CompletionResponseView>, CompletionFailure>,
) -> bool {
    match reply {
        None => result == Err::<Seq<CompletionResponseView>, _>(CompletionFailure::Cancelled),
        Some(reply) => if reply.status != ReplyStatus::Success {
            result == Err::<Seq<CompletionResponseView>, _>(CompletionFailure::Failed)
        } else {
            &&& result is Ok
            &&& exists|range: ReplacedRange| #[trigger]
                is_replaced_range(code, reply, range) && result->Ok_0 == seq![
                    response_of(reply, range),
                ]
        },
    }
}

/// What is offered to the user once the kernel has answered, or the question has been given up.
pub fn completions_from_reply(code: &str, reply: Option<CompletionReply>) -> (result: Result<
    Vec<CompletionResponse>,
    CompletionFailure,
>)
    ensures
        answers(code@, opt_reply(reply), completion_outcome(result)),
{
    let reply = match reply {
        Some(reply) => reply,
        None => {
            return Err(CompletionFailure::Cancelled);
        },
    };
    if reply.status != ReplyStatus::Success {
        return Err(CompletionFailure::Failed);
    }
    let range = replacement_range_from_reply(code, &reply);
    let mut completions: Vec<Completion> = Vec::new();
    let mut i: usize = 0;
    while i < reply.matches.len()
        invariant
            0 <= i <= reply.matches@.len(),
            completions@.len() == i,
            forall|j: int|
                0 <= j < i ==> (#[trigger] completions@[j])@ == offered(reply@, range)[j],
        decreases reply.matches@.len() - i,
    {
        let text = &reply.matches[i];
        completions.push(
            Completion {
                range,
                new_text: text.clone(),
                label: text.clone(),
                source: CompletionSource::Custom,
            },
        );
        i += 1;
    }
    assert(completion_views(completions@) =~= offered(reply@, range));
    let mut responses: Vec<CompletionResponse> = Vec::new();
    responses.push(
        CompletionResponse {
            completions,
            display: CompletionDisplay::Standard,
            is_incomplete: false,
        },
    );
    assert(response_views(responses@) =~= seq![response_of(reply@, range)]);
    Ok(responses)
}

/// The character that was typed, if it was a single one.
pub fn typed_character(text: &str) -> (typed: Option<char>)
    ensures
        typed == (if text@.len() == 1 {
            Some(text@[0])
        } else {
            None
        }),
{
    let ghost chars = text@;
    let mut typed: Option<char> = None;
    let mut count: usize = 0;
    for c in it: text.chars()
        invariant
            it.seq() == chars,
            chars == text@,
            count == it.index(),
            count <= 1,
            typed == (if count == 1 {
                Some(chars[0])
            } else {
                None
            }),
    {
        if count == 1 {
            return None;
        }
        typed = Some(c);
        count += 1;
    }
    typed
}

/// Whether completions are offered without being asked for, after `text` has been typed. That is so
/// for a single character that belongs to a word, where words are completed; for one that triggers
/// completions; and for a dot.
pub open spec fn triggers_completion(
    text: Seq<char>,
    trigger_in_words: bool,
    is_word: bool,
    triggers: Seq<Seq<char>>,
) -> bool {
    text.len() == 1 && (trigger_in_words && is_word || triggers.contains(text) || text[0] == '.')
}

/// Whether completions are offered without being asked for, after `text` has been typed.
pub fn is_completion_trigger(
    text: &str,
    trigger_in_words: bool,
    is_word: bool,
    triggers: &Vec<String>,
) -> (result: bool)
    ensures
        result == triggers_completion(text@, trigger_in_words, is_word, texts(triggers@)),
{
    let typed = match typed_character(text) {
        Some(typed) => typed,
        None => {
            return false;
        },
    };
    if trigger_in_words && is_word {
        return true;
    }
    position_of(triggers, &text.to_string()).is_some() || typed == '.'
}

impl NotebookEditor {
    /// Asks the kernel how to complete the code of a cell at a place given in bytes.
    pub fn begin_completions(
        &mut self,
        cell_id: &CellId,
        code: &str,
        buffer_offset: usize,
    ) -> (result: Result<futures::channel::oneshot::Receiver<CompletionReply>, CompletionError>)
        requires
            old(self).wf(),
        ensures
            final(self).wf(),
            exists|cursor_pos: usize, attempt: Attempt, channel: int| #[trigger]
                old(self)@.asked(cell_id@, code@, cursor_pos, attempt, channel) == final(self)@ && {
                    &&& is_character_offset(code@, buffer_offset as int, cursor_pos as int)
                    &&& is_attempt(attempt)
                    &&& match result {
                        Ok(receiver) => old(self)@.answer(cell_id@, attempt, channel) == Ok::<
                            int,
                            CompletionErrorView,
                        >(receiver_channel(receiver)),
                        Err(error) => old(self)@.answer(cell_id@, attempt, channel) == Err::<
                            int,
                            CompletionErrorView,
                        >(error@),
                    }
                },
    {
        let cursor_pos: usize = byte_offset_to_character_offset(code, buffer_offset);
        self.request_cell_completions(cell_id, code.to_string(), cursor_pos)
    }
}

} // verus!
