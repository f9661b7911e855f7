//! Which part of the code completions replace, and what is offered in its place.

use vstd::prelude::*;
use vstd::utf8::*;

use crate::completion::{
    answers, completion_outcome, completion_views, failure_in_words, is_replaced_range, larger,
    offered, opt_reply, response_of, response_views, smaller, triggers_completion, Completion,
    CompletionDisplay, CompletionFailure, CompletionResponse, CompletionResponseView,
    CompletionSource, ReplacedRange,
};
use crate::message::{
    CompletionReply, CompletionReplyView, KernelMessage, MessageContent, MessageContentView,
    ReplyStatus,
};
use crate::text::{
    byte_offset_of, is_character_offset, lemma_encode_concat, lemma_prefix_monotonic, prefix_bytes,
};

verus! {

/// A text is in bytes what it is before a character, and what it is from there on, one behind the
/// other; so the place of the character is where the second part starts.
proof fn lemma_cut(chars: Seq<char>, n: int)
    requires
        0 <= n <= chars.len(),
    ensures
        encode_utf8(chars) == encode_utf8(chars.take(n)) + encode_utf8(chars.skip(n)),
        prefix_bytes(chars, n) == encode_utf8(chars.take(n)).len(),
        prefix_bytes(chars, n) <= encode_utf8(chars).len(),
        encode_utf8(chars).take(prefix_bytes(chars, n) as int) == encode_utf8(chars.take(n)),
        encode_utf8(chars).skip(prefix_bytes(chars, n) as int) == encode_utf8(chars.skip(n)),
{
    assert(chars =~= chars.take(n) + chars.skip(n));
    lemma_encode_concat(chars.take(n), chars.skip(n));
    let bytes = encode_utf8(chars);
    assert(bytes.take(prefix_bytes(chars, n) as int) =~= encode_utf8(chars.take(n)));
    assert(bytes.skip(prefix_bytes(chars, n) as int) =~= encode_utf8(chars.skip(n)));
}

/// The place of a character in bytes is where the bytes of the characters before it end; behind the
/// last one it is the end of the text.
pub proof fn bytes_before_a_character(chars: Seq<char>, n: int)
    requires
        0 <= n,
    ensures
        byte_offset_of(chars, n) <= encode_utf8(chars).len(),
        n <= chars.len() ==> encode_utf8(chars).take(byte_offset_of(chars, n) as int)
            == encode_utf8(chars.take(n)),
        n <= chars.len() ==> encode_utf8(chars).skip(byte_offset_of(chars, n) as int)
            == encode_utf8(chars.skip(n)),
        n >= chars.len() ==> byte_offset_of(chars, n) == encode_utf8(chars).len(),
{
    if n <= chars.len() {
        lemma_cut(chars, n);
    }
    lemma_cut(chars, chars.len() as int);
    assert(chars.take(chars.len() as int) =~= chars);
}

/// A place in bytes belongs to as many characters as lie wholly before it, and to no more: their
/// bytes end there or before, and those of any more characters end behind it.
pub proof fn characters_before_a_byte(chars: Seq<char>, byte_offset: int, n: int, m: int)
    requires
        is_character_offset(chars, byte_offset, n),
        0 <= m <= chars.len(),
    ensures
        0 <= n <= chars.len(),
        m <= n ==> encode_utf8(chars.take(m)).len() <= byte_offset,
        m > n ==> encode_utf8(chars.take(m)).len() > byte_offset,
        byte_offset >= encode_utf8(chars).len() ==> n == chars.len(),
        byte_offset == encode_utf8(chars.take(m)).len() ==> n == m,
{
    if m <= n {
        lemma_prefix_monotonic(chars, m, n);
    } else {
        lemma_prefix_monotonic(chars, n + 1, m);
    }
    if n < chars.len() {
        lemma_prefix_monotonic(chars, n + 1, chars.len() as int);
    }
    assert(chars.take(chars.len() as int) =~= chars);
}

/// What completions replace is the text between the two places that the kernel names, whichever
/// comes first, and nothing else; a place behind the end is the end. In bytes, what lies before the
/// range is the code before the first place, what lies in it is the code between the two, and what
/// lies behind it is the code from the second place on.
pub proof fn completions_replace_what_the_kernel_names(
    code: Seq<char>,
    reply: CompletionReplyView,
    range: ReplacedRange,
    start: int,
    end: int,
    first: int,
    second: int,
)
    requires
        is_replaced_range(code, reply, range),
        first <= second,
        reply.cursor_start <= code.len() ==> start == reply.cursor_start,
        reply.cursor_start > code.len() ==> start == code.len(),
        reply.cursor_end <= code.len() ==> end == reply.cursor_end,
        reply.cursor_end > code.len() ==> end == code.len(),
        (first == start && second == end) || (first == end && second == start),
    ensures
        range.start <= range.end <= encode_utf8(code).len(),
        encode_utf8(code).take(range.start as int) == encode_utf8(code.take(first)),
        encode_utf8(code).subrange(range.start as int, range.end as int) == encode_utf8(
            code.subrange(first, second),
        ),
        encode_utf8(code).skip(range.end as int) == encode_utf8(code.skip(second)),
{
    lemma_cut(code, first);
    lemma_cut(code, second);
    lemma_prefix_monotonic(code, first, second);
    let between = code.subrange(first, second);
    assert(code.take(second) =~= code.take(first) + between);
    lemma_encode_concat(code.take(first), between);
    assert(range.start == prefix_bytes(code, first));
    assert(range.end == prefix_bytes(code, second));
    assert(encode_utf8(code).subrange(range.start as int, range.end as int) =~= encode_utf8(
        code.take(second),
    ).skip(range.start as int));
    assert(encode_utf8(code.take(second)).skip(range.start as int) =~= encode_utf8(between));
}

/// Where the places that the kernel names lie in the code, one not behind the other, the bytes that
/// completions replace are those of the characters between them.
pub proof fn the_range_is_the_named_characters(
    code: Seq<char>,
    reply: CompletionReplyView,
    range: ReplacedRange,
)
    requires
        is_replaced_range(code, reply, range),
        reply.cursor_start <= reply.cursor_end <= code.len(),
    ensures
        range.start <= range.end <= encode_utf8(code).len(),
        encode_utf8(code).subrange(range.start as int, range.end as int) == encode_utf8(
            code.subrange(reply.cursor_start as int, reply.cursor_end as int),
        ),
        reply.cursor_start == reply.cursor_end ==> range.start == range.end,
{
    completions_replace_what_the_kernel_names(
        code,
        reply,
        range,
        reply.cursor_start as int,
        reply.cursor_end as int,
        reply.cursor_start as int,
        reply.cursor_end as int,
    );
}

/// The order in which the kernel names the two places makes no difference.
pub proof fn the_places_may_be_named_in_either_order(
    code: Seq<char>,
    a: CompletionReplyView,
    b: CompletionReplyView,
    range: ReplacedRange,
)
    requires
        a.cursor_start == b.cursor_end,
        a.cursor_end == b.cursor_start,
    ensures
        is_replaced_range(code, a, range) <==> is_replaced_range(code, b, range),
{
}

/// The smaller and the larger of two numbers are the two, in their order.
pub proof fn the_smaller_comes_first(a: nat, b: nat)
    ensures
        smaller(a, b) <= larger(a, b),
        smaller(a, b) + larger(a, b) == a + b,
        smaller(a, b) == a || smaller(a, b) == b,
{
}

/// Each text that the kernel offers is offered to the user once and in its place, as what is shown
/// and as what is put in place of the named part; nothing else is offered.
pub proof fn what_the_kernel_offers_is_offered(
    reply: CompletionReplyView,
    range: ReplacedRange,
    i: int,
)
    ensures
        offered(reply, range).len() == reply.matches.len(),
        0 <= i < reply.matches.len() ==> {
            &&& offered(reply, range)[i].new_text == reply.matches[i]
            &&& offered(reply, range)[i].label == reply.matches[i]
            &&& offered(reply, range)[i].range == range
            &&& offered(reply, range)[i].source == CompletionSource::Custom
        },
        response_of(reply, range).completions == offered(reply, range),
        !response_of(reply, range).is_incomplete,
        response_of(reply, range).display == CompletionDisplay::Standard,
{
}

/// Completions and lists of them stand for what their fields hold, one for each and in their order.
pub proof fn completions_are_their_fields(
    completions: Seq<Completion>,
    responses: Seq<CompletionResponse>,
    i: int,
)
    ensures
        completion_views(completions).len() == completions.len(),
        0 <= i < completions.len() ==> {
            &&& completion_views(completions)[i].new_text == completions[i].new_text@
            &&& completion_views(completions)[i].label == completions[i].label@
            &&& completion_views(completions)[i].range == completions[i].range
            &&& completion_views(completions)[i].source == completions[i].source
        },
        response_views(responses).len() == responses.len(),
        0 <= i < responses.len() ==> {
            &&& response_views(responses)[i].completions == completion_views(
                responses[i].completions@,
            )
            &&& response_views(responses)[i].display == responses[i].display
            &&& response_views(responses)[i].is_incomplete == responses[i].is_incomplete
        },
{
}

/// A reply stands for what its fields hold, and a message for what it says.
pub proof fn messages_are_their_fields(reply: CompletionReply, message: KernelMessage)
    ensures
        reply@.matches.len() == reply.matches@.len(),
        forall|i: int|
            0 <= i < reply.matches@.len() ==> #[trigger] reply@.matches[i] == reply.matches@[i]@,
        reply@.cursor_start == reply.cursor_start,
        reply@.cursor_end == reply.cursor_end,
        reply@.status == reply.status,
        match message.content {
            MessageContent::Status(state) => message.content@ == MessageContentView::Status(state@),
            MessageContent::KernelInfoReply(info) => message.content@
                == MessageContentView::KernelInfoReply(info@),
            MessageContent::CompleteReply(reply) => message.content@
                == MessageContentView::CompleteReply(reply@),
            MessageContent::ExecuteReply => message.content@ is ExecuteReply,
            MessageContent::Other => message.content@ is Other,
        },
{
}

/// A question that was given up is told apart from one that the kernel could not answer.
pub proof fn missing_answers_are_told_apart()
    ensures
        failure_in_words(CompletionFailure::Cancelled)
            == "kernel completion request was cancelled"@,
        failure_in_words(CompletionFailure::Failed) == "kernel completion request failed"@,
        failure_in_words(CompletionFailure::Cancelled) != failure_in_words(
            CompletionFailure::Failed,
        ),
{
    reveal_strlit("kernel completion request was cancelled");
    reveal_strlit("kernel completion request failed");
    assert("kernel completion request was cancelled"@.len() == 39);
    assert("kernel completion request failed"@.len() == 32);
}

/// What comes of asking for completions: nothing if the question was given up, nothing if the
/// kernel could not answer, and otherwise one list with each text that the kernel offered, in place
/// of the part of the code that it names.
pub proof fn what_comes_of_asking(
    code: Seq<char>,
    reply: Option<CompletionReplyView>,
    result: Result<Seq<CompletionResponseView>, CompletionFailure>,
    i: int,
)
    requires
        answers(code, reply, result),
    ensures
        reply is None <==> result == Err::<Seq<CompletionResponseView>, CompletionFailure>(
            CompletionFailure::Cancelled,
        ),
        result == Err::<Seq<CompletionResponseView>, CompletionFailure>(CompletionFailure::Failed)
            <==> reply is Some && reply->0.status != ReplyStatus::Success,
        result is Ok <==> reply is Some && reply->0.status == ReplyStatus::Success,
        result is Ok ==> {
            &&& result->Ok_0.len() == 1
            &&& !result->Ok_0[0].is_incomplete
            &&& result->Ok_0[0].completions.len() == reply->0.matches.len()
            &&& 0 <= i < reply->0.matches.len() ==> {
                &&& result->Ok_0[0].completions[i].new_text == reply->0.matches[i]
                &&& result->Ok_0[0].completions[i].label == reply->0.matches[i]
                &&& is_replaced_range(code, reply->0, result->Ok_0[0].completions[i].range)
            }
        },
{
}

/// What comes of asking stands for what was asked for and what came.
pub proof fn answers_are_their_fields(
    reply: CompletionReply,
    responses: Vec<CompletionResponse>,
    failure: CompletionFailure,
)
    ensures
        opt_reply(Some(reply)) == Some(reply@),
        opt_reply(None) is None,
        completion_outcome(Ok(responses)) == Ok::<Seq<CompletionResponseView>, CompletionFailure>(
            response_views(responses@),
        ),
        completion_outcome(Err(failure)) == Err::<Seq<CompletionResponseView>, CompletionFailure>(
            failure,
        ),
{
}

/// Completions are offered unasked after a dot, after a character that the kernel named, and within
/// words where that is wanted; after more than one character, or none, they never are.
pub proof fn when_completions_are_offered_unasked(
    text: Seq<char>,
    in_words: bool,
    is_word: bool,
    triggers: Seq<Seq<char>>,
    c: char,
)
    ensures
        text.len() != 1 ==> !triggers_completion(text, in_words, is_word, triggers),
        triggers_completion(seq!['.'], in_words, is_word, triggers),
        text.len() == 1 && triggers.contains(text) ==> triggers_completion(
            text,
            in_words,
            is_word,
            triggers,
        ),
        text.len() == 1 && is_word ==> triggers_completion(text, true, is_word, triggers),
        c != '.' && !triggers.contains(seq![c]) ==> !triggers_completion(
            seq![c],
            false,
            is_word,
            triggers,
        ) && !triggers_completion(seq![c], in_words, false, triggers),
{
}

} // verus!
