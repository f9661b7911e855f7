use notebook_editor::completion::{
    clipped_range, completions_from_reply, is_completion_trigger, replacement_range_from_reply,
    typed_character, CompletionDisplay, CompletionFailure, CompletionSource, ReplacedRange,
};
use notebook_editor::message::{CompletionReply, ReplyStatus};

fn reply(matches: &[&str], start: usize, end: usize, status: ReplyStatus) -> CompletionReply {
    CompletionReply {
        matches: matches.iter().map(|text| text.to_string()).collect(),
        cursor_start: start,
        cursor_end: end,
        status,
    }
}

#[test]
fn the_replaced_range_is_in_bytes() {
    let code = "\u{e9}t\u{e9}.na";
    let range = replacement_range_from_reply(code, &reply(&[], 4, 6, ReplyStatus::Success));
    assert_eq!(range, ReplacedRange { start: 6, end: 8 });
    assert_eq!(&code[range.start..range.end], "na");
}

#[test]
fn reversed_places_are_put_in_order() {
    let range = replacement_range_from_reply("abcdef", &reply(&[], 5, 2, ReplyStatus::Success));
    assert_eq!(range, ReplacedRange { start: 2, end: 5 });
}

#[test]
fn places_past_the_end_are_the_end() {
    let range = replacement_range_from_reply("ab", &reply(&[], 1, 99, ReplyStatus::Success));
    assert_eq!(range, ReplacedRange { start: 1, end: 2 });
}

#[test]
fn ranges_cut_no_character_in_two() {
    let code = "x\u{1f600}\u{e9}y";
    for start in 0..6 {
        for end in 0..6 {
            let reply = reply(&[], start, end, ReplyStatus::Success);
            let range = replacement_range_from_reply(code, &reply);
            assert!(range.start <= range.end);
            assert!(code.is_char_boundary(range.start));
            assert!(code.is_char_boundary(range.end));
        }
    }
}

#[test]
fn a_clipped_range_does_not_end_before_it_starts() {
    assert_eq!(clipped_range(4, 2), ReplacedRange { start: 4, end: 4 });
    assert_eq!(clipped_range(2, 4), ReplacedRange { start: 2, end: 4 });
}

#[test]
fn each_match_replaces_the_range() {
    let reply = reply(&["name", "namespace"], 4, 6, ReplyStatus::Success);
    let responses = match completions_from_reply("obj.na", Some(reply)) {
        Ok(responses) => responses,
        Err(_) => panic!("there are completions"),
    };
    assert_eq!(responses.len(), 1);
    assert!(!responses[0].is_incomplete);
    assert_eq!(responses[0].display, CompletionDisplay::Standard);
    let completions = &responses[0].completions;
    assert_eq!(completions.len(), 2);
    assert_eq!(completions[0].new_text, "name");
    assert_eq!(completions[1].new_text, "namespace");
    for completion in completions {
        assert_eq!(completion.range, ReplacedRange { start: 4, end: 6 });
        assert_eq!(completion.label, completion.new_text);
        assert_eq!(completion.source, CompletionSource::Custom);
    }
}

#[test]
fn questions_remain_without_an_answer() {
    let given_up = completions_from_reply("a", None);
    assert!(matches!(given_up, Err(CompletionFailure::Cancelled)));
    assert_eq!(
        CompletionFailure::Cancelled.message(),
        "kernel completion request was cancelled"
    );
    for status in [ReplyStatus::Error, ReplyStatus::Aborted] {
        let failed = completions_from_reply("a", Some(reply(&["ab"], 0, 1, status)));
        assert!(matches!(failed, Err(CompletionFailure::Failed)));
    }
    assert_eq!(CompletionFailure::Failed.message(), "kernel completion request failed");
}

#[test]
fn single_characters_are_told_apart() {
    assert_eq!(typed_character(""), None);
    assert_eq!(typed_character("\u{e9}"), Some('\u{e9}'));
    assert_eq!(typed_character("ab"), None);
}

#[test]
fn completions_come_up_by_themselves() {
    let triggers = vec!["[".to_string()];
    assert!(is_completion_trigger("a", true, true, &triggers));
    assert!(!is_completion_trigger("a", false, true, &triggers));
    assert!(!is_completion_trigger(" ", true, false, &triggers));
    assert!(is_completion_trigger("[", true, false, &triggers));
    assert!(is_completion_trigger(".", false, false, &triggers));
    assert!(!is_completion_trigger("..", true, true, &triggers));
    assert!(!is_completion_trigger("", true, true, &triggers));
}
