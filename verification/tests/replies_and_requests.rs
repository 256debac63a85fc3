use gpt_alarm::request::{completion_request, frame_request, FRAME_MAX_TOKENS, NUM_PARALLEL, PROMPT};
use gpt_alarm::votes::{first_word_of, replies_say_in_bed, strip_marks_of, vote_for_lowered_word, vote_of_reply, Vote};

#[test]
fn first_word_skips_ascii_spaces() {
    assert_eq!(first_word_of("  yes it is"), Some("yes"));
    assert_eq!(first_word_of("\t\nNo.\r\n"), Some("No."));
    assert_eq!(first_word_of("single"), Some("single"));
    assert_eq!(first_word_of(""), None);
    assert_eq!(first_word_of(" \t\r\n\x0c"), None);
}

#[test]
fn vertical_tab_is_not_a_separator() {
    assert_eq!(first_word_of("\x0byes"), Some("\x0byes"));
    assert_eq!(vote_of_reply("\x0byes"), Vote::Unclear);
}

#[test]
fn marks_are_dropped() {
    assert_eq!(strip_marks_of("y.e,s!;"), vec!['y', 'e', 's']);
    assert_eq!(strip_marks_of("..."), Vec::<char>::new());
}

#[test]
fn lowered_words_count() {
    assert_eq!(vote_for_lowered_word("yes."), Vote::InBed);
    assert_eq!(vote_for_lowered_word("true!"), Vote::InBed);
    assert_eq!(vote_for_lowered_word("t"), Vote::InBed);
    assert_eq!(vote_for_lowered_word("T"), Vote::InBed);
    assert_eq!(vote_for_lowered_word("no,"), Vote::NotInBed);
    assert_eq!(vote_for_lowered_word("false;"), Vote::NotInBed);
    assert_eq!(vote_for_lowered_word("f"), Vote::NotInBed);
    assert_eq!(vote_for_lowered_word("F"), Vote::NotInBed);
    assert_eq!(vote_for_lowered_word("YES"), Vote::Unclear);
    assert_eq!(vote_for_lowered_word("maybe"), Vote::Unclear);
}

#[test]
fn replies_are_lowercased_before_reading() {
    assert_eq!(vote_of_reply("YES"), Vote::InBed);
    assert_eq!(vote_of_reply("Yes, someone is lying there."), Vote::InBed);
    assert_eq!(vote_of_reply("No."), Vote::NotInBed);
    assert_eq!(vote_of_reply("FALSE"), Vote::NotInBed);
    assert_eq!(vote_of_reply("T"), Vote::InBed);
    assert_eq!(vote_of_reply("Maybe yes"), Vote::Unclear);
}

#[test]
fn empty_reply_counts_for_nothing() {
    assert_eq!(vote_of_reply(""), Vote::Unclear);
    assert_eq!(vote_of_reply("   "), Vote::Unclear);
}

fn replies(texts: &[&str]) -> Vec<String> {
    texts.iter().map(|t| t.to_string()).collect()
}

#[test]
fn majority_of_replies() {
    assert!(replies_say_in_bed(&replies(&["yes", "Yes.", "no", "yes", "hmm"])));
    assert!(!replies_say_in_bed(&replies(&["no", "No!", "yes", "false", "yes"])));
}

#[test]
fn ties_mean_nobody_in_bed() {
    assert!(!replies_say_in_bed(&replies(&["yes", "no", "maybe", "", "?"])));
    assert!(!replies_say_in_bed(&replies(&[])));
}

#[test]
fn unclear_replies_change_nothing() {
    let base = ["yes", "no", "yes"];
    let with_noise = ["yes", "no", "yes", "perhaps", "", "  "];
    assert_eq!(replies_say_in_bed(&replies(&base)), replies_say_in_bed(&replies(&with_noise)));
}

#[test]
fn completion_request_fields() {
    let r = completion_request("Is it?", "QUJD", 12);
    assert_eq!(r.max_tokens, 12);
    assert_eq!(r.n, 5);
    assert_eq!(r.image_url, "data:image/jpeg;base64,QUJD");
    assert_eq!(r.prompt, "Is it?");
}

#[test]
fn frame_request_encodes_the_frame() {
    let r = frame_request(b"hi");
    assert_eq!(r.image_url, "data:image/jpeg;base64,aGk=");
    assert_eq!(r.max_tokens, FRAME_MAX_TOKENS);
    assert_eq!(r.max_tokens, 30);
    assert_eq!(r.n, NUM_PARALLEL);
    assert_eq!(r.prompt, PROMPT);
    let r = frame_request(&[0xff, 0xd8, 0xff, 0xe0]);
    assert_eq!(r.image_url, "data:image/jpeg;base64,/9j/4A==");
    let r = frame_request(b"hello world~");
    assert_eq!(r.image_url, "data:image/jpeg;base64,aGVsbG8gd29ybGR+");
    let r = frame_request(&[0xfb, 0xff, 0x3e]);
    assert_eq!(r.image_url, "data:image/jpeg;base64,+/8+");
    let r = frame_request(&[]);
    assert_eq!(r.image_url, "data:image/jpeg;base64,");
}

#[test]
fn prompt_text() {
    assert_eq!(
        PROMPT,
        "Is there a person *lying* in the bed? Respond one word: 'yes' or 'no'. This is *not* a trick question. Only say yes if he is clearly visible *and laying down.* **DO NOT say 'yes' if he is standing/sitting.**"
    );
}
