use guildbot::emitter::{chunk_reply, emit_replies, ReplyMessage, PLAIN_CEILING, RICH_CEILING};

fn chars(s: &str) -> Vec<char> {
    s.chars().collect()
}

fn string_of(v: &[char]) -> String {
    v.iter().collect()
}

#[test]
fn chunks_reconstruct_the_original_text() {
    // 5000 characters with a space every fifth position.
    let text: String = "word ".repeat(1000);
    let chunks = chunk_reply(&chars(&text));
    let rebuilt: String = chunks.iter().map(|c| string_of(c)).collect::<Vec<_>>().concat();
    assert_eq!(rebuilt, text);
    for c in &chunks {
        assert!(c.len() >= 1);
        assert!(c.len() <= RICH_CEILING);
    }
    assert!(chunks.len() >= 2);
}

#[test]
fn chunks_prefer_the_last_space_before_the_ceiling() {
    let text: String = "word ".repeat(1000);
    let chunks = chunk_reply(&chars(&text));
    // The last space before position 4000 sits at index 3999.
    assert_eq!(chunks[0].len(), 3999);
    assert_eq!(chunks[1][0], ' ');
}

#[test]
fn unbroken_text_is_cut_at_the_ceiling() {
    let text = "x".repeat(8001);
    let chunks = chunk_reply(&chars(&text));
    assert_eq!(chunks.len(), 3);
    assert_eq!(chunks[0].len(), 4000);
    assert_eq!(chunks[1].len(), 4000);
    assert_eq!(chunks[2].len(), 1);
    let rebuilt: String = chunks.iter().map(|c| string_of(c)).collect::<Vec<_>>().concat();
    assert_eq!(rebuilt, text);
}

#[test]
fn short_text_is_one_chunk() {
    let chunks = chunk_reply(&chars("hello"));
    assert_eq!(chunks.len(), 1);
    assert_eq!(string_of(&chunks[0]), "hello");
    assert_eq!(chunk_reply(&chars("")).len(), 0);
}

#[test]
fn empty_reply_without_outcomes_acknowledges() {
    let replies = emit_replies(&chars(""), false);
    assert_eq!(replies.len(), 1);
    match &replies[0] {
        ReplyMessage::Plain(s) => assert_eq!(s, "Action processed."),
        ReplyMessage::Rich(_) => panic!("expected a plain reply"),
    }
}

#[test]
fn empty_reply_with_outcomes_stays_silent() {
    let replies = emit_replies(&chars(""), true);
    assert_eq!(replies.len(), 0);
}

#[test]
fn short_reply_goes_out_plain() {
    let text = "y".repeat(PLAIN_CEILING);
    let replies = emit_replies(&chars(&text), false);
    assert_eq!(replies.len(), 1);
    match &replies[0] {
        ReplyMessage::Plain(s) => assert_eq!(s.len(), PLAIN_CEILING),
        ReplyMessage::Rich(_) => panic!("expected a plain reply"),
    }
}

#[test]
fn over_long_reply_goes_out_as_rich_chunks() {
    let text = "y".repeat(PLAIN_CEILING + 1);
    let replies = emit_replies(&chars(&text), false);
    assert_eq!(replies.len(), 1);
    match &replies[0] {
        ReplyMessage::Rich(s) => assert_eq!(s.len(), PLAIN_CEILING + 1),
        ReplyMessage::Plain(_) => panic!("expected a rich reply"),
    }
    let long = "z".repeat(9000);
    let replies = emit_replies(&chars(&long), false);
    assert_eq!(replies.len(), 3);
    let rebuilt: String = replies
        .iter()
        .map(|m| match m {
            ReplyMessage::Rich(s) => s.clone(),
            ReplyMessage::Plain(_) => panic!("expected rich chunks"),
        })
        .collect::<Vec<_>>()
        .concat();
    assert_eq!(rebuilt, long);
}
