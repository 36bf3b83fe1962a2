use guildbot::directive::{
    any_failure, consolidated_report, execution_order, extract_directives, outcome_line_string,
    resolve_target, saved_turn_content, SendOutcome,
};
use guildbot::mention::ChannelEntry;

fn chars(s: &str) -> Vec<char> {
    s.chars().collect()
}

fn string_of(v: &[char]) -> String {
    v.iter().collect()
}

#[test]
fn extracts_one_directive_with_span_and_trimming() {
    let text = chars("hi [[SEND: #general : ping ]]!");
    let (dirs, visible) = extract_directives(&text);
    assert_eq!(dirs.len(), 1);
    assert_eq!(dirs[0].target_reference, "#general");
    assert_eq!(dirs[0].body, "ping");
    assert_eq!(dirs[0].start, 3);
    assert_eq!(dirs[0].end, 29);
    assert_eq!(string_of(&visible), "hi !");
}

#[test]
fn body_may_hold_newlines_and_colons() {
    let text = chars("[[SEND:general:line1\nline2: more]]");
    let (dirs, visible) = extract_directives(&text);
    assert_eq!(dirs.len(), 1);
    assert_eq!(dirs[0].target_reference, "general");
    assert_eq!(dirs[0].body, "line1\nline2: more");
    assert_eq!(string_of(&visible), "");
}

#[test]
fn scan_finds_all_matches_in_textual_order() {
    let text = chars("[[SEND:A:1]][[SEND:B:2]] tail");
    let (dirs, visible) = extract_directives(&text);
    assert_eq!(dirs.len(), 2);
    assert_eq!(dirs[0].target_reference, "A");
    assert_eq!(dirs[1].target_reference, "B");
    assert_eq!(string_of(&visible), " tail");
}

#[test]
fn reverse_execution_order() {
    let text = chars("[[SEND:A:1]][[SEND:B:2]]");
    let (dirs, _) = extract_directives(&text);
    let ordered = execution_order(dirs);
    // The send targeting B executes before the send targeting A.
    assert_eq!(ordered[0].target_reference, "B");
    assert_eq!(ordered[0].body, "2");
    assert_eq!(ordered[1].target_reference, "A");
    assert_eq!(ordered[1].body, "1");
}

#[test]
fn stripping_then_rescanning_finds_nothing() {
    let text = chars("a [[SEND:x:y]] b [[SEND:z:w]] c");
    let (_, visible) = extract_directives(&text);
    assert_eq!(string_of(&visible), "a  b  c");
    let (again, unchanged) = extract_directives(&visible);
    assert_eq!(again.len(), 0);
    assert_eq!(unchanged, visible);
}

#[test]
fn incomplete_directives_stay_in_the_text() {
    let text = chars("[[SEND:no close");
    let (dirs, visible) = extract_directives(&text);
    assert_eq!(dirs.len(), 0);
    assert_eq!(string_of(&visible), "[[SEND:no close");
}

#[test]
fn resolve_target_reads_ids_directly() {
    let channels = vec![ChannelEntry { channel_id: 7, name: "general".to_string() }];
    assert_eq!(resolve_target("<#123>", &channels), Some(123));
    assert_eq!(resolve_target("123", &channels), Some(123));
}

#[test]
fn resolve_target_matches_names_case_insensitively() {
    let channels = vec![
        ChannelEntry { channel_id: 7, name: "general".to_string() },
        ChannelEntry { channel_id: 8, name: "random".to_string() },
    ];
    assert_eq!(resolve_target("#General", &channels), Some(7));
    assert_eq!(resolve_target("RANDOM", &channels), Some(8));
    assert_eq!(resolve_target("#nosuch", &channels), None);
}

#[test]
fn oversized_numeric_target_falls_back_to_name_lookup() {
    let channels = vec![ChannelEntry {
        channel_id: 9,
        name: "99999999999999999999999".to_string(),
    }];
    assert_eq!(resolve_target("99999999999999999999999", &channels), Some(9));
    assert_eq!(resolve_target("88888888888888888888888", &channels), None);
}

#[test]
fn outcome_lines_and_failure_detection() {
    let sent = SendOutcome::Sent { reference: "#general".to_string() };
    let unresolved = SendOutcome::Unresolved { reference: "ghost".to_string() };
    let failed = SendOutcome::SendFailed {
        reference: "#general".to_string(),
        error: "forbidden".to_string(),
    };
    assert_eq!(outcome_line_string(&sent), "Message sent to #general");
    assert_eq!(outcome_line_string(&unresolved), "Could not find channel 'ghost'");
    assert_eq!(outcome_line_string(&failed), "Failed to send to #general: forbidden");
    assert!(!any_failure(&vec![
        SendOutcome::Sent { reference: "a".to_string() },
        SendOutcome::Sent { reference: "b".to_string() },
    ]));
    assert!(any_failure(&vec![
        SendOutcome::Sent { reference: "a".to_string() },
        SendOutcome::Unresolved { reference: "b".to_string() },
    ]));
}

#[test]
fn consolidated_report_lists_every_outcome() {
    let outcomes = vec![
        SendOutcome::Sent { reference: "#a".to_string() },
        SendOutcome::Unresolved { reference: "b".to_string() },
    ];
    assert_eq!(
        consolidated_report(&outcomes),
        "System Report:\nMessage sent to #a\nCould not find channel 'b'"
    );
}

#[test]
fn saved_turn_records_directive_outcomes() {
    let outcomes = vec![SendOutcome::Sent { reference: "#general".to_string() }];
    assert_eq!(
        saved_turn_content("hi", &outcomes),
        "hi\n[System Report: Message sent to #general]"
    );
    assert_eq!(saved_turn_content("hi", &vec![]), "hi");
}

#[test]
fn id_values_at_the_numeric_boundary() {
    let channels: Vec<ChannelEntry> = vec![];
    assert_eq!(
        resolve_target("18446744073709551615", &channels),
        Some(18446744073709551615)
    );
    // One past the largest id falls back to (failed) name lookup.
    assert_eq!(resolve_target("18446744073709551616", &channels), None);
}

#[test]
fn leading_hashes_are_stripped_for_name_lookup() {
    let channels = vec![ChannelEntry { channel_id: 7, name: "general".to_string() }];
    assert_eq!(resolve_target("##general", &channels), Some(7));
}

#[test]
fn confirmation_text_is_fixed() {
    assert_eq!(guildbot::directive::send_confirmation_reply(), "Message sent.");
}
