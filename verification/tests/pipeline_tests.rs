use guildbot::directive::{execution_order, extract_directives, SendOutcome, saved_turn_content};
use guildbot::emitter::{emit_replies, ReplyMessage};
use guildbot::mention::{ChannelEntry, Replacement};
use guildbot::pipeline::{
    append_attachment_block, attribute_content, classify_attachment, display_name,
    generic_failure_reply, plan_completion, service_unavailable_reply, should_process,
    AttachmentClass,
};
use guildbot::player::{
    find_player_query, get_stove_level_display, interpret_player_response, player_request_body,
    render_player_profile, PlayerData, PlayerLookupError,
};
use guildbot::policy::{ChannelConfig, PolicyStore};
use guildbot::store::{ConversationStore, ConversationTurn, Role};

fn chars(s: &str) -> Vec<char> {
    s.chars().collect()
}

fn string_of(v: &[char]) -> String {
    v.iter().collect()
}

fn channel_config(listening: bool, shared: bool, udin: bool) -> ChannelConfig {
    ChannelConfig {
        channel_id: 10,
        guild_id: 1,
        is_listening: listening,
        shared_chat: shared,
        listen_udin: udin,
    }
}

#[test]
fn trigger_evaluation() {
    assert!(should_process(&channel_config(true, false, false), false, &chars("x")));
    assert!(should_process(&channel_config(false, false, false), true, &chars("x")));
    assert!(should_process(&channel_config(false, false, true), false, &chars("DINner time")));
    assert!(!should_process(&channel_config(false, false, true), false, &chars("lunch time")));
    assert!(!should_process(&channel_config(false, false, false), false, &chars("din")));
}

#[test]
fn display_name_precedence() {
    let nick = Some("Nick".to_string());
    let global = Some("Global".to_string());
    assert_eq!(display_name(&"user".to_string(), &global, &nick), "Nick");
    assert_eq!(display_name(&"user".to_string(), &global, &None), "Global");
    assert_eq!(display_name(&"user".to_string(), &None, &None), "user");
}

#[test]
fn attribution_format() {
    assert_eq!(attribute_content("Alice", "hello"), "[Alice]: hello");
}

#[test]
fn attachment_classification() {
    let text_type = Some("text/plain".to_string());
    let image_type = Some("image/png".to_string());
    let blob_type = Some("application/octet-stream".to_string());
    assert_eq!(classify_attachment(&text_type, "notes.bin", 100), AttachmentClass::TextFile);
    assert_eq!(classify_attachment(&text_type, "notes.bin", 204800), AttachmentClass::Skipped);
    assert_eq!(classify_attachment(&blob_type, "main.rs", 100), AttachmentClass::TextFile);
    assert_eq!(classify_attachment(&image_type, "pic.png", 100), AttachmentClass::Image);
    assert_eq!(classify_attachment(&image_type, "pic.png", 5242880), AttachmentClass::Skipped);
    assert_eq!(classify_attachment(&blob_type, "data.bin", 100), AttachmentClass::Skipped);
    assert_eq!(classify_attachment(&None, "main.rs", 100), AttachmentClass::Skipped);
}

#[test]
fn attachment_block_format() {
    assert_eq!(
        append_attachment_block("msg".to_string(), "a.txt", "body"),
        "msg\n\n[Attached File 'a.txt']:\n```\nbody\n```"
    );
}

#[test]
fn player_queries_are_spotted_case_insensitively() {
    assert_eq!(find_player_query(&chars("player id 12345")), Some(12345));
    assert_eq!(find_player_query(&chars("cek player 7")), Some(7));
    assert_eq!(find_player_query(&chars("PLAYERID99")), Some(99));
    assert_eq!(find_player_query(&chars("siapa player 00123")), Some(123));
    assert_eq!(find_player_query(&chars("cek akun 5 ok")), Some(5));
    assert_eq!(find_player_query(&chars("who plays here")), None);
    assert_eq!(find_player_query(&chars("player with no number")), None);
}

#[test]
fn oversized_player_id_is_ignored() {
    assert_eq!(find_player_query(&chars("player 99999999999999999999999")), None);
}

#[test]
fn stove_level_display_table() {
    assert_eq!(get_stove_level_display(30), "Level 30");
    assert_eq!(get_stove_level_display(31), "30-1");
    assert_eq!(get_stove_level_display(34), "30-4");
    assert_eq!(get_stove_level_display(35), "FC 1");
    assert_eq!(get_stove_level_display(36), "FC 1-1");
    assert_eq!(get_stove_level_display(40), "FC 2");
    assert_eq!(get_stove_level_display(60), "FC 6");
    assert_eq!(get_stove_level_display(84), "FC 10-4");
    assert_eq!(get_stove_level_display(85), "Level 85");
}

#[test]
fn lookup_request_is_signed_over_the_canonical_string() {
    let body = player_request_body(42, 1700000000000, "topsecret");
    let expected_sign = format!("{:x}", md5::compute("fid=42&time=1700000000000topsecret"));
    assert_eq!(body, format!("sign={}&fid=42&time=1700000000000", expected_sign));
}

#[test]
fn lookup_responses_map_to_profile_or_error() {
    let data = PlayerData {
        fid: 42,
        nickname: "Ayra".to_string(),
        kid: 123,
        stove_lv: 36,
        stove_lv_content: "u".to_string(),
        avatar_image: "a".to_string(),
    };
    match interpret_player_response("", Some(data)) {
        Ok(p) => assert_eq!(p.nickname, "Ayra"),
        Err(_) => panic!("expected a profile"),
    }
    assert!(matches!(
        interpret_player_response("40004", None),
        Err(PlayerLookupError::NotFound)
    ));
    assert!(matches!(interpret_player_response("", None), Err(PlayerLookupError::NoData)));
}

#[test]
fn profile_reply_has_the_fixed_format() {
    let data = PlayerData {
        fid: 42,
        nickname: "Ayra".to_string(),
        kid: 123,
        stove_lv: 36,
        stove_lv_content: "u".to_string(),
        avatar_image: "a".to_string(),
    };
    assert_eq!(
        render_player_profile(&data),
        "Player: Ayra\nFID: 42\nFurnace Level: FC 1-1\nState: 123"
    );
}

#[test]
fn failure_replies_are_fixed() {
    assert_eq!(
        generic_failure_reply(),
        "Something went wrong with the bot. Please try again later."
    );
    assert_eq!(
        service_unavailable_reply(),
        "The AI service is currently unavailable. Please try again later."
    );
}

#[test]
fn plan_resolves_targets_and_bodies_in_reverse_order() {
    let channels = vec![
        ChannelEntry { channel_id: 5, name: "general".to_string() },
        ChannelEntry { channel_id: 6, name: "random".to_string() },
    ];
    let reps = vec![Replacement { pattern: "@Ann".to_string(), value: "<@77>".to_string() }];
    let (sends, visible) = plan_completion(
        "done [[SEND:#general:hi @Ann]][[SEND:random:second]]",
        &channels,
        &reps,
        &None,
    );
    assert_eq!(sends.len(), 2);
    assert_eq!(sends[0].target_reference, "random");
    assert_eq!(sends[0].channel_id, Some(6));
    assert_eq!(sends[0].body, "second");
    assert_eq!(sends[1].target_reference, "#general");
    assert_eq!(sends[1].channel_id, Some(5));
    assert_eq!(sends[1].body, "hi <@77>");
    assert_eq!(string_of(&visible), "done");
}

#[test]
fn plan_substitutes_visible_text_only_through_a_cache() {
    let channels: Vec<ChannelEntry> = vec![];
    let reps = vec![Replacement { pattern: "@Ann".to_string(), value: "<@77>".to_string() }];
    let (_, bare) = plan_completion("hello @Ann", &channels, &reps, &None);
    assert_eq!(string_of(&bare), "hello @Ann");
    let cache = Some(vec![Replacement { pattern: "@Ann".to_string(), value: "<@77>".to_string() }]);
    let (_, cached) = plan_completion("hello @Ann", &channels, &reps, &cache);
    assert_eq!(string_of(&cached), "hello <@77>");
}

#[test]
fn listening_channel_end_to_end() {
    // A listening-enabled channel receives "hello".
    let mut policies = PolicyStore::new();
    policies.update_channel_config(ChannelConfig {
        channel_id: 10,
        guild_id: 1,
        is_listening: true,
        shared_chat: false,
        listen_udin: false,
    });
    let config = policies.get_channel_config(10);
    assert!(should_process(&config, false, &chars("hello")));

    // The user turn is persisted with attribution before the model call.
    let mut store = ConversationStore::new();
    store.save_message(ConversationTurn {
        guild_id: 1,
        channel_id: 10,
        user_id: 100,
        author_name: "Alice".to_string(),
        role: Role::User,
        content: attribute_content("Alice", "hello"),
        created_at: 1,
    });
    let history = store.get_chat_history(10, Some(100), 20);
    assert!(history.len() <= 20);
    assert_eq!(history[0].content, "[Alice]: hello");

    // The completion embeds one directive.
    let completion = "hi [[SEND:#general:ping]]";
    let channels = vec![ChannelEntry { channel_id: 5, name: "general".to_string() }];
    let (sends, visible) = plan_completion(completion, &channels, &vec![], &None);
    assert_eq!(sends.len(), 1);
    assert_eq!(sends[0].channel_id, Some(5));
    assert_eq!(sends[0].body, "ping");
    assert_eq!(string_of(&visible), "hi");

    // Delivery succeeded; the reply and the persisted assistant turn follow.
    let outcomes = vec![SendOutcome::Sent { reference: sends[0].target_reference.clone() }];
    let replies = emit_replies(&visible, true);
    assert_eq!(replies.len(), 1);
    match &replies[0] {
        ReplyMessage::Plain(s) => assert_eq!(s, "hi"),
        ReplyMessage::Rich(_) => panic!("expected a plain reply"),
    }
    let saved = saved_turn_content(&string_of(&visible), &outcomes);
    assert_eq!(saved, "hi\n[System Report: Message sent to #general]");
    store.save_message(ConversationTurn {
        guild_id: 1,
        channel_id: 10,
        user_id: 999,
        author_name: "bot".to_string(),
        role: Role::Assistant,
        content: saved,
        created_at: 2,
    });
    let after = store.get_chat_history(10, Some(100), 20);
    assert_eq!(after.len(), 2);
    assert_eq!(after[1].content, "hi\n[System Report: Message sent to #general]");
}

#[test]
fn directive_scan_is_idempotent_on_the_planned_visible_text() {
    let (_, visible) = plan_completion("before [[SEND:a:b]] after", &vec![], &vec![], &None);
    let (again, _) = extract_directives(&visible);
    assert_eq!(again.len(), 0);
    let ordered = execution_order(again);
    assert_eq!(ordered.len(), 0);
}
