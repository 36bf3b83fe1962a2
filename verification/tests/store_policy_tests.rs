use guildbot::policy::{ChannelConfig, GuildConfig, PolicyStore};
use guildbot::store::{get_db_path, ChatMessage, ConversationStore, ConversationTurn, Role};

fn turn(guild: u64, channel: u64, user: u64, role: Role, content: &str, at: u64) -> ConversationTurn {
    ConversationTurn {
        guild_id: guild,
        channel_id: channel,
        user_id: user,
        author_name: format!("user{}", user),
        role,
        content: content.to_string(),
        created_at: at,
    }
}

#[test]
fn history_is_scoped_per_user_with_assistant_turns_shared() {
    let mut store = ConversationStore::new();
    store.save_message(turn(1, 10, 100, Role::User, "from alice", 1));
    store.save_message(turn(1, 10, 200, Role::User, "from bob", 2));
    store.save_message(turn(1, 10, 999, Role::Assistant, "bot answer", 3));
    store.save_message(turn(1, 11, 100, Role::User, "other channel", 4));
    let rows = store.get_chat_history(10, Some(100), 20);
    let contents: Vec<&str> = rows.iter().map(|r| r.content.as_str()).collect();
    assert_eq!(contents, vec!["from alice", "bot answer"]);
}

#[test]
fn shared_scope_pools_every_user() {
    let mut store = ConversationStore::new();
    store.save_message(turn(1, 10, 100, Role::User, "a", 1));
    store.save_message(turn(1, 10, 200, Role::User, "b", 2));
    let rows = store.get_chat_history(10, None, 20);
    assert_eq!(rows.len(), 2);
    assert_eq!(rows[0].content, "a");
    assert_eq!(rows[1].content, "b");
}

#[test]
fn history_window_keeps_the_most_recent_turns_in_order() {
    let mut store = ConversationStore::new();
    for i in 0..25u64 {
        store.save_message(turn(1, 10, 100, Role::User, &format!("m{}", i), i));
    }
    let rows = store.get_chat_history(10, Some(100), 20);
    assert_eq!(rows.len(), 20);
    assert_eq!(rows[0].content, "m5");
    assert_eq!(rows[19].content, "m24");
}

#[test]
fn history_rows_carry_author_and_role() {
    let mut store = ConversationStore::new();
    store.save_message(turn(1, 10, 100, Role::User, "hello", 1));
    let rows: Vec<ChatMessage> = store.get_chat_history(10, None, 5);
    assert_eq!(rows[0].role, Role::User);
    assert_eq!(rows[0].author_name.as_deref(), Some("user100"));
}

#[test]
fn wipes_are_scoped_to_guild_or_channel() {
    let mut store = ConversationStore::new();
    store.save_message(turn(1, 10, 100, Role::User, "keep none", 1));
    store.save_message(turn(2, 20, 100, Role::User, "keep all", 2));
    store.clear_chat_history(1);
    assert_eq!(store.message_count(10), 0);
    assert_eq!(store.message_count(20), 1);
    store.save_message(turn(2, 21, 100, Role::User, "also", 3));
    store.clear_channel_messages(20);
    assert_eq!(store.message_count(20), 0);
    assert_eq!(store.message_count(21), 1);
}

#[test]
fn default_on_miss_for_guild_policy() {
    let store = PolicyStore::new();
    let cfg = store.get_guild_config(42);
    assert_eq!(cfg.guild_id, 42);
    assert_eq!(cfg.chat_model, "gemini-2.5-flash");
    assert_eq!(cfg.image_model, "gemini-3-pro-image");
    assert_eq!(cfg.system_prompt, "You are a helpful assistant.");
}

#[test]
fn default_on_miss_for_channel_policy() {
    let store = PolicyStore::new();
    let cfg = store.get_channel_config(55);
    assert_eq!(cfg.channel_id, 55);
    assert_eq!(cfg.guild_id, 0);
    assert!(!cfg.is_listening);
    assert!(!cfg.shared_chat);
    assert!(!cfg.listen_udin);
}

#[test]
fn updates_upsert_and_last_write_wins() {
    let mut store = PolicyStore::new();
    store.update_channel_config(ChannelConfig {
        channel_id: 55,
        guild_id: 1,
        is_listening: true,
        shared_chat: false,
        listen_udin: false,
    });
    store.update_guild_config(GuildConfig {
        guild_id: 1,
        chat_model: "model-a".to_string(),
        image_model: "img-a".to_string(),
        system_prompt: "p".to_string(),
    });
    assert!(store.get_channel_config(55).is_listening);
    assert_eq!(store.get_guild_config(1).chat_model, "model-a");
    store.update_guild_config(GuildConfig {
        guild_id: 1,
        chat_model: "model-b".to_string(),
        image_model: "img-a".to_string(),
        system_prompt: "p".to_string(),
    });
    assert_eq!(store.get_guild_config(1).chat_model, "model-b");
    // Other keys stay untouched.
    assert_eq!(store.get_guild_config(2).chat_model, "gemini-2.5-flash");
}

#[test]
fn db_path_is_under_the_data_directory() {
    assert_eq!(get_db_path("/data"), "/data/discord_bot.db");
}

#[test]
fn zero_limit_history_is_empty() {
    let mut store = ConversationStore::new();
    store.save_message(turn(1, 10, 100, Role::User, "a", 1));
    assert_eq!(store.get_chat_history(10, None, 0).len(), 0);
}
