use base64::Engine;
use guildbot::context::{
    assemble_turns, build_entity_context, extract_channel_mentions, image_data_url,
    rewrite_last_with_images, url_is_png, NamedRef, ReferencedMessage, Turn, TurnContent,
    TurnPart, TurnRole,
};
use guildbot::imagine::{
    chosen_image_model, imagine_failure_reply, interpret_image_content, normalized_count,
    ImagePayload, ImageSize,
};
use guildbot::policy::{ChannelConfig, GuildConfig};
use guildbot::settings::{apply_settings_action, SettingsAction};
use guildbot::spotify::{basic_auth_value, search_path, token_is_fresh, SearchType, SpotifyToken};
use guildbot::stats::{
    compute_discord_stats, ChannelRow, DiscordLogEntry, LogBuffer, LOG_CAPACITY,
};
use guildbot::store::{ChatMessage, Role};

fn chars(s: &str) -> Vec<char> {
    s.chars().collect()
}

#[test]
fn channel_mentions_are_collected_once_in_first_seen_order() {
    let ids = extract_channel_mentions(&chars("see <#34> then <#12> and <#34> again"));
    assert_eq!(ids, vec![34, 12]);
    assert_eq!(extract_channel_mentions(&chars("no tokens <#> <#x> <12>")), Vec::<u64>::new());
    assert_eq!(extract_channel_mentions(&chars("<#99999999999999999999999>")), Vec::<u64>::new());
}

#[test]
fn data_urls_embed_base64_content() {
    let bytes = b"hi".to_vec();
    assert_eq!(image_data_url(&bytes, true), "data:image/png;base64,aGk=");
    assert_eq!(image_data_url(&bytes, false), "data:image/jpeg;base64,aGk=");
    assert!(url_is_png(&chars("http://x/y.png")));
    assert!(!url_is_png(&chars("http://x/y.jpg")));
}

#[test]
fn entity_context_layout() {
    let author = NamedRef { id: 1, name: "Alice".to_string() };
    let users = vec![NamedRef { id: 2, name: "Bob".to_string() }];
    let roles = vec![NamedRef { id: 3, name: "Mod".to_string() }];
    let channels = vec![NamedRef { id: 4, name: "general".to_string() }];
    let referenced = Some(ReferencedMessage {
        author_name: "Bob".to_string(),
        content: "line1\nline2".to_string(),
    });
    let ctx = build_entity_context(&author, &users, &roles, &channels, &referenced, true);
    assert!(ctx.starts_with("\n[SYSTEM: ENTITY CONTEXT]\n"));
    assert!(ctx.contains("The user speaking to you now is: Alice (ID: 1)"));
    assert!(ctx.contains("Users:\n- @Bob: <@2>\n"));
    assert!(ctx.contains("Roles:\n- @Mod: <@&3>\n"));
    assert!(ctx.contains("Channels:\n- #general: <#4>\n"));
    // The replied-to excerpt is flattened onto one line.
    assert!(ctx.contains("User is replying to message by @Bob:\n\"line1 line2\"\n"));
    assert!(ctx.contains("[[SEND:<#ChannelID>:Your Message Content]]"));
    assert!(ctx.contains("[SYSTEM: FRIENDLY NICKNAMES]"));
    assert!(ctx.contains("[SYSTEM: IMAGE ATTACHED]"));

    let bare = build_entity_context(&author, &vec![], &vec![], &vec![], &None, false);
    assert!(!bare.contains("Users:"));
    assert!(!bare.contains("[SYSTEM: IMAGE ATTACHED]"));
}

#[test]
fn turns_start_with_the_system_turn() {
    let history = vec![
        ChatMessage {
            role: Role::User,
            author_name: Some("Alice".to_string()),
            content: "[Alice]: hi".to_string(),
        },
        ChatMessage { role: Role::Assistant, author_name: None, content: "hello".to_string() },
    ];
    let turns = assemble_turns("persona".to_string(), &history);
    assert_eq!(turns.len(), 3);
    assert!(matches!(turns[0].role, TurnRole::System));
    match &turns[0].content {
        TurnContent::Plain(s) => assert_eq!(s, "persona"),
        TurnContent::Parts(_) => panic!("expected plain system turn"),
    }
    assert!(matches!(turns[1].role, TurnRole::User));
    assert!(matches!(turns[2].role, TurnRole::Assistant));
}

#[test]
fn multimodal_rewrite_replaces_only_the_newest_user_turn() {
    let history = vec![ChatMessage {
        role: Role::User,
        author_name: Some("Alice".to_string()),
        content: "look".to_string(),
    }];
    let turns = assemble_turns("persona".to_string(), &history);
    let urls = vec!["data:image/png;base64,aGk=".to_string()];
    let rewritten = rewrite_last_with_images(turns, urls);
    assert_eq!(rewritten.len(), 2);
    match &rewritten[1].content {
        TurnContent::Parts(parts) => {
            assert_eq!(parts.len(), 2);
            match &parts[0] {
                TurnPart::Text(t) => assert_eq!(t, "look"),
                TurnPart::ImageUrl(_) => panic!("first part must be the text"),
            }
            match &parts[1] {
                TurnPart::ImageUrl(u) => assert_eq!(u, "data:image/png;base64,aGk="),
                TurnPart::Text(_) => panic!("second part must be the image"),
            }
        },
        TurnContent::Plain(_) => panic!("expected a parts turn"),
    }
    // An assistant turn at the end is left alone.
    let turns = vec![Turn {
        role: TurnRole::Assistant,
        content: TurnContent::Plain("x".to_string()),
    }];
    let untouched = rewrite_last_with_images(turns, vec!["u".to_string()]);
    assert!(matches!(untouched[0].content, TurnContent::Plain(_)));
}

#[test]
fn image_payload_interpretation() {
    match interpret_image_content("https://cdn.example/i.png") {
        ImagePayload::UrlRef(u) => assert_eq!(u, "https://cdn.example/i.png"),
        _ => panic!("expected a URL"),
    }
    match interpret_image_content("![alt](http://cdn.example/i.png)") {
        ImagePayload::UrlRef(u) => assert_eq!(u, "http://cdn.example/i.png"),
        _ => panic!("expected the linked URL"),
    }
    match interpret_image_content("data:image/png;base64,aG\nk=") {
        ImagePayload::FileBytes(b) => assert_eq!(b, b"hi".to_vec()),
        _ => panic!("expected decoded bytes"),
    }
    assert!(matches!(interpret_image_content("not base64 !!!"), ImagePayload::DecodeFailed));
}

#[test]
fn imagine_choices() {
    assert_eq!(ImageSize::Square.dimensions(), "1024x1024");
    assert_eq!(ImageSize::Portrait.dimensions(), "720x1280");
    assert_eq!(ImageSize::Landscape.dimensions(), "1280x720");
    assert_eq!(chosen_image_model(""), "gemini-3-pro-image");
    assert_eq!(chosen_image_model("custom"), "custom");
    assert_eq!(normalized_count(None), 1);
    assert_eq!(normalized_count(Some(0)), 1);
    assert_eq!(normalized_count(Some(4)), 4);
    assert_eq!(
        imagine_failure_reply("err: Only one candidate can be specified for this model"),
        "This model only supports generating 1 image at a time. Please try again without the count parameter or set it to 1."
    );
    assert_eq!(
        imagine_failure_reply("boom"),
        "Something went wrong with the bot. Please try again later."
    );
}

#[test]
fn spotify_helpers() {
    assert_eq!(SearchType::Track.as_str(), "track");
    assert_eq!(SearchType::Playlist.as_str(), "playlist");
    assert_eq!(SearchType::Artist.as_str(), "artist");
    let token = SpotifyToken { access_token: "t".to_string(), expires_at_millis: 100_000 };
    assert!(token_is_fresh(&token, 30_000));
    assert!(!token_is_fresh(&token, 40_000));
    assert!(!token_is_fresh(&token, u64::MAX));
    let auth = basic_auth_value("id", "secret");
    assert_eq!(auth, base64::engine::general_purpose::STANDARD.encode("id:secret"));
    assert_eq!(auth, "aWQ6c2VjcmV0");
    assert_eq!(
        search_path("hello%20world", SearchType::Track, 5),
        "https://api.spotify.com/v1/search?q=hello%20world&type=track&limit=5"
    );
}

#[test]
fn log_buffer_drops_the_oldest_at_capacity() {
    let mut buf = LogBuffer::new();
    for i in 0..(LOG_CAPACITY + 1) {
        buf.push_log(DiscordLogEntry {
            timestamp: "t".to_string(),
            level: "info".to_string(),
            message: format!("m{}", i),
        });
    }
    assert_eq!(buf.entries.len(), LOG_CAPACITY);
    assert_eq!(buf.entries[0].message, "m1");
    assert_eq!(buf.entries[LOG_CAPACITY - 1].message, format!("m{}", LOG_CAPACITY));
    buf.clear_logs();
    assert_eq!(buf.entries.len(), 0);
}

#[test]
fn stats_group_channels_by_guild() {
    let configs = vec![GuildConfig {
        guild_id: 1,
        chat_model: "model-a".to_string(),
        image_model: "img".to_string(),
        system_prompt: "be nice".to_string(),
    }];
    let rows = vec![
        ChannelRow {
            config: ChannelConfig {
                channel_id: 10,
                guild_id: 1,
                is_listening: true,
                shared_chat: false,
                listen_udin: false,
            },
            message_count: 3,
        },
        ChannelRow {
            config: ChannelConfig {
                channel_id: 20,
                guild_id: 2,
                is_listening: false,
                shared_chat: false,
                listen_udin: false,
            },
            message_count: 4,
        },
        ChannelRow {
            config: ChannelConfig {
                channel_id: 11,
                guild_id: 1,
                is_listening: false,
                shared_chat: true,
                listen_udin: false,
            },
            message_count: 5,
        },
    ];
    let stats = compute_discord_stats(&configs, &rows);
    assert_eq!(stats.total_channels, 3);
    assert_eq!(stats.total_messages, 12);
    assert_eq!(stats.guilds.len(), 2);
    let g1 = &stats.guilds[0];
    assert_eq!(g1.guild_id, 1);
    assert_eq!(g1.chat_model, "model-a");
    assert_eq!(g1.system_prompt_preview, "be nice");
    assert_eq!(g1.total_messages, 8);
    assert_eq!(g1.channels.len(), 2);
    assert_eq!(g1.channels[0].channel_id, 10);
    assert_eq!(g1.channels[1].channel_id, 11);
    let g2 = &stats.guilds[1];
    assert_eq!(g2.guild_id, 2);
    // A guild known only through its channels gets the fixed fallbacks.
    assert_eq!(g2.chat_model, "gemini-2.0-flash");
    assert_eq!(g2.system_prompt_preview, "Default");
    assert_eq!(g2.total_messages, 4);
}

#[test]
fn long_prompts_are_previewed() {
    let configs = vec![GuildConfig {
        guild_id: 1,
        chat_model: "m".to_string(),
        image_model: "i".to_string(),
        system_prompt: "p".repeat(60),
    }];
    let stats = compute_discord_stats(&configs, &vec![]);
    assert_eq!(stats.guilds[0].system_prompt_preview, format!("{}...", "p".repeat(50)));
}

#[test]
fn settings_actions_step_the_configuration() {
    let guild = GuildConfig {
        guild_id: 1,
        chat_model: "m".to_string(),
        image_model: "i".to_string(),
        system_prompt: "p".to_string(),
    };
    let channel = ChannelConfig {
        channel_id: 10,
        guild_id: 0,
        is_listening: false,
        shared_chat: false,
        listen_udin: false,
    };
    // Turning listening on asks for a cache refresh and stamps the guild.
    let (g, c, e) = apply_settings_action(guild, channel, 1, SettingsAction::ToggleListen);
    assert!(c.is_listening);
    assert_eq!(c.guild_id, 1);
    assert!(e.refresh_cache);
    assert!(!e.clear_memory);
    // Turning it back off asks for none.
    let (g, c, e) = apply_settings_action(g, c, 1, SettingsAction::ToggleListen);
    assert!(!c.is_listening);
    assert!(!e.refresh_cache);
    // The secondary trigger behaves the same way.
    let (g, c, e) = apply_settings_action(g, c, 1, SettingsAction::ToggleUdin);
    assert!(c.listen_udin);
    assert!(e.refresh_cache);
    let (g, c, e) = apply_settings_action(g, c, 1, SettingsAction::ToggleShared);
    assert!(c.shared_chat);
    assert!(!e.refresh_cache);
    let (g, c, e) =
        apply_settings_action(g, c, 1, SettingsAction::SetChatModel("new-model".to_string()));
    assert_eq!(g.chat_model, "new-model");
    let (g, c, e) =
        apply_settings_action(g, c, 1, SettingsAction::SetSystemPrompt("be kind".to_string()));
    assert_eq!(g.system_prompt, "be kind");
    let (g, _c, e) = apply_settings_action(g, c, 1, SettingsAction::ClearMemory);
    assert!(e.clear_memory);
    assert_eq!(g.image_model, "i");
}
