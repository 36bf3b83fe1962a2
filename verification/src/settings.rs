//! The decisions of the interactive settings surface, as a pure step
//! function from the current settings and one action to the new settings
//! and the side effects to run. The menu rendering and the interaction loop
//! live outside the library.
use vstd::prelude::*;

use crate::policy::{ChannelConfig, GuildConfig};

verus! {

/// One action a settings interaction can request.
pub enum SettingsAction {
    /// Flip whether the channel listens to every message.
    ToggleListen,
    /// Flip whether the channel pools history across users.
    ToggleShared,
    /// Flip the secondary keyword trigger.
    ToggleUdin,
    /// Replace the guild's persona prompt.
    SetSystemPrompt(String),
    /// Replace the guild's chat model.
    SetChatModel(String),
    /// Replace the guild's image model.
    SetImageModel(String),
    /// Wipe the guild's conversation memory.
    ClearMemory,
}

/// What the caller must do after applying an action.
#[derive(Clone, Copy, PartialEq, Eq, Structural, Debug)]
pub struct SettingsEffect {
    /// Spawn a background rebuild of the guild's mention cache,
    /// fire-and-forget: no completion signal, no error channel.
    pub refresh_cache: bool,
    /// Wipe the guild's turns from the conversation store.
    pub clear_memory: bool,
}

/// Applies one settings action. Toggles stamp the channel record with the
/// acting guild; a listening or secondary trigger turning on asks for a
/// cache refresh; nothing else touches anything it does not name.
pub fn apply_settings_action(
    guild: GuildConfig,
    channel: ChannelConfig,
    guild_id: u64,
    action: SettingsAction,
) -> (r: (GuildConfig, ChannelConfig, SettingsEffect))
    ensures
        ({
            let (g, c, e) = r;
            &&& match action {
                SettingsAction::ToggleListen => {
                    &&& g == guild
                    &&& c == (ChannelConfig {
                        is_listening: !channel.is_listening,
                        guild_id,
                        ..channel
                    })
                    &&& e == (SettingsEffect {
                        refresh_cache: !channel.is_listening,
                        clear_memory: false,
                    })
                },
                SettingsAction::ToggleShared => {
                    &&& g == guild
                    &&& c == (ChannelConfig { shared_chat: !channel.shared_chat, guild_id, ..channel })
                    &&& e == (SettingsEffect { refresh_cache: false, clear_memory: false })
                },
                SettingsAction::ToggleUdin => {
                    &&& g == guild
                    &&& c == (ChannelConfig { listen_udin: !channel.listen_udin, guild_id, ..channel })
                    &&& e == (SettingsEffect {
                        refresh_cache: !channel.listen_udin,
                        clear_memory: false,
                    })
                },
                SettingsAction::SetSystemPrompt(p) => {
                    &&& g == (GuildConfig { system_prompt: p, ..guild })
                    &&& c == channel
                    &&& e == (SettingsEffect { refresh_cache: false, clear_memory: false })
                },
                SettingsAction::SetChatModel(m) => {
                    &&& g == (GuildConfig { chat_model: m, ..guild })
                    &&& c == channel
                    &&& e == (SettingsEffect { refresh_cache: false, clear_memory: false })
                },
                SettingsAction::SetImageModel(m) => {
                    &&& g == (GuildConfig { image_model: m, ..guild })
                    &&& c == channel
                    &&& e == (SettingsEffect { refresh_cache: false, clear_memory: false })
                },
                SettingsAction::ClearMemory => {
                    &&& g == guild
                    &&& c == channel
                    &&& e == (SettingsEffect { refresh_cache: false, clear_memory: true })
                },
            }
        }),
{
    match action {
        SettingsAction::ToggleListen => {
            let turning_on = !channel.is_listening;
            let c = ChannelConfig { is_listening: turning_on, guild_id, ..channel };
            (guild, c, SettingsEffect { refresh_cache: turning_on, clear_memory: false })
        },
        SettingsAction::ToggleShared => {
            let c = ChannelConfig { shared_chat: !channel.shared_chat, guild_id, ..channel };
            (guild, c, SettingsEffect { refresh_cache: false, clear_memory: false })
        },
        SettingsAction::ToggleUdin => {
            let turning_on = !channel.listen_udin;
            let c = ChannelConfig { listen_udin: turning_on, guild_id, ..channel };
            (guild, c, SettingsEffect { refresh_cache: turning_on, clear_memory: false })
        },
        SettingsAction::SetSystemPrompt(p) => {
            let g = GuildConfig { system_prompt: p, ..guild };
            (g, channel, SettingsEffect { refresh_cache: false, clear_memory: false })
        },
        SettingsAction::SetChatModel(m) => {
            let g = GuildConfig { chat_model: m, ..guild };
            (g, channel, SettingsEffect { refresh_cache: false, clear_memory: false })
        },
        SettingsAction::SetImageModel(m) => {
            let g = GuildConfig { image_model: m, ..guild };
            (g, channel, SettingsEffect { refresh_cache: false, clear_memory: false })
        },
        SettingsAction::ClearMemory => {
            (guild, channel, SettingsEffect { refresh_cache: false, clear_memory: true })
        },
    }
}

} // verus!
