//! The policy store: per-guild and per-channel settings. Reads never fail —
//! a guild or channel that was never configured gets the documented
//! defaults; writes upsert whole records, last write winning.
use vstd::prelude::*;

verus! {

/// Per-guild settings.
pub struct GuildConfig {
    pub guild_id: u64,
    pub chat_model: String,
    pub image_model: String,
    pub system_prompt: String,
}

/// Per-channel settings.
pub struct ChannelConfig {
    pub channel_id: u64,
    pub guild_id: u64,
    pub is_listening: bool,
    pub shared_chat: bool,
    pub listen_udin: bool,
}

/// The stored guild settings look like defaults for a guild nobody
/// configured.
pub open spec fn is_default_guild_config(c: GuildConfig, guild_id: u64) -> bool {
    &&& c.guild_id == guild_id
    &&& c.chat_model@ == "gemini-2.5-flash"@
    &&& c.image_model@ == "gemini-3-pro-image"@
    &&& c.system_prompt@ == "You are a helpful assistant."@
}

/// The defaults for a channel nobody configured: not listening, per-user
/// history, secondary trigger off, no guild recorded (id zero).
pub open spec fn is_default_channel_config(c: ChannelConfig, channel_id: u64) -> bool {
    &&& c.channel_id == channel_id
    &&& c.guild_id == 0
    &&& !c.is_listening
    &&& !c.shared_chat
    &&& !c.listen_udin
}

/// The documented default guild settings.
pub fn default_guild_config(guild_id: u64) -> (c: GuildConfig)
    ensures
        is_default_guild_config(c, guild_id),
{
    GuildConfig {
        guild_id,
        chat_model: String::from_str("gemini-2.5-flash"),
        image_model: String::from_str("gemini-3-pro-image"),
        system_prompt: String::from_str("You are a helpful assistant."),
    }
}

/// The documented default channel settings.
pub fn default_channel_config(channel_id: u64) -> (c: ChannelConfig)
    ensures
        is_default_channel_config(c, channel_id),
{
    ChannelConfig {
        channel_id,
        guild_id: 0,
        is_listening: false,
        shared_chat: false,
        listen_udin: false,
    }
}

pub open spec fn has_guild(s: Seq<GuildConfig>, id: u64) -> bool {
    exists|i: int| 0 <= i < s.len() && s[i].guild_id == id
}

pub open spec fn guild_at(s: Seq<GuildConfig>, id: u64) -> GuildConfig {
    s[choose|i: int| 0 <= i < s.len() && s[i].guild_id == id]
}

pub open spec fn has_channel(s: Seq<ChannelConfig>, id: u64) -> bool {
    exists|i: int| 0 <= i < s.len() && s[i].channel_id == id
}

pub open spec fn channel_at(s: Seq<ChannelConfig>, id: u64) -> ChannelConfig {
    s[choose|i: int| 0 <= i < s.len() && s[i].channel_id == id]
}

fn clone_guild_config(c: &GuildConfig) -> (r: GuildConfig)
    ensures
        r == *c,
{
    GuildConfig {
        guild_id: c.guild_id,
        chat_model: c.chat_model.clone(),
        image_model: c.image_model.clone(),
        system_prompt: c.system_prompt.clone(),
    }
}

fn clone_channel_config(c: &ChannelConfig) -> (r: ChannelConfig)
    ensures
        r == *c,
{
    ChannelConfig {
        channel_id: c.channel_id,
        guild_id: c.guild_id,
        is_listening: c.is_listening,
        shared_chat: c.shared_chat,
        listen_udin: c.listen_udin,
    }
}

/// The settings records, one per configured guild or channel.
pub struct PolicyStore {
    pub guilds: Vec<GuildConfig>,
    pub channels: Vec<ChannelConfig>,
}

impl PolicyStore {
    /// Each guild and each channel holds at most one record.
    pub open spec fn wf(&self) -> bool {
        &&& forall|i: int, j: int|
            0 <= i < j < self.guilds@.len() ==> self.guilds@[i].guild_id
                != self.guilds@[j].guild_id
        &&& forall|i: int, j: int|
            0 <= i < j < self.channels@.len() ==> self.channels@[i].channel_id
                != self.channels@[j].channel_id
    }

    pub fn new() -> (s: Self)
        ensures
            s.wf(),
            s.guilds@ == Seq::<GuildConfig>::empty(),
            s.channels@ == Seq::<ChannelConfig>::empty(),
    {
        PolicyStore { guilds: Vec::new(), channels: Vec::new() }
    }

    /// A guild's settings; the documented defaults when it was never
    /// configured, never an error.
    pub fn get_guild_config(&self, guild_id: u64) -> (c: GuildConfig)
        requires
            self.wf(),
        ensures
            has_guild(self.guilds@, guild_id) ==> c == guild_at(self.guilds@, guild_id),
            !has_guild(self.guilds@, guild_id) ==> is_default_guild_config(c, guild_id),
    {
        let mut i: usize = 0;
        while i < self.guilds.len()
            invariant
                i <= self.guilds@.len(),
                forall|k: int| 0 <= k < i ==> self.guilds@[k].guild_id != guild_id,
            decreases self.guilds@.len() - i,
        {
            if self.guilds[i].guild_id == guild_id {
                proof {
                    let w = choose|k: int|
                        0 <= k < self.guilds@.len() && self.guilds@[k].guild_id == guild_id;
                    assert(self.guilds@[w].guild_id == guild_id);
                    assert(w == i as int);
                }
                return clone_guild_config(&self.guilds[i]);
            }
            i = i + 1;
        }
        default_guild_config(guild_id)
    }

    /// A channel's settings; the documented defaults when it was never
    /// configured, never an error.
    pub fn get_channel_config(&self, channel_id: u64) -> (c: ChannelConfig)
        requires
            self.wf(),
        ensures
            has_channel(self.channels@, channel_id) ==> c == channel_at(
                self.channels@,
                channel_id,
            ),
            !has_channel(self.channels@, channel_id) ==> is_default_channel_config(c, channel_id),
    {
        let mut i: usize = 0;
        while i < self.channels.len()
            invariant
                i <= self.channels@.len(),
                forall|k: int| 0 <= k < i ==> self.channels@[k].channel_id != channel_id,
            decreases self.channels@.len() - i,
        {
            if self.channels[i].channel_id == channel_id {
                proof {
                    let w = choose|k: int|
                        0 <= k < self.channels@.len() && self.channels@[k].channel_id
                            == channel_id;
                    assert(self.channels@[w].channel_id == channel_id);
                    assert(w == i as int);
                }
                return clone_channel_config(&self.channels[i]);
            }
            i = i + 1;
        }
        default_channel_config(channel_id)
    }

    /// Writes a guild's settings wholesale; other guilds are untouched.
    pub fn update_guild_config(&mut self, config: GuildConfig)
        requires
            old(self).wf(),
        ensures
            final(self).wf(),
            final(self).channels@ == old(self).channels@,
            has_guild(final(self).guilds@, config.guild_id),
            guild_at(final(self).guilds@, config.guild_id) == config,
            forall|id: u64|
                id != config.guild_id ==> has_guild(final(self).guilds@, id) == has_guild(
                    old(self).guilds@,
                    id,
                ),
            forall|id: u64|
                id != config.guild_id && has_guild(old(self).guilds@, id) ==> guild_at(
                    final(self).guilds@,
                    id,
                ) == guild_at(old(self).guilds@, id),
    {
        let ghost pre = self.guilds@;
        let mut i: usize = 0;
        while i < self.guilds.len()
            invariant
                i <= self.guilds@.len(),
                self.guilds@ == pre,
                self.channels@ == old(self).channels@,
                forall|k: int| 0 <= k < i ==> self.guilds@[k].guild_id != config.guild_id,
            decreases self.guilds@.len() - i,
        {
            if self.guilds[i].guild_id == config.guild_id {
                self.guilds.remove(i);
                self.guilds.insert(i, config);
                proof {
                    assert(self.guilds@ =~= pre.update(i as int, config));
                    lemma_unique_lookup_update(pre, self.guilds@, i as int, config);
                }
                return ;
            }
            i = i + 1;
        }
        self.guilds.push(config);
        proof {
            assert(self.guilds@.drop_last() =~= pre);
            assert forall|id: u64| id != config.guild_id implies has_guild(self.guilds@, id)
                == has_guild(pre, id) && (has_guild(pre, id) ==> guild_at(self.guilds@, id)
                == guild_at(pre, id)) by {
                lemma_unique_lookup_push(pre, self.guilds@, config, id);
            }
            assert(self.guilds@[self.guilds@.len() - 1].guild_id == config.guild_id);
            let w = choose|k: int|
                0 <= k < self.guilds@.len() && self.guilds@[k].guild_id == config.guild_id;
            assert(self.guilds@[w].guild_id == config.guild_id);
            assert(w == self.guilds@.len() - 1);
        }
    }

    /// Writes a channel's settings wholesale; other channels are untouched.
    pub fn update_channel_config(&mut self, config: ChannelConfig)
        requires
            old(self).wf(),
        ensures
            final(self).wf(),
            final(self).guilds@ == old(self).guilds@,
            has_channel(final(self).channels@, config.channel_id),
            channel_at(final(self).channels@, config.channel_id) == config,
            forall|id: u64|
                id != config.channel_id ==> has_channel(final(self).channels@, id) == has_channel(
                    old(self).channels@,
                    id,
                ),
            forall|id: u64|
                id != config.channel_id && has_channel(old(self).channels@, id) ==> channel_at(
                    final(self).channels@,
                    id,
                ) == channel_at(old(self).channels@, id),
    {
        let ghost pre = self.channels@;
        let mut i: usize = 0;
        while i < self.channels.len()
            invariant
                i <= self.channels@.len(),
                self.channels@ == pre,
                self.guilds@ == old(self).guilds@,
                forall|k: int| 0 <= k < i ==> self.channels@[k].channel_id != config.channel_id,
            decreases self.channels@.len() - i,
        {
            if self.channels[i].channel_id == config.channel_id {
                self.channels.remove(i);
                self.channels.insert(i, config);
                proof {
                    assert(self.channels@ =~= pre.update(i as int, config));
                    lemma_unique_channel_lookup_update(pre, self.channels@, i as int, config);
                }
                return ;
            }
            i = i + 1;
        }
        self.channels.push(config);
        proof {
            assert(self.channels@.drop_last() =~= pre);
            assert forall|id: u64| id != config.channel_id implies has_channel(self.channels@, id)
                == has_channel(pre, id) && (has_channel(pre, id) ==> channel_at(self.channels@, id)
                == channel_at(pre, id)) by {
                lemma_unique_channel_lookup_push(pre, self.channels@, config, id);
            }
            assert(self.channels@[self.channels@.len() - 1].channel_id == config.channel_id);
            let w = choose|k: int|
                0 <= k < self.channels@.len() && self.channels@[k].channel_id == config.channel_id;
            assert(self.channels@[w].channel_id == config.channel_id);
            assert(w == self.channels@.len() - 1);
        }
    }
}

proof fn lemma_unique_lookup_update(pre: Seq<GuildConfig>, cur: Seq<GuildConfig>, i: int, config: GuildConfig)
    requires
        forall|a: int, b: int| 0 <= a < b < pre.len() ==> pre[a].guild_id != pre[b].guild_id,
        0 <= i < pre.len(),
        pre[i].guild_id == config.guild_id,
        cur == pre.update(i, config),
    ensures
        forall|a: int, b: int| 0 <= a < b < cur.len() ==> cur[a].guild_id != cur[b].guild_id,
        has_guild(cur, config.guild_id),
        guild_at(cur, config.guild_id) == config,
        forall|id: u64| id != config.guild_id ==> has_guild(cur, id) == has_guild(pre, id),
        forall|id: u64|
            id != config.guild_id && has_guild(pre, id) ==> guild_at(cur, id) == guild_at(pre, id),
{
    assert(cur[i].guild_id == config.guild_id);
    let w = choose|k: int| 0 <= k < cur.len() && cur[k].guild_id == config.guild_id;
    assert(cur[w].guild_id == config.guild_id);
    assert(w == i);
    assert forall|id: u64| id != config.guild_id implies has_guild(cur, id) == has_guild(pre, id)
        && (has_guild(pre, id) ==> guild_at(cur, id) == guild_at(pre, id)) by {
        if has_guild(pre, id) {
            let a = choose|k: int| 0 <= k < pre.len() && pre[k].guild_id == id;
            assert(pre[a].guild_id == id);
            assert(a != i);
            assert(cur[a].guild_id == id);
            assert(has_guild(cur, id));
            let b = choose|k: int| 0 <= k < cur.len() && cur[k].guild_id == id;
            assert(cur[b].guild_id == id);
            assert(b != i);
            assert(pre[b].guild_id == id);
            assert(b == a);
        }
        if has_guild(cur, id) {
            let a = choose|k: int| 0 <= k < cur.len() && cur[k].guild_id == id;
            assert(cur[a].guild_id == id);
            assert(a != i);
            assert(pre[a].guild_id == id);
            assert(has_guild(pre, id));
        }
    }
}

proof fn lemma_unique_lookup_push(pre: Seq<GuildConfig>, cur: Seq<GuildConfig>, config: GuildConfig, id: u64)
    requires
        forall|a: int, b: int| 0 <= a < b < pre.len() ==> pre[a].guild_id != pre[b].guild_id,
        cur == pre.push(config),
        id != config.guild_id,
    ensures
        has_guild(cur, id) == has_guild(pre, id),
        has_guild(pre, id) ==> guild_at(cur, id) == guild_at(pre, id),
{
    if has_guild(pre, id) {
        let a = choose|k: int| 0 <= k < pre.len() && pre[k].guild_id == id;
        assert(cur[a] == pre[a]);
        assert(has_guild(cur, id));
        let b = choose|k: int| 0 <= k < cur.len() && cur[k].guild_id == id;
        assert(cur[b].guild_id == id);
        assert(b < pre.len());
        assert(pre[b].guild_id == id);
        assert(a == b);
        assert(guild_at(cur, id) == guild_at(pre, id));
    }
    if has_guild(cur, id) {
        let a = choose|k: int| 0 <= k < cur.len() && cur[k].guild_id == id;
        assert(cur[a].guild_id == id);
        assert(a < pre.len());
        assert(pre[a].guild_id == id);
        assert(has_guild(pre, id));
    }
}

proof fn lemma_unique_channel_lookup_update(
    pre: Seq<ChannelConfig>,
    cur: Seq<ChannelConfig>,
    i: int,
    config: ChannelConfig,
)
    requires
        forall|a: int, b: int| 0 <= a < b < pre.len() ==> pre[a].channel_id != pre[b].channel_id,
        0 <= i < pre.len(),
        pre[i].channel_id == config.channel_id,
        cur == pre.update(i, config),
    ensures
        forall|a: int, b: int| 0 <= a < b < cur.len() ==> cur[a].channel_id != cur[b].channel_id,
        has_channel(cur, config.channel_id),
        channel_at(cur, config.channel_id) == config,
        forall|id: u64| id != config.channel_id ==> has_channel(cur, id) == has_channel(pre, id),
        forall|id: u64|
            id != config.channel_id && has_channel(pre, id) ==> channel_at(cur, id) == channel_at(
                pre,
                id,
            ),
{
    assert(cur[i].channel_id == config.channel_id);
    let w = choose|k: int| 0 <= k < cur.len() && cur[k].channel_id == config.channel_id;
    assert(cur[w].channel_id == config.channel_id);
    assert(w == i);
    assert forall|id: u64| id != config.channel_id implies has_channel(cur, id) == has_channel(
        pre,
        id,
    ) && (has_channel(pre, id) ==> channel_at(cur, id) == channel_at(pre, id)) by {
        if has_channel(pre, id) {
            let a = choose|k: int| 0 <= k < pre.len() && pre[k].channel_id == id;
            assert(pre[a].channel_id == id);
            assert(a != i);
            assert(cur[a].channel_id == id);
            assert(has_channel(cur, id));
            let b = choose|k: int| 0 <= k < cur.len() && cur[k].channel_id == id;
            assert(cur[b].channel_id == id);
            assert(b != i);
            assert(pre[b].channel_id == id);
            assert(b == a);
        }
        if has_channel(cur, id) {
            let a = choose|k: int| 0 <= k < cur.len() && cur[k].channel_id == id;
            assert(cur[a].channel_id == id);
            assert(a != i);
            assert(pre[a].channel_id == id);
            assert(has_channel(pre, id));
        }
    }
}

proof fn lemma_unique_channel_lookup_push(
    pre: Seq<ChannelConfig>,
    cur: Seq<ChannelConfig>,
    config: ChannelConfig,
    id: u64,
)
    requires
        forall|a: int, b: int| 0 <= a < b < pre.len() ==> pre[a].channel_id != pre[b].channel_id,
        cur == pre.push(config),
        id != config.channel_id,
    ensures
        has_channel(cur, id) == has_channel(pre, id),
        has_channel(pre, id) ==> channel_at(cur, id) == channel_at(pre, id),
{
    if has_channel(pre, id) {
        let a = choose|k: int| 0 <= k < pre.len() && pre[k].channel_id == id;
        assert(cur[a] == pre[a]);
        assert(has_channel(cur, id));
        let b = choose|k: int| 0 <= k < cur.len() && cur[k].channel_id == id;
        assert(cur[b].channel_id == id);
        assert(b < pre.len());
        assert(pre[b].channel_id == id);
        assert(a == b);
        assert(channel_at(cur, id) == channel_at(pre, id));
    }
    if has_channel(cur, id) {
        let a = choose|k: int| 0 <= k < cur.len() && cur[k].channel_id == id;
        assert(cur[a].channel_id == id);
        assert(a < pre.len());
        assert(pre[a].channel_id == id);
        assert(has_channel(pre, id));
    }
}

} // verus!
