//! Host-facing bookkeeping: the bounded log buffer, the bot status record,
//! and the aggregation of per-channel message counts into per-guild
//! statistics.
use vstd::prelude::*;

use crate::policy::{guild_at, has_guild, ChannelConfig, GuildConfig};
use crate::store::{ChatMessage, Role};
use crate::text::{preview, spec_preview};

verus! {

/// Whether the bot task is running.
pub struct DiscordBotStatus {
    pub running: bool,
    pub enabled: bool,
}

/// One line of the host's activity log.
pub struct DiscordLogEntry {
    pub timestamp: String,
    pub level: String,
    pub message: String,
}

/// How many log entries are kept.
pub const LOG_CAPACITY: usize = 200;

/// The bounded activity log: at capacity, the oldest entry makes room.
pub struct LogBuffer {
    pub entries: Vec<DiscordLogEntry>,
}

impl LogBuffer {
    pub fn new() -> (s: Self)
        ensures
            s.entries@ == Seq::<DiscordLogEntry>::empty(),
    {
        LogBuffer { entries: Vec::new() }
    }

    /// Appends one entry, dropping the oldest first when full.
    pub fn push_log(&mut self, entry: DiscordLogEntry)
        ensures
            final(self).entries@ == (if old(self).entries@.len() >= LOG_CAPACITY {
                old(self).entries@.subrange(1, old(self).entries@.len() as int)
            } else {
                old(self).entries@
            }).push(entry),
    {
        if self.entries.len() >= LOG_CAPACITY {
            self.entries.remove(0);
            proof {
                assert(self.entries@ =~= old(self).entries@.subrange(
                    1,
                    old(self).entries@.len() as int,
                ));
            }
        }
        self.entries.push(entry);
    }

    /// Empties the log.
    pub fn clear_logs(&mut self)
        ensures
            final(self).entries@ == Seq::<DiscordLogEntry>::empty(),
    {
        self.entries.clear();
    }
}

/// One history row handed to the host's message view.
pub struct MessageEntry {
    pub role: Role,
    pub author_name: Option<String>,
    pub content: String,
}

/// Re-shapes history rows for the host's message view.
pub fn messages_to_entries(rows: Vec<ChatMessage>) -> (r: Vec<MessageEntry>)
    ensures
        r@.len() == rows@.len(),
        forall|k: int|
            0 <= k < rows@.len() ==> (#[trigger] r@[k]).role == rows@[k].role && r@[k].author_name
                == rows@[k].author_name && r@[k].content == rows@[k].content,
{
    let mut r: Vec<MessageEntry> = Vec::new();
    let mut src = rows;
    let ghost full = src@;
    let mut i: usize = 0;
    while i < src.len()
        invariant
            i <= src@.len(),
            src@ == full,
            r@.len() == i,
            forall|k: int|
                0 <= k < i ==> (#[trigger] r@[k]).role == full[k].role && r@[k].author_name
                    == full[k].author_name && r@[k].content == full[k].content,
        decreases src@.len() - i,
    {
        let m = &src[i];
        r.push(
            MessageEntry {
                role: m.role,
                author_name: match &m.author_name {
                    Some(n) => Some(n.clone()),
                    None => None,
                },
                content: m.content.clone(),
            },
        );
        i = i + 1;
    }
    r
}

/// One channel's settings and traffic.
pub struct ChannelStats {
    pub channel_id: u64,
    pub guild_id: u64,
    pub is_listening: bool,
    pub shared_chat: bool,
    pub listen_udin: bool,
    pub message_count: usize,
}

/// One guild's settings and traffic.
pub struct GuildStats {
    pub guild_id: u64,
    pub chat_model: String,
    pub system_prompt_preview: String,
    pub channels: Vec<ChannelStats>,
    pub total_messages: usize,
}

/// The whole bot's traffic overview.
pub struct DiscordStats {
    pub guilds: Vec<GuildStats>,
    pub total_channels: usize,
    pub total_messages: usize,
}

/// One channel's settings with its stored message count.
pub struct ChannelRow {
    pub config: ChannelConfig,
    pub message_count: usize,
}

/// First occurrences only.
pub open spec fn dedup_u64(vals: Seq<u64>) -> Seq<u64>
    decreases vals.len(),
{
    if vals.len() == 0 {
        Seq::empty()
    } else {
        let d = dedup_u64(vals.drop_last());
        if d.contains(vals.last()) {
            d
        } else {
            d.push(vals.last())
        }
    }
}

/// Every guild that appears, configured or merely carrying channels, in
/// order of first appearance: configured guilds first.
pub open spec fn stat_ids(configs: Seq<GuildConfig>, rows: Seq<ChannelRow>) -> Seq<u64> {
    dedup_u64(
        configs.map_values(|c: GuildConfig| c.guild_id) + rows.map_values(
            |r: ChannelRow| r.config.guild_id,
        ),
    )
}

pub open spec fn sum_counts(rows: Seq<ChannelRow>) -> int
    decreases rows.len(),
{
    if rows.len() == 0 {
        0
    } else {
        sum_counts(rows.drop_last()) + rows.last().message_count
    }
}

pub open spec fn rows_for(rows: Seq<ChannelRow>, guild_id: u64) -> Seq<ChannelRow> {
    rows.filter(|r: ChannelRow| r.config.guild_id == guild_id)
}

pub open spec fn row_stat(r: ChannelRow) -> ChannelStats {
    ChannelStats {
        channel_id: r.config.channel_id,
        guild_id: r.config.guild_id,
        is_listening: r.config.is_listening,
        shared_chat: r.config.shared_chat,
        listen_udin: r.config.listen_udin,
        message_count: r.message_count,
    }
}

proof fn lemma_sum_nonneg(rows: Seq<ChannelRow>)
    ensures
        sum_counts(rows) >= 0,
    decreases rows.len(),
{
    if rows.len() > 0 {
        lemma_sum_nonneg(rows.drop_last());
    }
}

proof fn lemma_sum_prefix_le(rows: Seq<ChannelRow>, j: int)
    requires
        0 <= j <= rows.len(),
    ensures
        sum_counts(rows.subrange(0, j)) <= sum_counts(rows),
    decreases rows.len() - j,
{
    if j == rows.len() {
        assert(rows.subrange(0, j) =~= rows);
    } else {
        let t = rows.subrange(0, j + 1);
        assert(t.drop_last() =~= rows.subrange(0, j));
        lemma_sum_prefix_le(rows, j + 1);
    }
}

proof fn lemma_sum_filter_le(rows: Seq<ChannelRow>, pred: spec_fn(ChannelRow) -> bool)
    ensures
        sum_counts(rows.filter(pred)) <= sum_counts(rows),
    decreases rows.len(),
{
    reveal(Seq::filter);
    if rows.len() > 0 {
        lemma_sum_filter_le(rows.drop_last(), pred);
        let f = rows.drop_last().filter(pred);
        if pred(rows.last()) {
            assert(rows.filter(pred) == f.push(rows.last()));
            assert(f.push(rows.last()).drop_last() =~= f);
            assert(f.push(rows.last()).last() == rows.last());
            assert(sum_counts(f.push(rows.last())) == sum_counts(f)
                + rows.last().message_count);
        } else {
            assert(rows.filter(pred) == f);
        }
    }
}

fn clone_row_stat(r: &ChannelRow) -> (s: ChannelStats)
    ensures
        s == row_stat(*r),
{
    ChannelStats {
        channel_id: r.config.channel_id,
        guild_id: r.config.guild_id,
        is_listening: r.config.is_listening,
        shared_chat: r.config.shared_chat,
        listen_udin: r.config.listen_udin,
        message_count: r.message_count,
    }
}

/// The channel list and message total of one guild.
fn guild_rows(rows: &Vec<ChannelRow>, guild_id: u64) -> (r: (Vec<ChannelStats>, usize))
    requires
        sum_counts(rows@) <= usize::MAX,
    ensures
        r.0@ == rows_for(rows@, guild_id).map_values(|c: ChannelRow| row_stat(c)),
        r.1 == sum_counts(rows_for(rows@, guild_id)),
{
    let ghost pred = |r: ChannelRow| r.config.guild_id == guild_id;
    let mut cs: Vec<ChannelStats> = Vec::new();
    let mut total: usize = 0;
    let mut i: usize = 0;
    proof {
        reveal(Seq::filter);
        assert(rows@.subrange(0, 0).filter(pred) =~= Seq::<ChannelRow>::empty());
    }
    while i < rows.len()
        invariant
            i <= rows@.len(),
            cs@ == rows@.subrange(0, i as int).filter(pred).map_values(
                |c: ChannelRow| row_stat(c),
            ),
            total == sum_counts(rows@.subrange(0, i as int).filter(pred)),
            sum_counts(rows@) <= usize::MAX,
        decreases rows@.len() - i,
    {
        proof {
            reveal(Seq::filter);
            let sub = rows@.subrange(0, i as int);
            let sub1 = rows@.subrange(0, i + 1);
            assert(sub1.drop_last() =~= sub);
            assert(sub1.last() == rows@[i as int]);
            if pred(rows@[i as int]) {
                assert(sub1.filter(pred) == sub.filter(pred).push(sub1.last()));
                assert(sub1.filter(pred).drop_last() =~= sub.filter(pred));
                lemma_sum_filter_le(sub1, pred);
                lemma_sum_prefix_le(rows@, i + 1);
                lemma_sum_nonneg(sub.filter(pred));
            } else {
                assert(sub1.filter(pred) == sub.filter(pred));
            }
        }
        if rows[i].config.guild_id == guild_id {
            cs.push(clone_row_stat(&rows[i]));
            total = total + rows[i].message_count;
        }
        i = i + 1;
    }
    assert(rows@.subrange(0, rows@.len() as int) =~= rows@);
    (cs, total)
}

/// Aggregates per-channel rows into per-guild statistics: one entry per
/// guild that is configured or holds channels, each carrying exactly its
/// own channels and their summed counts; a guild known only through its
/// channels gets the fixed model name and preview.
pub fn compute_discord_stats(configs: &Vec<GuildConfig>, rows: &Vec<ChannelRow>) -> (r:
    DiscordStats)
    requires
        sum_counts(rows@) <= usize::MAX,
        forall|a: int, b: int|
            0 <= a < b < configs@.len() ==> configs@[a].guild_id != configs@[b].guild_id,
    ensures
        r.total_channels == rows@.len(),
        r.total_messages == sum_counts(rows@),
        r.guilds@.len() == stat_ids(configs@, rows@).len(),
        forall|k: int|
            0 <= k < r.guilds@.len() ==> {
                let g = #[trigger] r.guilds@[k];
                let id = stat_ids(configs@, rows@)[k];
                &&& g.guild_id == id
                &&& g.channels@ == rows_for(rows@, id).map_values(|c: ChannelRow| row_stat(c))
                &&& g.total_messages == sum_counts(rows_for(rows@, id))
                &&& has_guild(configs@, id) ==> g.chat_model@ == guild_at(
                    configs@,
                    id,
                ).chat_model@ && g.system_prompt_preview@ == spec_preview(
                    guild_at(configs@, id).system_prompt@,
                    50,
                )
                &&& !has_guild(configs@, id) ==> g.chat_model@ == "gemini-2.0-flash"@
                    && g.system_prompt_preview@ == "Default"@
            },
{
    let ghost cfg_ids = configs@.map_values(|c: GuildConfig| c.guild_id);
    let ghost row_ids = rows@.map_values(|r: ChannelRow| r.config.guild_id);
    let mut ids: Vec<u64> = Vec::new();
    let ghost mut vals: Seq<u64> = Seq::empty();
    let mut i: usize = 0;
    proof {
        assert(ids@ =~= dedup_u64(vals));
    }
    while i < configs.len()
        invariant
            i <= configs@.len(),
            vals == cfg_ids.subrange(0, i as int),
            ids@ == dedup_u64(vals),
        decreases configs@.len() - i,
    {
        let ghost pre = vals;
        proof {
            vals = cfg_ids.subrange(0, i + 1);
            assert(vals.drop_last() =~= pre);
            assert(vals.last() == configs@[i as int].guild_id);
        }
        let id = configs[i].guild_id;
        if !vec_has_u64(&ids, id) {
            ids.push(id);
        }
        i = i + 1;
    }
    assert(cfg_ids.subrange(0, cfg_ids.len() as int) =~= cfg_ids);
    let mut j: usize = 0;
    while j < rows.len()
        invariant
            j <= rows@.len(),
            vals == cfg_ids + row_ids.subrange(0, j as int),
            ids@ == dedup_u64(vals),
        decreases rows@.len() - j,
    {
        let ghost pre = vals;
        proof {
            vals = cfg_ids + row_ids.subrange(0, j + 1);
            assert(vals.drop_last() =~= pre);
            assert(vals.last() == rows@[j as int].config.guild_id);
        }
        let id = rows[j].config.guild_id;
        if !vec_has_u64(&ids, id) {
            ids.push(id);
        }
        j = j + 1;
    }
    proof {
        assert(cfg_ids + row_ids.subrange(0, row_ids.len() as int) =~= cfg_ids + row_ids);
        assert(ids@ == stat_ids(configs@, rows@));
    }
    // one GuildStats per collected id
    let mut guilds: Vec<GuildStats> = Vec::new();
    let mut k: usize = 0;
    while k < ids.len()
        invariant
            k <= ids@.len(),
            ids@ == stat_ids(configs@, rows@),
            sum_counts(rows@) <= usize::MAX,
            forall|a: int, b: int|
                0 <= a < b < configs@.len() ==> configs@[a].guild_id != configs@[b].guild_id,
            guilds@.len() == k,
            forall|t: int|
                0 <= t < k ==> {
                    let g = #[trigger] guilds@[t];
                    let id = ids@[t];
                    &&& g.guild_id == id
                    &&& g.channels@ == rows_for(rows@, id).map_values(|c: ChannelRow| row_stat(c))
                    &&& g.total_messages == sum_counts(rows_for(rows@, id))
                    &&& has_guild(configs@, id) ==> g.chat_model@ == guild_at(
                        configs@,
                        id,
                    ).chat_model@ && g.system_prompt_preview@ == spec_preview(
                        guild_at(configs@, id).system_prompt@,
                        50,
                    )
                    &&& !has_guild(configs@, id) ==> g.chat_model@ == "gemini-2.0-flash"@
                        && g.system_prompt_preview@ == "Default"@
                },
        decreases ids@.len() - k,
    {
        let id = ids[k];
        let (channels, total) = guild_rows(rows, id);
        let mut chat_model = String::from_str("gemini-2.0-flash");
        let mut prompt_preview = String::from_str("Default");
        let mut c: usize = 0;
        let mut found = false;
        while c < configs.len()
            invariant
                c <= configs@.len(),
                forall|a: int, b: int|
                    0 <= a < b < configs@.len() ==> configs@[a].guild_id != configs@[b].guild_id,
                !found ==> forall|t: int| 0 <= t < c ==> configs@[t].guild_id != id,
                !found ==> chat_model@ == "gemini-2.0-flash"@ && prompt_preview@ == "Default"@,
                found ==> has_guild(configs@, id) && chat_model@ == guild_at(
                    configs@,
                    id,
                ).chat_model@ && prompt_preview@ == spec_preview(
                    guild_at(configs@, id).system_prompt@,
                    50,
                ),
            decreases configs@.len() - c,
        {
            if !found && configs[c].guild_id == id {
                proof {
                    let w = choose|t: int|
                        0 <= t < configs@.len() && configs@[t].guild_id == id;
                    assert(configs@[w].guild_id == id);
                    assert(w == c as int);
                }
                chat_model = configs[c].chat_model.clone();
                prompt_preview = preview(configs[c].system_prompt.as_str(), 50);
                found = true;
            }
            c = c + 1;
        }
        proof {
            if !found {
                assert(!has_guild(configs@, id));
            }
        }
        guilds.push(
            GuildStats {
                guild_id: id,
                chat_model,
                system_prompt_preview: prompt_preview,
                channels,
                total_messages: total,
            },
        );
        k = k + 1;
    }
    // whole-bot totals
    let mut total_messages: usize = 0;
    let mut t: usize = 0;
    while t < rows.len()
        invariant
            t <= rows@.len(),
            sum_counts(rows@) <= usize::MAX,
            total_messages == sum_counts(rows@.subrange(0, t as int)),
        decreases rows@.len() - t,
    {
        proof {
            let sub1 = rows@.subrange(0, t + 1);
            assert(sub1.drop_last() =~= rows@.subrange(0, t as int));
            assert(sub1.last() == rows@[t as int]);
            lemma_sum_prefix_le(rows@, t + 1);
            lemma_sum_nonneg(rows@.subrange(0, t as int));
        }
        total_messages = total_messages + rows[t].message_count;
        t = t + 1;
    }
    assert(rows@.subrange(0, rows@.len() as int) =~= rows@);
    DiscordStats { guilds, total_channels: rows.len(), total_messages }
}

fn vec_has_u64(v: &Vec<u64>, x: u64) -> (r: bool)
    ensures
        r == v@.contains(x),
{
    let mut i: usize = 0;
    while i < v.len()
        invariant
            i <= v@.len(),
            forall|k: int| 0 <= k < i ==> v@[k] != x,
        decreases v@.len() - i,
    {
        if v[i] == x {
            return true;
        }
        i = i + 1;
    }
    false
}

} // verus!
