//! The conversation store: an append-only log of turns keyed by channel,
//! optionally scoped by user. History reads return the most recent turns in
//! chronological (insertion) order; turns are deleted only wholesale, per
//! guild or per channel.
use vstd::prelude::*;

verus! {

/// Who spoke in a turn.
#[derive(Clone, Copy, PartialEq, Eq, Structural, Debug)]
pub enum Role {
    User,
    Assistant,
}

/// One persisted message of a conversation.
pub struct ConversationTurn {
    pub guild_id: u64,
    pub channel_id: u64,
    pub user_id: u64,
    pub author_name: String,
    pub role: Role,
    pub content: String,
    pub created_at: u64,
}

/// One history row handed to the context assembler.
pub struct ChatMessage {
    pub role: Role,
    pub author_name: Option<String>,
    pub content: String,
}

/// A turn belongs to a history read when it is in the channel and, under a
/// user scope, was either written by that user or by the assistant.
pub open spec fn in_scope(t: ConversationTurn, channel_id: u64, user_id: Option<u64>) -> bool {
    t.channel_id == channel_id && match user_id {
        Some(u) => t.user_id == u || t.role is Assistant,
        None => true,
    }
}

/// The turns a history read returns: the last `limit` of the in-scope turns,
/// oldest first.
pub open spec fn history_turns(
    turns: Seq<ConversationTurn>,
    channel_id: u64,
    user_id: Option<u64>,
    limit: int,
) -> Seq<ConversationTurn> {
    let f = turns.filter(|t: ConversationTurn| in_scope(t, channel_id, user_id));
    if f.len() <= limit {
        f
    } else {
        f.skip(f.len() - limit)
    }
}

/// The history row a stored turn becomes.
pub open spec fn turn_row(t: ConversationTurn) -> ChatMessage {
    ChatMessage { role: t.role, author_name: Some(t.author_name), content: t.content }
}

fn clone_turn(t: &ConversationTurn) -> (r: ConversationTurn)
    ensures
        r == *t,
{
    ConversationTurn {
        guild_id: t.guild_id,
        channel_id: t.channel_id,
        user_id: t.user_id,
        author_name: t.author_name.clone(),
        role: t.role,
        content: t.content.clone(),
        created_at: t.created_at,
    }
}

/// The append-only turn log.
pub struct ConversationStore {
    pub turns: Vec<ConversationTurn>,
}

impl ConversationStore {
    pub fn new() -> (s: Self)
        ensures
            s.turns@ == Seq::<ConversationTurn>::empty(),
    {
        ConversationStore { turns: Vec::new() }
    }

    /// Appends one turn; nothing else changes.
    pub fn save_message(&mut self, turn: ConversationTurn)
        ensures
            final(self).turns@ == old(self).turns@.push(turn),
    {
        self.turns.push(turn);
    }

    /// The most recent `limit` turns of a channel, scoped to one user unless
    /// the channel pools history, in chronological order.
    pub fn get_chat_history(&self, channel_id: u64, user_id: Option<u64>, limit: usize) -> (r:
        Vec<ChatMessage>)
        ensures
            r@ == history_turns(self.turns@, channel_id, user_id, limit as int).map_values(
                |t: ConversationTurn| turn_row(t),
            ),
    {
        let ghost pred = |t: ConversationTurn| in_scope(t, channel_id, user_id);
        let mut f: Vec<ConversationTurn> = Vec::new();
        let mut i: usize = 0;
        proof {
            reveal(Seq::filter);
            assert(self.turns@.subrange(0, 0).filter(pred) =~= Seq::<ConversationTurn>::empty());
        }
        while i < self.turns.len()
            invariant
                i <= self.turns@.len(),
                f@ == self.turns@.subrange(0, i as int).filter(pred),
            decreases self.turns@.len() - i,
        {
            let t = &self.turns[i];
            let keep = t.channel_id == channel_id && match user_id {
                Some(u) => t.user_id == u || t.role == Role::Assistant,
                None => true,
            };
            proof {
                reveal(Seq::filter);
                let sub1 = self.turns@.subrange(0, i + 1);
                assert(sub1.drop_last() =~= self.turns@.subrange(0, i as int));
                assert(sub1.last() == self.turns@[i as int]);
                assert(keep == pred(self.turns@[i as int]));
                if keep {
                    assert(sub1.filter(pred) == sub1.drop_last().filter(pred).push(sub1.last()));
                } else {
                    assert(sub1.filter(pred) == sub1.drop_last().filter(pred));
                }
            }
            if keep {
                f.push(clone_turn(t));
            }
            i = i + 1;
        }
        assert(self.turns@.subrange(0, self.turns@.len() as int) =~= self.turns@);
        let start: usize = if f.len() > limit {
            f.len() - limit
        } else {
            0
        };
        let mut r: Vec<ChatMessage> = Vec::new();
        let mut j: usize = start;
        while j < f.len()
            invariant
                start <= j <= f@.len(),
                r@ == f@.subrange(start as int, j as int).map_values(
                    |t: ConversationTurn| turn_row(t),
                ),
            decreases f@.len() - j,
        {
            let t = &f[j];
            r.push(
                ChatMessage {
                    role: t.role,
                    author_name: Some(t.author_name.clone()),
                    content: t.content.clone(),
                },
            );
            proof {
                assert(f@.subrange(start as int, j + 1).drop_last() =~= f@.subrange(
                    start as int,
                    j as int,
                ));
                assert(r@ =~= f@.subrange(start as int, j + 1).map_values(
                    |t: ConversationTurn| turn_row(t),
                ));
            }
            j = j + 1;
        }
        proof {
            reveal(Seq::filter);
            let h = history_turns(self.turns@, channel_id, user_id, limit as int);
            if f@.len() <= limit {
                assert(f@.subrange(start as int, f@.len() as int) =~= h);
            } else {
                assert(f@.subrange(start as int, f@.len() as int) =~= h);
            }
        }
        r
    }

    /// Removes every turn of one guild; other guilds are untouched.
    pub fn clear_chat_history(&mut self, guild_id: u64)
        ensures
            final(self).turns@ == old(self).turns@.filter(
                |t: ConversationTurn| t.guild_id != guild_id,
            ),
    {
        let ghost pred = |t: ConversationTurn| t.guild_id != guild_id;
        let mut kept: Vec<ConversationTurn> = Vec::new();
        let mut i: usize = 0;
        proof {
            reveal(Seq::filter);
            assert(self.turns@.subrange(0, 0).filter(pred) =~= Seq::<ConversationTurn>::empty());
        }
        while i < self.turns.len()
            invariant
                i <= self.turns@.len(),
                self.turns@ == old(self).turns@,
                kept@ == self.turns@.subrange(0, i as int).filter(pred),
            decreases self.turns@.len() - i,
        {
            proof {
                reveal(Seq::filter);
                let sub1 = self.turns@.subrange(0, i + 1);
                assert(sub1.drop_last() =~= self.turns@.subrange(0, i as int));
                assert(sub1.last() == self.turns@[i as int]);
                if pred(self.turns@[i as int]) {
                    assert(sub1.filter(pred) == sub1.drop_last().filter(pred).push(sub1.last()));
                } else {
                    assert(sub1.filter(pred) == sub1.drop_last().filter(pred));
                }
            }
            if self.turns[i].guild_id != guild_id {
                let t = clone_turn(&self.turns[i]);
                kept.push(t);
            }
            i = i + 1;
        }
        assert(self.turns@.subrange(0, self.turns@.len() as int) =~= self.turns@);
        self.turns = kept;
    }

    /// Removes every turn of one channel; other channels are untouched.
    pub fn clear_channel_messages(&mut self, channel_id: u64)
        ensures
            final(self).turns@ == old(self).turns@.filter(
                |t: ConversationTurn| t.channel_id != channel_id,
            ),
    {
        let ghost pred = |t: ConversationTurn| t.channel_id != channel_id;
        let mut kept: Vec<ConversationTurn> = Vec::new();
        let mut i: usize = 0;
        proof {
            reveal(Seq::filter);
            assert(self.turns@.subrange(0, 0).filter(pred) =~= Seq::<ConversationTurn>::empty());
        }
        while i < self.turns.len()
            invariant
                i <= self.turns@.len(),
                self.turns@ == old(self).turns@,
                kept@ == self.turns@.subrange(0, i as int).filter(pred),
            decreases self.turns@.len() - i,
        {
            proof {
                reveal(Seq::filter);
                let sub1 = self.turns@.subrange(0, i + 1);
                assert(sub1.drop_last() =~= self.turns@.subrange(0, i as int));
                assert(sub1.last() == self.turns@[i as int]);
                if pred(self.turns@[i as int]) {
                    assert(sub1.filter(pred) == sub1.drop_last().filter(pred).push(sub1.last()));
                } else {
                    assert(sub1.filter(pred) == sub1.drop_last().filter(pred));
                }
            }
            if self.turns[i].channel_id != channel_id {
                let t = clone_turn(&self.turns[i]);
                kept.push(t);
            }
            i = i + 1;
        }
        assert(self.turns@.subrange(0, self.turns@.len() as int) =~= self.turns@);
        self.turns = kept;
    }

    /// How many turns one channel holds.
    pub fn message_count(&self, channel_id: u64) -> (n: usize)
        ensures
            n == self.turns@.filter(|t: ConversationTurn| t.channel_id == channel_id).len(),
    {
        let ghost pred = |t: ConversationTurn| t.channel_id == channel_id;
        let mut n: usize = 0;
        let mut i: usize = 0;
        proof {
            reveal(Seq::filter);
            assert(self.turns@.subrange(0, 0).filter(pred) =~= Seq::<ConversationTurn>::empty());
        }
        while i < self.turns.len()
            invariant
                i <= self.turns@.len(),
                n == self.turns@.subrange(0, i as int).filter(pred).len(),
                n <= i,
            decreases self.turns@.len() - i,
        {
            proof {
                reveal(Seq::filter);
                let sub = self.turns@.subrange(0, i as int);
                let sub1 = self.turns@.subrange(0, i + 1);
                assert(sub1.drop_last() =~= sub);
                assert(sub1.last() == self.turns@[i as int]);
                if pred(self.turns@[i as int]) {
                    assert(sub1.filter(pred) == sub.filter(pred).push(sub1.last()));
                } else {
                    assert(sub1.filter(pred) == sub.filter(pred));
                }
                sub.lemma_filter_len(pred);
            }
            if self.turns[i].channel_id == channel_id {
                n = n + 1;
            }
            i = i + 1;
        }
        assert(self.turns@.subrange(0, self.turns@.len() as int) =~= self.turns@);
        n
    }
}

/// The path of the bot's database file under a data directory.
pub fn get_db_path(data_dir: &str) -> (r: String)
    ensures
        r@ == data_dir@ + "/discord_bot.db"@,
{
    String::from_str(data_dir).concat("/discord_bot.db")
}

} // verus!
