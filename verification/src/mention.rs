//! The mention cache: building per-guild tables of display-name patterns and
//! platform mention tokens, and substituting those patterns into text.
//!
//! A pattern carries its marker character ("@Name" or "#name"); substitution
//! is ASCII-case-insensitive and requires a non-word character (or the end of
//! the text) right after the match, so that a short name never swallows the
//! prefix of a longer one. Tables are ordered by descending pattern length,
//! which makes the longest of two overlapping patterns win.
use vstd::prelude::*;

use crate::text::{
    lower_char, lower_seq, is_word_char, dec_str, lower, word_char, str_to_chars, chars_to_string,
    u64_to_string,
};

verus! {

broadcast use vstd::seq_lib::group_to_multiset_ensures;

/// One display-form pattern and the mention token it stands for.
pub struct Replacement {
    pub pattern: String,
    pub value: String,
}

/// The substitution table of one guild, ordered by descending pattern length.
pub struct GuildCache {
    pub replacements: Vec<Replacement>,
}

/// A guild role, as plain values.
pub struct RoleEntry {
    pub role_id: u64,
    pub name: String,
}

/// A guild channel, as plain values.
pub struct ChannelEntry {
    pub channel_id: u64,
    pub name: String,
}

/// A guild member with the names it can be addressed by.
pub struct MemberEntry {
    pub user_id: u64,
    pub username: String,
    pub global_name: Option<String>,
    pub nick: Option<String>,
}

pub open spec fn rep_view(r: Replacement) -> (Seq<char>, Seq<char>) {
    (r.pattern@, r.value@)
}

pub open spec fn reps_view(v: Seq<Replacement>) -> Seq<(Seq<char>, Seq<char>)> {
    v.map_values(|r: Replacement| rep_view(r))
}

/// `pat` occurs at position `i` of `text`, ASCII-case-insensitively, with a
/// non-word character (or the end of the text) right after it.
pub open spec fn matches_at(text: Seq<char>, pat: Seq<char>, i: int) -> bool {
    &&& 0 <= i
    &&& i + pat.len() <= text.len()
    &&& lower_seq(text.subrange(i, i + pat.len() as int)) == lower_seq(pat)
    &&& (i + pat.len() == text.len() || !is_word_char(text[i + pat.len() as int]))
}

/// `text` with every non-overlapping occurrence of `pat` (scanned left to
/// right) replaced by `val`; replaced text is not rescanned.
pub open spec fn substituted(text: Seq<char>, pat: Seq<char>, val: Seq<char>) -> Seq<char>
    decreases text.len(),
{
    if pat.len() == 0 || text.len() == 0 {
        text
    } else if matches_at(text, pat, 0) {
        val + substituted(text.skip(pat.len() as int), pat, val)
    } else {
        seq![text[0]] + substituted(text.skip(1), pat, val)
    }
}

/// `text` after substituting each table entry in order.
pub open spec fn applied(text: Seq<char>, reps: Seq<(Seq<char>, Seq<char>)>) -> Seq<char>
    decreases reps.len(),
{
    if reps.len() == 0 {
        text
    } else {
        applied(substituted(text, reps[0].0, reps[0].1), reps.skip(1))
    }
}

/// Patterns come longest first.
pub open spec fn sorted_desc(v: Seq<Replacement>) -> bool {
    forall|i: int, j: int|
        0 <= i < j < v.len() ==> v[i].pattern@.len() >= v[j].pattern@.len()
}

pub open spec fn role_pattern(name: Seq<char>) -> Seq<char> {
    seq!['@'] + name
}

pub open spec fn channel_pattern(name: Seq<char>) -> Seq<char> {
    seq!['#'] + name
}

pub open spec fn role_token(id: u64) -> Seq<char> {
    seq!['<', '@', '&'] + dec_str(id as nat) + seq!['>']
}

pub open spec fn channel_token(id: u64) -> Seq<char> {
    seq!['<', '#'] + dec_str(id as nat) + seq!['>']
}

pub open spec fn user_token(id: u64) -> Seq<char> {
    seq!['<', '@'] + dec_str(id as nat) + seq!['>']
}

pub open spec fn role_entries(roles: Seq<RoleEntry>) -> Seq<(Seq<char>, Seq<char>)> {
    roles.map_values(|r: RoleEntry| (role_pattern(r.name@), role_token(r.role_id)))
}

pub open spec fn channel_entries(channels: Seq<ChannelEntry>) -> Seq<(Seq<char>, Seq<char>)> {
    channels.map_values(|c: ChannelEntry| (channel_pattern(c.name@), channel_token(c.channel_id)))
}

/// The one to three entries a member contributes: username, then global
/// display name, then guild nickname, all mapping to the same token.
pub open spec fn member_entry_list(m: MemberEntry) -> Seq<(Seq<char>, Seq<char>)> {
    let base = seq![(role_pattern(m.username@), user_token(m.user_id))];
    let with_global = match m.global_name {
        Some(g) => base.push((role_pattern(g@), user_token(m.user_id))),
        None => base,
    };
    match m.nick {
        Some(n) => with_global.push((role_pattern(n@), user_token(m.user_id))),
        None => with_global,
    }
}

pub open spec fn member_entries(ms: Seq<MemberEntry>) -> Seq<(Seq<char>, Seq<char>)>
    decreases ms.len(),
{
    if ms.len() == 0 {
        Seq::empty()
    } else {
        member_entries(ms.drop_last()) + member_entry_list(ms.last())
    }
}

/// Everything a full guild snapshot generates, in generation order:
/// roles, then channels, then members.
pub open spec fn snapshot_entries(
    roles: Seq<RoleEntry>,
    channels: Seq<ChannelEntry>,
    members: Seq<MemberEntry>,
) -> Seq<(Seq<char>, Seq<char>)> {
    role_entries(roles) + channel_entries(channels) + member_entries(members)
}

proof fn lemma_matches_at_shift(text: Seq<char>, pat: Seq<char>, i: int)
    requires
        0 <= i <= text.len(),
    ensures
        matches_at(text, pat, i) == matches_at(text.skip(i), pat, 0),
{
    if i + pat.len() <= text.len() {
        assert(text.skip(i).subrange(0, pat.len() as int) =~= text.subrange(i, i + pat.len()));
    }
}

/// One guild's cache slot.
pub struct GuildCacheEntry {
    pub guild_id: u64,
    pub cache: GuildCache,
}

/// The index of the first slot held by a guild.
pub open spec fn cache_lookup(s: Seq<GuildCacheEntry>, id: u64) -> Option<int>
    decreases s.len(),
{
    if s.len() == 0 {
        None
    } else if s[0].guild_id == id {
        Some(0)
    } else {
        match cache_lookup(s.drop_first(), id) {
            Some(i) => Some(i + 1),
            None => None,
        }
    }
}

proof fn lemma_cache_lookup(s: Seq<GuildCacheEntry>, id: u64)
    ensures
        match cache_lookup(s, id) {
            Some(i) => 0 <= i < s.len() && s[i].guild_id == id && forall|k: int|
                0 <= k < i ==> s[k].guild_id != id,
            None => forall|k: int| 0 <= k < s.len() ==> s[k].guild_id != id,
        },
    decreases s.len(),
{
    if s.len() > 0 && s[0].guild_id != id {
        lemma_cache_lookup(s.drop_first(), id);
        match cache_lookup(s.drop_first(), id) {
            Some(i) => {
                assert(s[i + 1] == s.drop_first()[i]);
                assert forall|k: int| 0 <= k < i + 1 implies s[k].guild_id != id by {
                    if k > 0 {
                        assert(s.drop_first()[k - 1].guild_id != id);
                    }
                }
            },
            None => {
                assert forall|k: int| 0 <= k < s.len() implies s[k].guild_id != id by {
                    if k > 0 {
                        assert(s.drop_first()[k - 1].guild_id != id);
                    }
                }
            },
        }
    }
}

/// The per-guild substitution tables, replaced wholesale on refresh; a
/// reader of a guild nobody has built yet simply finds nothing. The lock
/// that shares one directory across events lives outside the library.
pub struct MentionDirectory {
    pub caches: Vec<GuildCacheEntry>,
}

impl MentionDirectory {
    pub fn new() -> (s: Self)
        ensures
            s.caches@ == Seq::<GuildCacheEntry>::empty(),
    {
        MentionDirectory { caches: Vec::new() }
    }

    /// The cached table of one guild, possibly stale, or nothing.
    pub fn lookup(&self, guild_id: u64) -> (r: Option<&GuildCache>)
        ensures
            match cache_lookup(self.caches@, guild_id) {
                Some(i) => r is Some && *r->Some_0 == self.caches@[i].cache,
                None => r is None,
            },
    {
        proof {
            lemma_cache_lookup(self.caches@, guild_id);
        }
        let mut i: usize = 0;
        while i < self.caches.len()
            invariant
                i <= self.caches@.len(),
                forall|k: int| 0 <= k < i ==> self.caches@[k].guild_id != guild_id,
            decreases self.caches@.len() - i,
        {
            if self.caches[i].guild_id == guild_id {
                proof {
                    lemma_cache_lookup_prefix(self.caches@, guild_id, i as int);
                }
                return Some(&self.caches[i].cache);
            }
            i = i + 1;
        }
        None
    }

    /// Replaces a guild's table wholesale, or installs its first one.
    pub fn store(&mut self, guild_id: u64, cache: GuildCache)
        ensures
            match cache_lookup(old(self).caches@, guild_id) {
                Some(i) => final(self).caches@ == old(self).caches@.update(
                    i,
                    GuildCacheEntry { guild_id, cache },
                ),
                None => final(self).caches@ == old(self).caches@.push(
                    GuildCacheEntry { guild_id, cache },
                ),
            },
    {
        proof {
            lemma_cache_lookup(old(self).caches@, guild_id);
        }
        let mut i: usize = 0;
        while i < self.caches.len()
            invariant
                i <= self.caches@.len(),
                self.caches@ == old(self).caches@,
                forall|k: int| 0 <= k < i ==> self.caches@[k].guild_id != guild_id,
            decreases self.caches@.len() - i,
        {
            if self.caches[i].guild_id == guild_id {
                proof {
                    lemma_cache_lookup_prefix(self.caches@, guild_id, i as int);
                }
                self.caches.remove(i);
                self.caches.insert(i, GuildCacheEntry { guild_id, cache });
                proof {
                    assert(self.caches@ =~= old(self).caches@.update(
                        i as int,
                        GuildCacheEntry { guild_id, cache },
                    ));
                }
                return ;
            }
            i = i + 1;
        }
        self.caches.push(GuildCacheEntry { guild_id, cache });
    }
}

/// When a scan reaches a hit at `i` with no earlier hit, the first-match
/// index is exactly `i`.
proof fn lemma_cache_lookup_prefix(s: Seq<GuildCacheEntry>, id: u64, i: int)
    requires
        0 <= i < s.len(),
        s[i].guild_id == id,
        forall|k: int| 0 <= k < i ==> s[k].guild_id != id,
    ensures
        cache_lookup(s, id) == Some(i),
    decreases s.len(),
{
    if i > 0 {
        lemma_cache_lookup_prefix(s.drop_first(), id, i - 1);
    }
}

/// Decides `matches_at` at one position.
pub fn match_at(text: &Vec<char>, pat: &Vec<char>, i: usize) -> (r: bool)
    requires
        i <= text@.len(),
    ensures
        r == matches_at(text@, pat@, i as int),
{
    if pat.len() > text.len() - i {
        return false;
    }
    let mut j: usize = 0;
    while j < pat.len()
        invariant
            j <= pat@.len(),
            i + pat@.len() <= text@.len(),
            forall|k: int| 0 <= k < j ==> lower_char(text@[i + k]) == lower_char(pat@[k]),
        decreases pat@.len() - j,
    {
        if lower(text[i + j]) != lower(pat[j]) {
            proof {
                let sub = text@.subrange(i as int, i + pat@.len());
                assert(lower_seq(sub)[j as int] == lower_char(sub[j as int]));
                assert(lower_seq(pat@)[j as int] == lower_char(pat@[j as int]));
            }
            return false;
        }
        j = j + 1;
    }
    proof {
        let sub = text@.subrange(i as int, i + pat@.len());
        assert forall|k: int| 0 <= k < pat@.len() implies lower_seq(sub)[k] == lower_seq(pat@)[k]
        by {
            assert(sub[k] == text@[i + k]);
        }
        assert(lower_seq(sub) =~= lower_seq(pat@));
    }
    if i + pat.len() == text.len() {
        true
    } else {
        !word_char(text[i + pat.len()])
    }
}

/// Replaces every non-overlapping occurrence of one pattern.
pub fn substitute(text: &Vec<char>, pat: &Vec<char>, val: &Vec<char>) -> (out: Vec<char>)
    ensures
        out@ == substituted(text@, pat@, val@),
{
    if pat.len() == 0 {
        let mut out: Vec<char> = Vec::new();
        out.extend_from_slice(text.as_slice());
        assert(out@ =~= text@);
        return out;
    }
    let mut out: Vec<char> = Vec::new();
    let mut i: usize = 0;
    proof {
        assert(text@.skip(0) =~= text@);
        assert(Seq::<char>::empty() + substituted(text@, pat@, val@) =~= substituted(
            text@,
            pat@,
            val@,
        ));
    }
    while i < text.len()
        invariant
            i <= text@.len(),
            pat@.len() > 0,
            substituted(text@, pat@, val@) == out@ + substituted(
                text@.skip(i as int),
                pat@,
                val@,
            ),
        decreases text@.len() - i,
    {
        let ghost pre = out@;
        let ghost rest = text@.skip(i as int);
        if match_at(text, pat, i) {
            out.extend_from_slice(val.as_slice());
            proof {
                lemma_matches_at_shift(text@, pat@, i as int);
                assert(matches_at(rest, pat@, 0));
                assert(rest.skip(pat@.len() as int) =~= text@.skip(i + pat@.len()));
                assert(substituted(rest, pat@, val@) == val@ + substituted(
                    text@.skip(i + pat@.len()),
                    pat@,
                    val@,
                ));
                assert(out@ =~= pre + val@);
                assert(out@ + substituted(text@.skip(i + pat@.len()), pat@, val@) =~= pre
                    + substituted(rest, pat@, val@));
            }
            i = i + pat.len();
        } else {
            out.push(text[i]);
            proof {
                lemma_matches_at_shift(text@, pat@, i as int);
                assert(!matches_at(rest, pat@, 0));
                assert(rest.skip(1) =~= text@.skip(i + 1));
                assert(rest[0] == text@[i as int]);
                assert(substituted(rest, pat@, val@) == seq![text@[i as int]] + substituted(
                    text@.skip(i + 1),
                    pat@,
                    val@,
                ));
                assert(out@ =~= pre + seq![text@[i as int]]);
                assert(out@ + substituted(text@.skip(i + 1), pat@, val@) =~= pre + substituted(
                    rest,
                    pat@,
                    val@,
                ));
            }
            i = i + 1;
        }
    }
    proof {
        assert(text@.skip(i as int) =~= Seq::<char>::empty());
        assert(out@ + substituted(text@.skip(i as int), pat@, val@) =~= out@);
    }
    out
}

/// Substitutes every table entry, in table order, into `text`.
pub fn apply_replacements(text: &str, reps: &Vec<Replacement>) -> (r: String)
    ensures
        r@ == applied(text@, reps_view(reps@)),
{
    let mut cur: Vec<char> = str_to_chars(text);
    let mut k: usize = 0;
    proof {
        assert(reps_view(reps@).skip(0) =~= reps_view(reps@));
    }
    while k < reps.len()
        invariant
            k <= reps@.len(),
            applied(cur@, reps_view(reps@).skip(k as int)) == applied(text@, reps_view(reps@)),
        decreases reps@.len() - k,
    {
        let ghost pre = cur@;
        let pat = str_to_chars(reps[k].pattern.as_str());
        let val = str_to_chars(reps[k].value.as_str());
        cur = substitute(&cur, &pat, &val);
        proof {
            let rv = reps_view(reps@);
            assert(rv.skip(k as int)[0] == rv[k as int]);
            assert(rv.skip(k as int).skip(1) =~= rv.skip(k + 1));
            assert(applied(pre, rv.skip(k as int)) == applied(cur@, rv.skip(k + 1)));
        }
        k = k + 1;
    }
    proof {
        assert(reps_view(reps@).skip(reps@.len() as int) =~= Seq::<(Seq<char>, Seq<char>)>::empty());
    }
    chars_to_string(&cur)
}

fn make_replacement(marker: char, name: &str, token: String) -> (r: Replacement)
    ensures
        r.pattern@ == seq![marker] + name@,
        r.value@ == token@,
{
    let mut pattern = String::new();
    pattern.push(marker);
    let mut p: Vec<char> = str_to_chars(name);
    let mut j: usize = 0;
    while j < p.len()
        invariant
            j <= p@.len(),
            p@ == name@,
            pattern@ == seq![marker] + name@.subrange(0, j as int),
        decreases p@.len() - j,
    {
        pattern.push(p[j]);
        assert(pattern@ =~= seq![marker] + name@.subrange(0, j + 1));
        j = j + 1;
    }
    assert(pattern@ =~= seq![marker] + name@);
    Replacement { pattern, value: token }
}

fn role_token_string(id: u64) -> (r: String)
    ensures
        r@ == role_token(id),
{
    proof {
        reveal_strlit("<@&");
        reveal_strlit(">");
    }
    let r = String::from_str("<@&").concat(u64_to_string(id).as_str()).concat(">");
    assert(r@ =~= role_token(id));
    r
}

fn channel_token_string(id: u64) -> (r: String)
    ensures
        r@ == channel_token(id),
{
    proof {
        reveal_strlit("<#");
        reveal_strlit(">");
    }
    let r = String::from_str("<#").concat(u64_to_string(id).as_str()).concat(">");
    assert(r@ =~= channel_token(id));
    r
}

fn user_token_string(id: u64) -> (r: String)
    ensures
        r@ == user_token(id),
{
    proof {
        reveal_strlit("<@");
        reveal_strlit(">");
    }
    let r = String::from_str("<@").concat(u64_to_string(id).as_str()).concat(">");
    assert(r@ =~= user_token(id));
    r
}

fn push_role_entries(acc: &mut Vec<Replacement>, roles: &Vec<RoleEntry>)
    ensures
        reps_view(final(acc)@) == reps_view(old(acc)@) + role_entries(roles@),
{
    let mut i: usize = 0;
    while i < roles.len()
        invariant
            i <= roles@.len(),
            reps_view(acc@) == reps_view(old(acc)@) + role_entries(roles@.subrange(0, i as int)),
        decreases roles@.len() - i,
    {
        let ghost pre = acc@;
        let token = role_token_string(roles[i].role_id);
        let rep = make_replacement('@', roles[i].name.as_str(), token);
        acc.push(rep);
        proof {
            assert(reps_view(acc@) =~= reps_view(pre).push(rep_view(acc@.last())));
            assert(role_entries(roles@.subrange(0, i + 1)) =~= role_entries(
                roles@.subrange(0, i as int),
            ).push((role_pattern(roles@[i as int].name@), role_token(roles@[i as int].role_id))));
            assert(reps_view(acc@) =~= reps_view(old(acc)@) + role_entries(
                roles@.subrange(0, i + 1),
            ));
        }
        i = i + 1;
    }
    assert(roles@.subrange(0, roles@.len() as int) =~= roles@);
}

fn push_channel_entries(acc: &mut Vec<Replacement>, channels: &Vec<ChannelEntry>)
    ensures
        reps_view(final(acc)@) == reps_view(old(acc)@) + channel_entries(channels@),
{
    let mut i: usize = 0;
    while i < channels.len()
        invariant
            i <= channels@.len(),
            reps_view(acc@) == reps_view(old(acc)@) + channel_entries(
                channels@.subrange(0, i as int),
            ),
        decreases channels@.len() - i,
    {
        let ghost pre = acc@;
        let token = channel_token_string(channels[i].channel_id);
        let rep = make_replacement('#', channels[i].name.as_str(), token);
        acc.push(rep);
        proof {
            assert(reps_view(acc@) =~= reps_view(pre).push(rep_view(acc@.last())));
            assert(channel_entries(channels@.subrange(0, i + 1)) =~= channel_entries(
                channels@.subrange(0, i as int),
            ).push(
                (
                    channel_pattern(channels@[i as int].name@),
                    channel_token(channels@[i as int].channel_id),
                ),
            ));
            assert(reps_view(acc@) =~= reps_view(old(acc)@) + channel_entries(
                channels@.subrange(0, i + 1),
            ));
        }
        i = i + 1;
    }
    assert(channels@.subrange(0, channels@.len() as int) =~= channels@);
}

fn push_member_entries(acc: &mut Vec<Replacement>, members: &Vec<MemberEntry>)
    ensures
        reps_view(final(acc)@) == reps_view(old(acc)@) + member_entries(members@),
{
    let mut i: usize = 0;
    assert(member_entries(members@.subrange(0, 0)) =~= Seq::<(Seq<char>, Seq<char>)>::empty());
    while i < members.len()
        invariant
            i <= members@.len(),
            reps_view(acc@) == reps_view(old(acc)@) + member_entries(
                members@.subrange(0, i as int),
            ),
        decreases members@.len() - i,
    {
        let ghost pre = acc@;
        let m = &members[i];
        let token = user_token_string(m.user_id);
        let rep = make_replacement('@', m.username.as_str(), token.clone());
        acc.push(rep);
        let ghost after_first = acc@;
        assert(reps_view(after_first) =~= reps_view(pre).push(
            (role_pattern(members@[i as int].username@), user_token(members@[i as int].user_id)),
        ));
        match &m.global_name {
            Some(g) => {
                let rep2 = make_replacement('@', g.as_str(), token.clone());
                acc.push(rep2);
                assert(reps_view(acc@) =~= reps_view(after_first).push(rep_view(acc@.last())));
            },
            None => {},
        }
        let ghost after_global = acc@;
        match &m.nick {
            Some(n) => {
                let rep3 = make_replacement('@', n.as_str(), token);
                acc.push(rep3);
                assert(reps_view(acc@) =~= reps_view(after_global).push(rep_view(acc@.last())));
            },
            None => {},
        }
        proof {
            assert(reps_view(acc@) =~= reps_view(pre) + member_entry_list(members@[i as int]));
            let sub1 = members@.subrange(0, i + 1);
            assert(sub1.drop_last() =~= members@.subrange(0, i as int));
            assert(member_entries(sub1) == member_entries(sub1.drop_last()) + member_entry_list(
                members@[i as int],
            ));
            assert(reps_view(acc@) =~= reps_view(old(acc)@) + member_entries(sub1));
        }
        i = i + 1;
    }
    assert(members@.subrange(0, members@.len() as int) =~= members@);
}

/// Orders a table longest pattern first. The result holds exactly the same
/// entries; among patterns of equal length the order is unspecified.
pub fn sort_replacements(input: Vec<Replacement>) -> (r: Vec<Replacement>)
    ensures
        sorted_desc(r@),
        reps_view(r@).to_multiset() == reps_view(input@).to_multiset(),
{
    let mut src = input;
    let ghost full = reps_view(src@).to_multiset();
    let mut out: Vec<Replacement> = Vec::new();
    assert(reps_view(out@).to_multiset().add(reps_view(src@).to_multiset()) =~= full);
    while src.len() > 0
        invariant
            reps_view(out@).to_multiset().add(reps_view(src@).to_multiset()) == full,
            sorted_desc(out@),
            forall|a: int, b: int|
                0 <= a < out@.len() && 0 <= b < src@.len() ==> out@[a].pattern@.len()
                    >= src@[b].pattern@.len(),
        decreases src@.len(),
    {
        let mut m: usize = 0;
        let mut mlen: usize = src[0].pattern.as_str().unicode_len();
        let mut k: usize = 1;
        while k < src.len()
            invariant
                m < src@.len(),
                k <= src@.len(),
                mlen == src@[m as int].pattern@.len(),
                forall|t: int| 0 <= t < k ==> src@[m as int].pattern@.len() >= src@[t].pattern@.len(),
            decreases src@.len() - k,
        {
            let klen = src[k].pattern.as_str().unicode_len();
            if klen > mlen {
                m = k;
                mlen = klen;
            }
            k = k + 1;
        }
        let ghost pre_src = src@;
        let ghost pre_out = out@;
        let item = src.remove(m);
        out.push(item);
        proof {
            assert(reps_view(src@) =~= reps_view(pre_src).remove(m as int));
            assert(reps_view(out@) =~= reps_view(pre_out).push(rep_view(pre_src[m as int])));
            let x = rep_view(pre_src[m as int]);
            assert(reps_view(pre_src)[m as int] == x);
            assert(reps_view(src@).to_multiset() =~= reps_view(pre_src).to_multiset().remove(x));
            assert(reps_view(out@).to_multiset() =~= reps_view(pre_out).to_multiset().insert(x));
            assert(reps_view(pre_src).to_multiset().count(x) > 0);
            assert(reps_view(out@).to_multiset().add(reps_view(src@).to_multiset()) =~= reps_view(
                pre_out,
            ).to_multiset().add(reps_view(pre_src).to_multiset()));
        }
    }
    out
}

/// Builds a guild's full substitution table from a roster snapshot: roles as
/// "@RoleName", channels as "#channel-name", and every name a member can be
/// addressed by as "@name", all ordered longest pattern first.
pub fn build_replacements(
    roles: &Vec<RoleEntry>,
    channels: &Vec<ChannelEntry>,
    members: &Vec<MemberEntry>,
) -> (r: Vec<Replacement>)
    ensures
        sorted_desc(r@),
        reps_view(r@).to_multiset() == snapshot_entries(roles@, channels@, members@).to_multiset(),
{
    let mut acc: Vec<Replacement> = Vec::new();
    push_role_entries(&mut acc, roles);
    push_channel_entries(&mut acc, channels);
    push_member_entries(&mut acc, members);
    assert(reps_view(acc@) =~= snapshot_entries(roles@, channels@, members@));
    sort_replacements(acc)
}

/// The reduced substitution table used when no cache exists for a guild:
/// only the message's tagged users, its author, and the guild's roles, never
/// the full member roster.
pub fn fallback_replacements(
    roles: &Vec<RoleEntry>,
    tagged: &Vec<MemberEntry>,
    author: MemberEntry,
) -> (r: Vec<Replacement>)
    ensures
        sorted_desc(r@),
        reps_view(r@).to_multiset() == (role_entries(roles@) + member_entries(
            tagged@.push(author),
        )).to_multiset(),
{
    let mut users: Vec<MemberEntry> = Vec::new();
    let mut i: usize = 0;
    while i < tagged.len()
        invariant
            i <= tagged@.len(),
            users@ == tagged@.subrange(0, i as int),
        decreases tagged@.len() - i,
    {
        let t = &tagged[i];
        users.push(
            MemberEntry {
                user_id: t.user_id,
                username: t.username.clone(),
                global_name: match &t.global_name {
                    Some(g) => Some(g.clone()),
                    None => None,
                },
                nick: match &t.nick {
                    Some(n) => Some(n.clone()),
                    None => None,
                },
            },
        );
        assert(users@ =~= tagged@.subrange(0, i + 1));
        i = i + 1;
    }
    assert(users@ =~= tagged@);
    users.push(author);
    let mut acc: Vec<Replacement> = Vec::new();
    push_role_entries(&mut acc, roles);
    push_member_entries(&mut acc, &users);
    assert(reps_view(acc@) =~= role_entries(roles@) + member_entries(tagged@.push(author)));
    sort_replacements(acc)
}

} // verus!
