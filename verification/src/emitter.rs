//! The reply emitter. Visible text at most one plain-message ceiling long
//! goes out as a single plain reply; anything longer is cut into
//! rich-formatted chunks no longer than the rich-block ceiling, preferring
//! the last newline or space before the ceiling so words stay whole; empty
//! text with no directive attempted becomes one fixed acknowledgement.
use vstd::prelude::*;

use crate::text::copy_range;

verus! {

/// The character sequences held by a vector of chunks.
pub open spec fn chunks_view(v: Seq<Vec<char>>) -> Seq<Seq<char>> {
    v.map_values(|c: Vec<char>| c@)
}

/// The longest reply sent as a single plain message.
pub const PLAIN_CEILING: usize = 2000;

/// The longest chunk of a rich-formatted reply.
pub const RICH_CEILING: usize = 4000;

/// The largest `i < end` with a space or newline at `s[i]`.
pub open spec fn last_ws_before(s: Seq<char>, end: int) -> Option<int>
    decreases end,
    when 0 <= end <= s.len()
{
    if end <= 0 {
        None
    } else if s[end - 1] == ' ' || s[end - 1] == '\n' {
        Some(end - 1)
    } else {
        last_ws_before(s, end - 1)
    }
}

/// Where to cut the next chunk of an over-long text: at the last space or
/// newline before the ceiling when there is one after the first character,
/// at the ceiling itself otherwise.
pub open spec fn split_point(s: Seq<char>) -> int {
    match last_ws_before(s, RICH_CEILING as int) {
        Some(i) => if 0 < i < RICH_CEILING {
            i
        } else {
            RICH_CEILING as int
        },
        None => RICH_CEILING as int,
    }
}

/// The chunks of a reply, in order. Text within the ceiling is one chunk.
pub open spec fn spec_chunks(s: Seq<char>) -> Seq<Seq<char>>
    decreases s.len(),
{
    if s.len() == 0 {
        Seq::empty()
    } else if s.len() <= RICH_CEILING {
        seq![s]
    } else {
        seq![s.subrange(0, split_point(s))] + spec_chunks(s.skip(split_point(s)))
    }
}

/// Chunking is complete and bounded: the chunks concatenate back to exactly
/// the text they were cut from, every chunk is non-empty, and none exceeds
/// the rich-block ceiling.
pub proof fn lemma_chunks_reconstruct(s: Seq<char>)
    ensures
        spec_chunks(s).flatten() == s,
        forall|i: int|
            0 <= i < spec_chunks(s).len() ==> 1 <= #[trigger] spec_chunks(s)[i].len()
                <= RICH_CEILING,
    decreases s.len(),
{
    if s.len() == 0 {
        assert(spec_chunks(s).flatten() =~= s);
    } else if s.len() <= RICH_CEILING {
        assert(spec_chunks(s) == seq![s]);
        assert(seq![s].drop_first() =~= Seq::<Seq<char>>::empty());
        assert(Seq::<Seq<char>>::empty().flatten() == Seq::<char>::empty());
        assert(seq![s].flatten() == seq![s].first() + seq![s].drop_first().flatten());
        assert(seq![s].flatten() =~= s);
    } else {
        let sp = split_point(s);
        let head = s.subrange(0, sp);
        let rest = s.skip(sp);
        lemma_chunks_reconstruct(rest);
        let cs = spec_chunks(s);
        assert(cs == seq![head] + spec_chunks(rest));
        assert(cs.drop_first() =~= spec_chunks(rest));
        assert(cs.first() == head);
        assert(cs.flatten() == cs.first() + cs.drop_first().flatten());
        assert(cs.flatten() == head + spec_chunks(rest).flatten());
        assert(head + rest =~= s);
        assert(forall|i: int|
            0 <= i < cs.len() ==> 1 <= #[trigger] cs[i].len() <= RICH_CEILING) by {
            assert(forall|i: int|
                1 <= i < cs.len() ==> cs[i] == #[trigger] spec_chunks(rest)[i - 1]);
        }
    }
}

fn last_ws_exec(text: &Vec<char>, base: usize, end: usize) -> (r: Option<usize>)
    requires
        base + end <= text@.len(),

    ensures
        match r {
            Some(i) => last_ws_before(text@.skip(base as int), end as int) == Some(i as int) && i
                < end,
            None => last_ws_before(text@.skip(base as int), end as int) is None,
        },
{
    let ghost s = text@.skip(base as int);
    let n = text.len();
    assert(base + end <= n);
    let mut j: usize = end;
    while j > 0
        invariant
            j <= end,
            base + end <= text@.len(),
            last_ws_before(s, end as int) == last_ws_before(s, j as int),
        decreases j,
    {
        let c = text[base + j - 1];
        assert(s[j - 1] == c);
        if c == ' ' || c == '\n' {
            return Some(j - 1);
        }
        j = j - 1;
    }
    None
}

/// Cuts an over-long reply into ordered rich-block chunks; text within the
/// ceiling is returned whole as a single chunk.
pub fn chunk_reply(visible: &Vec<char>) -> (r: Vec<Vec<char>>)
    ensures
        chunks_view(r@) == spec_chunks(visible@),
{
    let mut out: Vec<Vec<char>> = Vec::new();
    let mut start: usize = 0;
    proof {
        assert(visible@.skip(0) =~= visible@);
        assert(chunks_view(out@) + spec_chunks(visible@.skip(0)) =~= spec_chunks(visible@));
    }
    while start < visible.len()
        invariant
            start <= visible@.len(),
            chunks_view(out@) + spec_chunks(visible@.skip(start as int)) == spec_chunks(visible@),
        decreases visible@.len() - start,
    {
        let ghost pre = chunks_view(out@);
        let ghost rem = visible@.skip(start as int);
        let rem_len = visible.len() - start;
        if rem_len <= RICH_CEILING {
            let chunk = copy_range(visible, start, visible.len());
            assert(chunk@ =~= rem);
            out.push(chunk);
            proof {
                assert(chunks_view(out@) =~= pre.push(rem));
                assert(spec_chunks(rem) == seq![rem]);
                assert(chunks_view(out@) + spec_chunks(visible@.skip(visible@.len() as int))
                    =~= pre + spec_chunks(rem));
            }
            start = visible.len();
        } else {
            let cut: usize = match last_ws_exec(visible, start, RICH_CEILING) {
                Some(i) => if 0 < i {
                    i
                } else {
                    RICH_CEILING
                },
                None => RICH_CEILING,
            };
            assert(cut as int == split_point(rem));
            let chunk = copy_range(visible, start, start + cut);
            proof {
                assert(chunk@ =~= rem.subrange(0, cut as int));
            }
            out.push(chunk);
            proof {
                assert(chunks_view(out@) =~= pre.push(rem.subrange(0, cut as int)));
                assert(spec_chunks(rem) == seq![rem.subrange(0, cut as int)] + spec_chunks(
                    rem.skip(cut as int),
                ));
                assert(rem.skip(cut as int) =~= visible@.skip(start + cut));
                assert(chunks_view(out@) + spec_chunks(visible@.skip(start + cut)) =~= pre
                    + spec_chunks(rem));
            }
            start = start + cut;
        }
    }
    proof {
        assert(visible@.skip(start as int) =~= Seq::<char>::empty());
        assert(chunks_view(out@) + spec_chunks(visible@.skip(start as int)) =~= chunks_view(out@));
    }
    out
}

/// One reply to the originating channel.
pub enum ReplyMessage {
    /// A plain message.
    Plain(String),
    /// One rich-formatted block of an over-long reply.
    Rich(String),
}

pub open spec fn reply_view(m: ReplyMessage) -> (bool, Seq<char>) {
    match m {
        ReplyMessage::Plain(s) => (false, s@),
        ReplyMessage::Rich(s) => (true, s@),
    }
}

/// What the emitter sends for given visible text: nothing when the text is
/// empty and a directive ran, the fixed acknowledgement when it is empty and
/// none did, one plain reply within the plain ceiling, rich chunks above it.
pub open spec fn spec_replies(visible: Seq<char>, had_outcomes: bool) -> Seq<(bool, Seq<char>)> {
    if visible.len() == 0 {
        if had_outcomes {
            Seq::empty()
        } else {
            seq![(false, "Action processed."@)]
        }
    } else if visible.len() <= PLAIN_CEILING {
        seq![(false, visible)]
    } else {
        spec_chunks(visible).map_values(|c: Seq<char>| (true, c))
    }
}

/// Plans the visible replies for one handled event.
pub fn emit_replies(visible: &Vec<char>, had_outcomes: bool) -> (r: Vec<ReplyMessage>)
    ensures
        r@.map_values(|m: ReplyMessage| reply_view(m)) == spec_replies(visible@, had_outcomes),
{
    let mut out: Vec<ReplyMessage> = Vec::new();
    if visible.len() == 0 {
        if !had_outcomes {
            out.push(ReplyMessage::Plain(String::from_str("Action processed.")));
        }
        assert(out@.map_values(|m: ReplyMessage| reply_view(m)) =~= spec_replies(
            visible@,
            had_outcomes,
        ));
        return out;
    }
    if visible.len() <= PLAIN_CEILING {
        out.push(ReplyMessage::Plain(crate::text::chars_to_string(visible)));
        assert(out@.map_values(|m: ReplyMessage| reply_view(m)) =~= spec_replies(
            visible@,
            had_outcomes,
        ));
        return out;
    }
    let chunks = chunk_reply(visible);
    let mut i: usize = 0;
    while i < chunks.len()
        invariant
            i <= chunks@.len(),
            chunks_view(chunks@) == spec_chunks(visible@),
            out@.map_values(|m: ReplyMessage| reply_view(m)) == spec_chunks(visible@).subrange(
                0,
                i as int,
            ).map_values(|c: Seq<char>| (true, c)),
        decreases chunks@.len() - i,
    {
        let ghost pre = out@.map_values(|m: ReplyMessage| reply_view(m));
        out.push(ReplyMessage::Rich(crate::text::chars_to_string(&chunks[i])));
        proof {
            assert(chunks@[i as int]@ == chunks_view(chunks@)[i as int]);
            assert(out@.map_values(|m: ReplyMessage| reply_view(m)) =~= pre.push(
                (true, spec_chunks(visible@)[i as int]),
            ));
            assert(out@.map_values(|m: ReplyMessage| reply_view(m)) =~= spec_chunks(
                visible@,
            ).subrange(0, i + 1).map_values(|c: Seq<char>| (true, c)));
        }
        i = i + 1;
    }
    proof {
        assert(spec_chunks(visible@).subrange(0, spec_chunks(visible@).len() as int) =~= spec_chunks(
            visible@,
        ));
        assert(out@.map_values(|m: ReplyMessage| reply_view(m)) =~= spec_replies(
            visible@,
            had_outcomes,
        ));
    }
    out
}

} // verus!
