//! The directive parser and planner. A completion may embed send
//! instructions of the form `[[SEND:<target>:<body>]]`; the scanner finds
//! every non-overlapping occurrence left to right, taking as target the
//! shortest span up to the next `:` and as body everything up to the next
//! `]]`, both whitespace-trimmed. Matched spans are removed from the visible
//! text, and the instructions execute in reverse textual order.
use vstd::prelude::*;

use crate::text::{
    all_digits, chars_to_string, ci_equal, contains_seq, copy_range, dec_val, digits_only,
    lower_seq, parse_u64_digits, seq_at, seq_at_exec, str_to_chars, trim_chars, trimmed,
};
use crate::mention::ChannelEntry;

verus! {

/// The opening delimiter of a send instruction.
pub open spec fn open_mark() -> Seq<char> {
    seq!['[', '[', 'S', 'E', 'N', 'D', ':']
}

/// The closing delimiter of a send instruction.
pub open spec fn close_mark() -> Seq<char> {
    seq![']', ']']
}

/// The smallest `j >= from` with `text[j] == c`.
pub open spec fn find_char_from(text: Seq<char>, c: char, from: int) -> Option<int>
    decreases text.len() - from,
    when 0 <= from
{
    if from >= text.len() {
        None
    } else if text[from] == c {
        Some(from)
    } else {
        find_char_from(text, c, from + 1)
    }
}

/// The smallest `j >= from` where `pat` occurs.
pub open spec fn find_seq_from(text: Seq<char>, pat: Seq<char>, from: int) -> Option<int>
    decreases text.len() - from,
    when 0 <= from
{
    if from > text.len() {
        None
    } else if seq_at(text, pat, from) {
        Some(from)
    } else if from == text.len() {
        None
    } else {
        find_seq_from(text, pat, from + 1)
    }
}

pub proof fn lemma_find_char_from(text: Seq<char>, c: char, from: int)
    requires
        0 <= from,
    ensures
        match find_char_from(text, c, from) {
            Some(j) => from <= j < text.len() && text[j] == c && forall|k: int|
                from <= k < j ==> text[k] != c,
            None => forall|k: int| from <= k < text.len() ==> text[k] != c,
        },
    decreases text.len() - from,
{
    if from < text.len() && text[from] != c {
        lemma_find_char_from(text, c, from + 1);
    }
}

pub proof fn lemma_find_seq_from(text: Seq<char>, pat: Seq<char>, from: int)
    requires
        0 <= from,
    ensures
        match find_seq_from(text, pat, from) {
            Some(j) => from <= j && j + pat.len() <= text.len() && seq_at(text, pat, j)
                && forall|k: int| from <= k < j ==> !seq_at(text, pat, k),
            None => forall|k: int| from <= k ==> !seq_at(text, pat, k),
        },
    decreases text.len() - from,
{
    if from > text.len() {
        assert(forall|k: int| from <= k ==> !seq_at(text, pat, k));
    } else if seq_at(text, pat, from) {
    } else if from == text.len() {
        assert(forall|k: int| from <= k ==> !seq_at(text, pat, k));
    } else {
        lemma_find_seq_from(text, pat, from + 1);
    }
}

/// Where a send instruction starting at `pos` has its target separator and
/// its closing delimiter, if it forms one: the opening delimiter at `pos`, at
/// least one target character, the first `:` after that, and the first `]]`
/// after that.
pub open spec fn directive_parts(text: Seq<char>, pos: int) -> Option<(int, int)> {
    if seq_at(text, open_mark(), pos) {
        match find_char_from(text, ':', pos + 8) {
            Some(sep) => match find_seq_from(text, close_mark(), sep + 1) {
                Some(close) => Some((sep, close)),
                None => None,
            },
            None => None,
        }
    } else {
        None
    }
}

proof fn lemma_directive_parts(text: Seq<char>, pos: int)
    requires
        0 <= pos,
        directive_parts(text, pos) is Some,
    ensures
        ({
            let (sep, close) = directive_parts(text, pos)->Some_0;
            pos + 8 <= sep < close && close + 2 <= text.len()
        }),
{
    lemma_find_char_from(text, ':', pos + 8);
    let sep = find_char_from(text, ':', pos + 8)->Some_0;
    lemma_find_seq_from(text, close_mark(), sep + 1);
}

/// One found directive: its span in the completion text, the trimmed target
/// reference, and the trimmed body.
pub struct Directive {
    pub start: usize,
    pub end: usize,
    pub target_reference: String,
    pub body: String,
}

pub open spec fn dir_view(d: Directive) -> (int, int, Seq<char>, Seq<char>) {
    (d.start as int, d.end as int, d.target_reference@, d.body@)
}

pub open spec fn dirs_view(v: Seq<Directive>) -> Seq<(int, int, Seq<char>, Seq<char>)> {
    v.map_values(|d: Directive| dir_view(d))
}

/// All directives at or after `pos`, scanning left to right and resuming
/// after each match.
pub open spec fn directives_from(text: Seq<char>, pos: int) -> Seq<(int, int, Seq<char>, Seq<char>)>
    decreases text.len() - pos,
    when 0 <= pos
    via directives_from_dec
{
    if pos >= text.len() {
        Seq::empty()
    } else {
        match directive_parts(text, pos) {
            Some((sep, close)) => seq![
                (
                    pos,
                    close + 2,
                    trimmed(text.subrange(pos + 7, sep)),
                    trimmed(text.subrange(sep + 1, close)),
                ),
            ] + directives_from(text, close + 2),
            None => directives_from(text, pos + 1),
        }
    }
}

#[via_fn]
proof fn directives_from_dec(text: Seq<char>, pos: int) {
    if pos < text.len() && directive_parts(text, pos) is Some {
        lemma_directive_parts(text, pos);
    }
}

/// The directives of a whole completion text.
pub open spec fn spec_directives(text: Seq<char>) -> Seq<(int, int, Seq<char>, Seq<char>)> {
    directives_from(text, 0)
}

/// The text at or after `pos` with every directive span removed.
pub open spec fn stripped_from(text: Seq<char>, pos: int) -> Seq<char>
    decreases text.len() - pos,
    when 0 <= pos
    via stripped_from_dec
{
    if pos >= text.len() {
        Seq::empty()
    } else {
        match directive_parts(text, pos) {
            Some((sep, close)) => stripped_from(text, close + 2),
            None => seq![text[pos]] + stripped_from(text, pos + 1),
        }
    }
}

#[via_fn]
proof fn stripped_from_dec(text: Seq<char>, pos: int) {
    if pos < text.len() && directive_parts(text, pos) is Some {
        lemma_directive_parts(text, pos);
    }
}

/// The visible remainder of a whole completion text.
pub open spec fn spec_stripped(text: Seq<char>) -> Seq<char> {
    stripped_from(text, 0)
}

fn open_mark_vec() -> (r: Vec<char>)
    ensures
        r@ == open_mark(),
{
    let r = vec!['[', '[', 'S', 'E', 'N', 'D', ':'];
    assert(r@ =~= open_mark());
    r
}

fn close_mark_vec() -> (r: Vec<char>)
    ensures
        r@ == close_mark(),
{
    let r = vec![']', ']'];
    assert(r@ =~= close_mark());
    r
}

fn find_char_from_exec(text: &Vec<char>, c: char, from: usize) -> (r: Option<usize>)
    requires
        from <= text@.len(),
    ensures
        match r {
            Some(j) => find_char_from(text@, c, from as int) == Some(j as int) && j < text@.len(),
            None => find_char_from(text@, c, from as int) is None,
        },
{
    let mut j: usize = from;
    while j < text.len()
        invariant
            from <= j <= text@.len(),
            find_char_from(text@, c, from as int) == find_char_from(text@, c, j as int),
        decreases text@.len() - j,
    {
        if text[j] == c {
            return Some(j);
        }
        j = j + 1;
    }
    None
}

fn find_seq_from_exec(text: &Vec<char>, pat: &Vec<char>, from: usize) -> (r: Option<usize>)
    requires
        from <= text@.len(),
    ensures
        match r {
            Some(j) => find_seq_from(text@, pat@, from as int) == Some(j as int) && j
                + pat@.len() <= text@.len(),
            None => find_seq_from(text@, pat@, from as int) is None,
        },
{
    let mut j: usize = from;
    while j < text.len()
        invariant
            from <= j <= text@.len(),
            find_seq_from(text@, pat@, from as int) == find_seq_from(text@, pat@, j as int),
        decreases text@.len() - j,
    {
        if seq_at_exec(text, pat, j) {
            return Some(j);
        }
        j = j + 1;
    }
    if seq_at_exec(text, pat, j) {
        return Some(j);
    }
    None
}

/// Scans a completion, returning every directive in textual order together
/// with the visible text that remains once all their spans are removed.
pub fn extract_directives(text: &Vec<char>) -> (r: (Vec<Directive>, Vec<char>))
    ensures
        dirs_view(r.0@) == spec_directives(text@),
        r.1@ == spec_stripped(text@),
{
    let open = open_mark_vec();
    let close = close_mark_vec();
    let mut dirs: Vec<Directive> = Vec::new();
    let mut visible: Vec<char> = Vec::new();
    let mut pos: usize = 0;
    proof {
        assert(dirs_view(dirs@) + directives_from(text@, 0) =~= spec_directives(text@));
        assert(visible@ + stripped_from(text@, 0) =~= spec_stripped(text@));
    }
    while pos < text.len()
        invariant
            pos <= text@.len(),
            open@ == open_mark(),
            close@ == close_mark(),
            dirs_view(dirs@) + directives_from(text@, pos as int) == spec_directives(text@),
            visible@ + stripped_from(text@, pos as int) == spec_stripped(text@),
        decreases text@.len() - pos,
    {
        let ghost pre_dirs = dirs@;
        let ghost pre_vis = visible@;
        let mut matched = false;
        if seq_at_exec(text, &open, pos) {
            if text.len() - pos >= 8 {
                if let Some(sep) = find_char_from_exec(text, ':', pos + 8) {
                    if let Some(cl) = find_seq_from_exec(text, &close, sep + 1) {
                        proof {
                            lemma_find_char_from(text@, ':', pos + 8);
                            lemma_find_seq_from(text@, close_mark(), sep + 1);
                            assert(directive_parts(text@, pos as int) == Some(
                                (sep as int, cl as int),
                            ));
                        }
                        let target_chars = trim_chars(&copy_range(text, pos + 7, sep));
                        let body_chars = trim_chars(&copy_range(text, sep + 1, cl));
                        let d = Directive {
                            start: pos,
                            end: cl + 2,
                            target_reference: chars_to_string(&target_chars),
                            body: chars_to_string(&body_chars),
                        };
                        dirs.push(d);
                        proof {
                            assert(dirs_view(dirs@) =~= dirs_view(pre_dirs).push(
                                dir_view(dirs@.last()),
                            ));
                            assert(directives_from(text@, pos as int) =~= seq![
                                dir_view(dirs@.last()),
                            ] + directives_from(text@, cl + 2));
                            assert(dirs_view(dirs@) + directives_from(text@, cl + 2)
                                =~= dirs_view(pre_dirs) + directives_from(text@, pos as int));
                            assert(stripped_from(text@, pos as int) == stripped_from(
                                text@,
                                cl + 2,
                            ));
                        }
                        pos = cl + 2;
                        matched = true;
                    }
                }
            }
            if !matched {
                proof {
                    if text@.len() - pos < 8 {
                        lemma_find_char_from(text@, ':', pos + 8);
                    }
                    assert(directive_parts(text@, pos as int) is None);
                }
            }
        } else {
            proof {
                assert(directive_parts(text@, pos as int) is None);
            }
        }
        if !matched {
            visible.push(text[pos]);
            proof {
                assert(stripped_from(text@, pos as int) == seq![text@[pos as int]]
                    + stripped_from(text@, pos + 1));
                assert(visible@ + stripped_from(text@, pos + 1) =~= pre_vis + stripped_from(
                    text@,
                    pos as int,
                ));
                assert(dirs_view(dirs@) + directives_from(text@, pos + 1) =~= dirs_view(pre_dirs)
                    + directives_from(text@, pos as int));
            }
            pos = pos + 1;
        }
    }
    proof {
        assert(directives_from(text@, pos as int) =~= Seq::<(int, int, Seq<char>, Seq<char>)>::empty());
        assert(dirs_view(dirs@) =~= dirs_view(dirs@) + directives_from(text@, pos as int));
        assert(visible@ =~= visible@ + stripped_from(text@, pos as int));
    }
    (dirs, visible)
}

/// Side effects run last-appearing first: the execution order is exactly the
/// reverse of the textual order in which the directives were found.
pub fn execution_order(dirs: Vec<Directive>) -> (r: Vec<Directive>)
    ensures
        dirs_view(r@) == dirs_view(dirs@).reverse(),
{
    let ghost full = dirs@;
    let mut src = dirs;
    let mut out: Vec<Directive> = Vec::new();
    while src.len() > 0
        invariant
            src@ == full.subrange(0, src@.len() as int),
            out@.len() + src@.len() == full.len(),
            forall|k: int|
                0 <= k < out@.len() ==> out@[k] == full[full.len() - 1 - k],
        decreases src@.len(),
    {
        let ghost pre = src@;
        let d = src.pop().unwrap();
        assert(d == full[pre.len() - 1]);
        out.push(d);
        assert(src@ =~= full.subrange(0, src@.len() as int));
    }
    proof {
        assert(out@ =~= full.reverse());
        assert(dirs_view(out@) =~= dirs_view(full).reverse());
    }
    out
}

/// `t` without its leading `#` characters.
pub open spec fn strip_leading_hashes(t: Seq<char>) -> Seq<char>
    decreases t.len(),
{
    if t.len() > 0 && t[0] == '#' {
        strip_leading_hashes(t.drop_first())
    } else {
        t
    }
}

/// The digit run of a target written as a raw id: either a channel mention
/// token `<#123>` or a bare number.
pub open spec fn parsed_target_digits(t: Seq<char>) -> Option<Seq<char>> {
    if t.len() >= 4 && t[0] == '<' && t[1] == '#' && t.last() == '>' && all_digits(
        t.subrange(2, t.len() - 1),
    ) {
        Some(t.subrange(2, t.len() - 1))
    } else if t.len() >= 1 && all_digits(t) {
        Some(t)
    } else {
        None
    }
}

/// The id of the first channel whose name equals `name`
/// ASCII-case-insensitively, in listing order.
pub open spec fn find_channel_ci(channels: Seq<ChannelEntry>, name: Seq<char>) -> Option<u64>
    decreases channels.len(),
{
    if channels.len() == 0 {
        None
    } else if lower_seq(channels[0].name@) == lower_seq(name) {
        Some(channels[0].channel_id)
    } else {
        find_channel_ci(channels.drop_first(), name)
    }
}

/// Where a directive target leads: an id written directly in the target is
/// used as it stands; anything else (including an id too large for an id
/// value) is treated as a channel display name, matched without regard to
/// ASCII case against the live channel listing.
pub open spec fn resolved_target(t: Seq<char>, channels: Seq<ChannelEntry>) -> Option<u64> {
    match parsed_target_digits(t) {
        Some(ds) => if dec_val(ds) <= u64::MAX as int {
            Some(dec_val(ds) as u64)
        } else {
            find_channel_ci(channels, strip_leading_hashes(t))
        },
        None => find_channel_ci(channels, strip_leading_hashes(t)),
    }
}

/// Resolves a directive's target reference against a channel listing.
pub fn resolve_target(target: &str, channels: &Vec<ChannelEntry>) -> (r: Option<u64>)
    ensures
        r == resolved_target(target@, channels@),
{
    let t = str_to_chars(target);
    let mut digit_run: Option<Vec<char>> = None;
    if t.len() >= 4 && t[0] == '<' && t[1] == '#' && t[t.len() - 1] == '>' {
        let mid = copy_range(&t, 2, t.len() - 1);
        if digits_only(&mid) {
            digit_run = Some(mid);
        }
    }
    if digit_run.is_none() {
        if t.len() >= 1 && digits_only(&t) {
            let whole = copy_range(&t, 0, t.len());
            assert(whole@ =~= t@);
            digit_run = Some(whole);
        }
    }
    proof {
        match &digit_run {
            Some(ds) => {
                assert(parsed_target_digits(target@) == Some(ds@));
            },
            None => {
                assert(parsed_target_digits(target@) is None);
            },
        }
    }
    if let Some(ds) = digit_run {
        if let Some(v) = parse_u64_digits(&ds) {
            return Some(v);
        }
    }
    // Name resolution: drop leading '#' markers, then match case-insensitively.
    let mut start: usize = 0;
    assert(t@.skip(0) =~= t@);
    while start < t.len() && t[start] == '#'
        invariant
            start <= t@.len(),
            strip_leading_hashes(t@.skip(start as int)) == strip_leading_hashes(t@),
        decreases t@.len() - start,
    {
        proof {
            assert(t@.skip(start as int).drop_first() =~= t@.skip(start + 1));
        }
        start = start + 1;
    }
    let cleaned = copy_range(&t, start, t.len());
    proof {
        assert(cleaned@ =~= t@.skip(start as int));
        if start < t.len() {
            assert(strip_leading_hashes(t@.skip(start as int)) == t@.skip(start as int));
        } else {
            assert(t@.skip(start as int) =~= Seq::<char>::empty());
        }
        assert(cleaned@ == strip_leading_hashes(t@));
    }
    let mut i: usize = 0;
    assert(channels@.skip(0) =~= channels@);
    while i < channels.len()
        invariant
            i <= channels@.len(),
            find_channel_ci(channels@, cleaned@) == find_channel_ci(
                channels@.skip(i as int),
                cleaned@,
            ),
        decreases channels@.len() - i,
    {
        proof {
            assert(channels@.skip(i as int)[0] == channels@[i as int]);
            assert(channels@.skip(i as int).drop_first() =~= channels@.skip(i + 1));
        }
        if ci_equal(&str_to_chars(channels[i].name.as_str()), &cleaned) {
            return Some(channels[i].channel_id);
        }
        i = i + 1;
    }
    proof {
        assert(channels@.skip(channels@.len() as int) =~= Seq::<ChannelEntry>::empty());
    }
    None
}

/// The recorded result of attempting one directive.
pub enum SendOutcome {
    /// The send went through; `reference` is the target as the completion
    /// wrote it.
    Sent { reference: String },
    /// The target resolved but the delivery failed.
    SendFailed { reference: String, error: String },
    /// The target matched no channel.
    Unresolved { reference: String },
}

/// The one-line account of an outcome, as it appears in reports.
pub open spec fn outcome_line(o: SendOutcome) -> Seq<char> {
    match o {
        SendOutcome::Sent { reference } => "Message sent to "@ + reference@,
        SendOutcome::SendFailed { reference, error } => "Failed to send to "@ + reference@ + ": "@
            + error@,
        SendOutcome::Unresolved { reference } => "Could not find channel '"@ + reference@ + "'"@,
    }
}

pub open spec fn outcome_lines(os: Seq<SendOutcome>) -> Seq<Seq<char>> {
    os.map_values(|o: SendOutcome| outcome_line(o))
}

pub open spec fn has_failure(os: Seq<SendOutcome>) -> bool {
    exists|i: int| 0 <= i < os.len() && !(os[i] is Sent)
}

/// `items` joined with `sep` between consecutive items.
pub open spec fn joined(items: Seq<Seq<char>>, sep: Seq<char>) -> Seq<char>
    decreases items.len(),
{
    if items.len() == 0 {
        Seq::empty()
    } else if items.len() == 1 {
        items[0]
    } else {
        joined(items.drop_last(), sep) + sep + items.last()
    }
}

pub fn outcome_line_string(o: &SendOutcome) -> (r: String)
    ensures
        r@ == outcome_line(*o),
{
    match o {
        SendOutcome::Sent { reference } => String::from_str("Message sent to ").concat(
            reference.as_str(),
        ),
        SendOutcome::SendFailed { reference, error } => String::from_str("Failed to send to ")
            .concat(reference.as_str()).concat(": ").concat(error.as_str()),
        SendOutcome::Unresolved { reference } => String::from_str("Could not find channel '")
            .concat(reference.as_str()).concat("'"),
    }
}

/// Whether any directive failed, by resolution or by delivery.
pub fn any_failure(os: &Vec<SendOutcome>) -> (r: bool)
    ensures
        r == has_failure(os@),
{
    let mut i: usize = 0;
    while i < os.len()
        invariant
            i <= os@.len(),
            forall|k: int| 0 <= k < i ==> os@[k] is Sent,
        decreases os@.len() - i,
    {
        match &os[i] {
            SendOutcome::Sent { .. } => {},
            _ => {
                return true;
            },
        }
        i = i + 1;
    }
    false
}

fn join_outcome_lines(os: &Vec<SendOutcome>, sep: &str) -> (r: String)
    ensures
        r@ == joined(outcome_lines(os@), sep@),
{
    let mut r = String::new();
    let mut i: usize = 0;
    while i < os.len()
        invariant
            i <= os@.len(),
            r@ == joined(outcome_lines(os@.subrange(0, i as int)), sep@),
        decreases os@.len() - i,
    {
        let ghost pre = r@;
        if i > 0 {
            r.append(sep);
        }
        let line = outcome_line_string(&os[i]);
        r.append(line.as_str());
        proof {
            let lines1 = outcome_lines(os@.subrange(0, i + 1));
            assert(lines1.drop_last() =~= outcome_lines(os@.subrange(0, i as int)));
            assert(lines1.last() == outcome_line(os@[i as int]));
            if i == 0 {
                assert(r@ =~= joined(lines1, sep@));
            } else {
                assert(r@ =~= joined(lines1.drop_last(), sep@) + sep@ + lines1.last());
            }
        }
        i = i + 1;
    }
    assert(os@.subrange(0, os@.len() as int) =~= os@);
    r
}

/// The terse confirmation sent when every attempted directive succeeded.
pub fn send_confirmation_reply() -> (r: String)
    ensures
        r@ == "Message sent."@,
{
    String::from_str("Message sent.")
}

/// The consolidated multi-line report sent when any directive failed: one
/// line per attempted directive, in execution order.
pub fn consolidated_report(os: &Vec<SendOutcome>) -> (r: String)
    ensures
        r@ == "System Report:\n"@ + joined(outcome_lines(os@), "\n"@),
{
    String::from_str("System Report:\n").concat(join_outcome_lines(os, "\n").as_str())
}

/// What is persisted as the assistant's turn: the visible reply, and, when
/// any directive was attempted, a serialized summary of every outcome.
pub fn saved_turn_content(visible: &str, os: &Vec<SendOutcome>) -> (r: String)
    ensures
        os@.len() == 0 ==> r@ == visible@,
        os@.len() > 0 ==> r@ == visible@ + "\n[System Report: "@ + joined(
            outcome_lines(os@),
            ", "@,
        ) + "]"@,
{
    if os.len() == 0 {
        let r = String::from_str(visible);
        return r;
    }
    String::from_str(visible).concat("\n[System Report: ").concat(
        join_outcome_lines(os, ", ").as_str(),
    ).concat("]")
}

/// No text without the opening delimiter contains a directive.
pub proof fn lemma_no_open_no_directives(text: Seq<char>, pos: int)
    requires
        0 <= pos <= text.len(),
        !contains_seq(text, open_mark()),
    ensures
        directives_from(text, pos) == Seq::<(int, int, Seq<char>, Seq<char>)>::empty(),
        stripped_from(text, pos) == text.skip(pos),
    decreases text.len() - pos,
{
    if pos >= text.len() {
        assert(text.skip(pos) =~= Seq::<char>::empty());
    } else {
        assert(!seq_at(text, open_mark(), pos));
        assert(directive_parts(text, pos) is None);
        lemma_no_open_no_directives(text, pos + 1);
        assert(text.skip(pos) =~= seq![text[pos]] + text.skip(pos + 1));
    }
}

/// Directive stripping is idempotent whenever removing the matched spans
/// leaves no opening delimiter behind: extraction on such post-strip text
/// finds nothing and strips nothing. (Fragments of delimiters on both sides
/// of a removed span can recombine into a fresh delimiter, so the claim is
/// conditioned on the stripped text.)
pub proof fn lemma_strip_idempotent(text: Seq<char>)
    requires
        !contains_seq(spec_stripped(text), open_mark()),
    ensures
        spec_directives(spec_stripped(text)) == Seq::<(int, int, Seq<char>, Seq<char>)>::empty(),
        spec_stripped(spec_stripped(text)) == spec_stripped(text),
{
    lemma_no_open_no_directives(spec_stripped(text), 0);
    assert(spec_stripped(text).skip(0) =~= spec_stripped(text));
}

} // verus!
