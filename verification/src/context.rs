//! The context assembler: the structured entity-context block that precedes
//! the persona prompt's conversation, extraction of channel references from
//! a raw message, and the model-ready turn sequence, including the
//! multimodal rewrite of the newest turn when images are attached.
use vstd::prelude::*;

use crate::player::{digits_end, digits_end_exec, lemma_digits_end};
use crate::store::{ChatMessage, Role};
use crate::text::{
    copy_range, dec_str, dec_val, ends_with, ends_with_exec, is_digit_char, parse_u64_digits,
    replace_char, replaced_char, str_to_chars, u64_to_string,
};
use crate::trusted::{b64_encode, b64_encode_of};

verus! {

/// An entity named in a message, with its resolved display name.
pub struct NamedRef {
    pub id: u64,
    pub name: String,
}

/// The message an event replies to, reduced to plain values.
pub struct ReferencedMessage {
    pub author_name: String,
    pub content: String,
}

/// A channel-mention token `<#123>` written at position `i`: the span of its
/// digit run.
pub open spec fn chan_mention_at(text: Seq<char>, i: int) -> Option<(int, int)> {
    if 0 <= i && i + 2 <= text.len() && text[i] == '<' && text[i + 1] == '#' {
        let d0 = i + 2;
        let d1 = digits_end(text, d0);
        if d1 > d0 && d1 < text.len() && text[d1] == '>' {
            Some((d0, d1))
        } else {
            None
        }
    } else {
        None
    }
}

/// The values of every channel-mention token at or after `pos`, in textual
/// order, duplicates included.
pub open spec fn mentions_from(text: Seq<char>, pos: int) -> Seq<int>
    decreases text.len() - pos,
    when 0 <= pos
{
    if pos >= text.len() {
        Seq::empty()
    } else {
        match chan_mention_at(text, pos) {
            Some((d0, d1)) => seq![dec_val(text.subrange(d0, d1))] + mentions_from(text, d1 + 1),
            None => mentions_from(text, pos + 1),
        }
    }
}

/// First occurrences only, and only values that fit a channel id.
pub open spec fn dedup_ids(vals: Seq<int>) -> Seq<u64>
    decreases vals.len(),
{
    if vals.len() == 0 {
        Seq::empty()
    } else {
        let d = dedup_ids(vals.drop_last());
        let v = vals.last();
        if v > u64::MAX as int || d.contains(v as u64) {
            d
        } else {
            d.push(v as u64)
        }
    }
}

/// The distinct channel ids a message's `<#...>` tokens mention, in order of
/// first appearance.
pub open spec fn spec_channel_mentions(text: Seq<char>) -> Seq<u64> {
    dedup_ids(mentions_from(text, 0))
}

fn vec_contains_u64(v: &Vec<u64>, x: u64) -> (r: bool)
    ensures
        r == v@.contains(x),
{
    let mut i: usize = 0;
    while i < v.len()
        invariant
            i <= v@.len(),
            forall|k: int| 0 <= k < i ==> v@[k] != x,
        decreases v@.len() - i,
    {
        if v[i] == x {
            return true;
        }
        i = i + 1;
    }
    false
}

/// Collects the distinct channel ids mentioned as `<#...>` tokens.
pub fn extract_channel_mentions(content: &Vec<char>) -> (r: Vec<u64>)
    ensures
        r@ == spec_channel_mentions(content@),
{
    let mut out: Vec<u64> = Vec::new();
    let ghost mut vals: Seq<int> = Seq::empty();
    let mut pos: usize = 0;
    proof {
        assert(vals + mentions_from(content@, 0) =~= mentions_from(content@, 0));
        assert(out@ =~= dedup_ids(vals));
    }
    while pos < content.len()
        invariant
            pos <= content@.len(),
            mentions_from(content@, 0) == vals + mentions_from(content@, pos as int),
            out@ == dedup_ids(vals),
        decreases content@.len() - pos,
    {
        let ghost pre_vals = vals;
        let mut stepped = false;
        if content[pos] == '<' && pos + 1 < content.len() && content[pos + 1] == '#' {
            let d0 = pos + 2;
            let d1 = digits_end_exec(content, d0);
            if d1 > d0 && d1 < content.len() && content[d1] == '>' {
                proof {
                    lemma_digits_end(content@, d0 as int);
                    assert(chan_mention_at(content@, pos as int) == Some((d0 as int, d1 as int)));
                }
                let digits = copy_range(content, d0, d1);
                proof {
                    assert forall|k: int| 0 <= k < digits@.len() implies is_digit_char(
                        digits@[k],
                    ) by {
                        assert(digits@[k] == content@[d0 + k]);
                    }
                    vals = pre_vals.push(dec_val(content@.subrange(d0 as int, d1 as int)));
                    assert(seq![dec_val(content@.subrange(d0 as int, d1 as int))]
                        + mentions_from(content@, d1 + 1) =~= mentions_from(
                        content@,
                        pos as int,
                    ));
                    assert(vals + mentions_from(content@, d1 + 1) =~= pre_vals + mentions_from(
                        content@,
                        pos as int,
                    ));
                    assert(vals.drop_last() =~= pre_vals);
                }
                match parse_u64_digits(&digits) {
                    Some(v) => {
                        if !vec_contains_u64(&out, v) {
                            out.push(v);
                        }
                    },
                    None => {},
                }
                assert(out@ =~= dedup_ids(vals));
                pos = d1 + 1;
                stepped = true;
            } else {
                proof {
                    assert(chan_mention_at(content@, pos as int) is None);
                }
            }
        } else {
            proof {
                assert(chan_mention_at(content@, pos as int) is None);
            }
        }
        if !stepped {
            proof {
                assert(mentions_from(content@, pos as int) == mentions_from(content@, pos + 1));
            }
            pos = pos + 1;
        }
    }
    proof {
        assert(mentions_from(content@, pos as int) =~= Seq::<int>::empty());
        assert(vals + mentions_from(content@, pos as int) =~= vals);
    }
    out
}

/// A self-contained data URL embedding one downloaded image.
pub fn image_data_url(bytes: &Vec<u8>, is_png: bool) -> (r: String)
    requires
        bytes@.len() <= usize::MAX / 4,
    ensures
        r@ == "data:"@ + (if is_png {
            "image/png"@
        } else {
            "image/jpeg"@
        }) + ";base64,"@ + b64_encode_of(bytes@),
{
    let mime = if is_png {
        "image/png"
    } else {
        "image/jpeg"
    };
    String::from_str("data:").concat(mime).concat(";base64,").concat(b64_encode(bytes).as_str())
}

/// Whether an image URL names a PNG; anything else is treated as JPEG.
pub fn url_is_png(url: &Vec<char>) -> (r: bool)
    ensures
        r == ends_with(url@, ".png"@),
{
    let suf = str_to_chars(".png");
    ends_with_exec(url, &suf)
}

pub open spec fn author_block(name: Seq<char>, id: u64) -> Seq<char> {
    "\n[SYSTEM: CURRENT AUTHOR]\nThe user speaking to you now is: "@ + name + " (ID: "@ + dec_str(
        id as nat,
    ) + ")\nAddress them by their name: "@ + name + "\n\n"@
}

pub open spec fn user_lines(items: Seq<NamedRef>) -> Seq<char>
    decreases items.len(),
{
    if items.len() == 0 {
        Seq::empty()
    } else {
        user_lines(items.drop_last()) + "- @"@ + items.last().name@ + ": <@"@ + dec_str(
            items.last().id as nat,
        ) + ">\n"@
    }
}

pub open spec fn role_lines(items: Seq<NamedRef>) -> Seq<char>
    decreases items.len(),
{
    if items.len() == 0 {
        Seq::empty()
    } else {
        role_lines(items.drop_last()) + "- @"@ + items.last().name@ + ": <@&"@ + dec_str(
            items.last().id as nat,
        ) + ">\n"@
    }
}

pub open spec fn channel_lines(items: Seq<NamedRef>) -> Seq<char>
    decreases items.len(),
{
    if items.len() == 0 {
        Seq::empty()
    } else {
        channel_lines(items.drop_last()) + "- #"@ + items.last().name@ + ": <#"@ + dec_str(
            items.last().id as nat,
        ) + ">\n"@
    }
}

pub open spec fn reply_block(author_name: Seq<char>, content: Seq<char>) -> Seq<char> {
    "\n[SYSTEM: USER REPLYING TO]\nUser is replying to message by @"@ + author_name + ":\n\""@
        + replaced_char(content, '\n', ' ') + "\"\n"@
}

pub open spec fn commands_block() -> Seq<char> {
    "\n[SYSTEM: COMMANDS]\nTo send a message to a specific channel, output:\n[[SEND:<#ChannelID>:Your Message Content]]\nExample: [[SEND:<#12345>:Hello World]]\n"@
}

pub open spec fn nicknames_block() -> Seq<char> {
    "\n[SYSTEM: FRIENDLY NICKNAMES]\nWhen addressing users, use their friendly nicknames for a casual tone:\n- Names containing 'chyaaa' or 'cyaaa' -> call them 'Cyaaa'\n- Names containing 'kunnn' or 'kun' -> call them 'Kun'\n- Names containing 'baemon' or 'mon' -> call them 'Mon'\n- Names containing 'pecel' or 'lele' or 'cel' -> call them 'Cel'\n- Names containing 'cylaa' or 'cyl' -> call them 'Cyl'\n- Names containing 'dostzy' -> call them 'Dos'\n- For other names, use a shortened friendly version (first part or nickname).\n"@
}

pub open spec fn image_note() -> Seq<char> {
    "\n[SYSTEM: IMAGE ATTACHED]\nUser has attached images to this message. Use your vision capabilities to analyze them.\n"@
}

/// The whole entity-context block, in its fixed order: header, current
/// author, mentioned users, roles and channels, the replied-to excerpt, the
/// directive syntax, the nickname rules, and the image note when images ride
/// along.
pub open spec fn spec_entity_context(
    author: NamedRef,
    users: Seq<NamedRef>,
    roles: Seq<NamedRef>,
    channels: Seq<NamedRef>,
    referenced: Option<ReferencedMessage>,
    has_images: bool,
) -> Seq<char> {
    "\n[SYSTEM: ENTITY CONTEXT]\n"@ + author_block(author.name@, author.id) + (if users.len() > 0 {
        "Users:\n"@ + user_lines(users)
    } else {
        Seq::empty()
    }) + (if roles.len() > 0 {
        "Roles:\n"@ + role_lines(roles)
    } else {
        Seq::empty()
    }) + (if channels.len() > 0 {
        "Channels:\n"@ + channel_lines(channels)
    } else {
        Seq::empty()
    }) + (match referenced {
        Some(m) => reply_block(m.author_name@, m.content@),
        None => Seq::empty(),
    }) + commands_block() + nicknames_block() + (if has_images {
        image_note()
    } else {
        Seq::empty()
    })
}

fn push_user_lines(acc: String, items: &Vec<NamedRef>) -> (r: String)
    ensures
        r@ == acc@ + user_lines(items@),
{
    let mut r = acc;
    let ghost base = r@;
    let mut i: usize = 0;
    while i < items.len()
        invariant
            i <= items@.len(),
            r@ == base + user_lines(items@.subrange(0, i as int)),
        decreases items@.len() - i,
    {
        r.append("- @");
        r.append(items[i].name.as_str());
        r.append(": <@");
        r.append(u64_to_string(items[i].id).as_str());
        r.append(">\n");
        proof {
            let sub1 = items@.subrange(0, i + 1);
            assert(sub1.drop_last() =~= items@.subrange(0, i as int));
            assert(sub1.last() == items@[i as int]);
        }
        i = i + 1;
    }
    assert(items@.subrange(0, items@.len() as int) =~= items@);
    r
}

fn push_role_lines(acc: String, items: &Vec<NamedRef>) -> (r: String)
    ensures
        r@ == acc@ + role_lines(items@),
{
    let mut r = acc;
    let ghost base = r@;
    let mut i: usize = 0;
    while i < items.len()
        invariant
            i <= items@.len(),
            r@ == base + role_lines(items@.subrange(0, i as int)),
        decreases items@.len() - i,
    {
        r.append("- @");
        r.append(items[i].name.as_str());
        r.append(": <@&");
        r.append(u64_to_string(items[i].id).as_str());
        r.append(">\n");
        proof {
            let sub1 = items@.subrange(0, i + 1);
            assert(sub1.drop_last() =~= items@.subrange(0, i as int));
            assert(sub1.last() == items@[i as int]);
        }
        i = i + 1;
    }
    assert(items@.subrange(0, items@.len() as int) =~= items@);
    r
}

fn push_channel_lines(acc: String, items: &Vec<NamedRef>) -> (r: String)
    ensures
        r@ == acc@ + channel_lines(items@),
{
    let mut r = acc;
    let ghost base = r@;
    let mut i: usize = 0;
    while i < items.len()
        invariant
            i <= items@.len(),
            r@ == base + channel_lines(items@.subrange(0, i as int)),
        decreases items@.len() - i,
    {
        r.append("- #");
        r.append(items[i].name.as_str());
        r.append(": <#");
        r.append(u64_to_string(items[i].id).as_str());
        r.append(">\n");
        proof {
            let sub1 = items@.subrange(0, i + 1);
            assert(sub1.drop_last() =~= items@.subrange(0, i as int));
            assert(sub1.last() == items@[i as int]);
        }
        i = i + 1;
    }
    assert(items@.subrange(0, items@.len() as int) =~= items@);
    r
}

/// Builds the entity-context block from resolved plain values.
fn author_part(author: &NamedRef) -> (r: String)
    ensures
        r@ == author_block(author.name@, author.id),
{
    let mut r = String::from_str(
        "\n[SYSTEM: CURRENT AUTHOR]\nThe user speaking to you now is: ",
    );
    r.append(author.name.as_str());
    r.append(" (ID: ");
    r.append(u64_to_string(author.id).as_str());
    r.append(")\nAddress them by their name: ");
    r.append(author.name.as_str());
    r.append("\n\n");
    r
}

fn users_part(users: &Vec<NamedRef>) -> (r: String)
    ensures
        r@ == (if users@.len() > 0 {
            "Users:\n"@ + user_lines(users@)
        } else {
            Seq::<char>::empty()
        }),
{
    if users.len() == 0 {
        let r = String::new();
        return r;
    }
    push_user_lines(String::from_str("Users:\n"), users)
}

fn roles_part(roles: &Vec<NamedRef>) -> (r: String)
    ensures
        r@ == (if roles@.len() > 0 {
            "Roles:\n"@ + role_lines(roles@)
        } else {
            Seq::<char>::empty()
        }),
{
    if roles.len() == 0 {
        let r = String::new();
        return r;
    }
    push_role_lines(String::from_str("Roles:\n"), roles)
}

fn channels_part(channels: &Vec<NamedRef>) -> (r: String)
    ensures
        r@ == (if channels@.len() > 0 {
            "Channels:\n"@ + channel_lines(channels@)
        } else {
            Seq::<char>::empty()
        }),
{
    if channels.len() == 0 {
        let r = String::new();
        return r;
    }
    push_channel_lines(String::from_str("Channels:\n"), channels)
}

fn reply_part(referenced: &Option<ReferencedMessage>) -> (r: String)
    ensures
        r@ == (match *referenced {
            Some(m) => reply_block(m.author_name@, m.content@),
            None => Seq::<char>::empty(),
        }),
{
    match referenced {
        Some(m) => {
            let mut r = String::from_str(
                "\n[SYSTEM: USER REPLYING TO]\nUser is replying to message by @",
            );
            r.append(m.author_name.as_str());
            r.append(":\n\"");
            let flat = replace_char(&str_to_chars(m.content.as_str()), '\n', ' ');
            r.append(crate::text::chars_to_string(&flat).as_str());
            r.append("\"\n");
            r
        },
        None => String::new(),
    }
}

/// Builds the entity-context block from resolved plain values.
pub fn build_entity_context(
    author: &NamedRef,
    users: &Vec<NamedRef>,
    roles: &Vec<NamedRef>,
    channels: &Vec<NamedRef>,
    referenced: &Option<ReferencedMessage>,
    has_images: bool,
) -> (r: String)
    ensures
        r@ == spec_entity_context(*author, users@, roles@, channels@, *referenced, has_images),
{
    let mut r = String::from_str("\n[SYSTEM: ENTITY CONTEXT]\n");
    r.append(author_part(author).as_str());
    r.append(users_part(users).as_str());
    r.append(roles_part(roles).as_str());
    r.append(channels_part(channels).as_str());
    r.append(reply_part(referenced).as_str());
    r.append(
        "\n[SYSTEM: COMMANDS]\nTo send a message to a specific channel, output:\n[[SEND:<#ChannelID>:Your Message Content]]\nExample: [[SEND:<#12345>:Hello World]]\n",
    );
    r.append(
        "\n[SYSTEM: FRIENDLY NICKNAMES]\nWhen addressing users, use their friendly nicknames for a casual tone:\n- Names containing 'chyaaa' or 'cyaaa' -> call them 'Cyaaa'\n- Names containing 'kunnn' or 'kun' -> call them 'Kun'\n- Names containing 'baemon' or 'mon' -> call them 'Mon'\n- Names containing 'pecel' or 'lele' or 'cel' -> call them 'Cel'\n- Names containing 'cylaa' or 'cyl' -> call them 'Cyl'\n- Names containing 'dostzy' -> call them 'Dos'\n- For other names, use a shortened friendly version (first part or nickname).\n",
    );
    if has_images {
        r.append(
            "\n[SYSTEM: IMAGE ATTACHED]\nUser has attached images to this message. Use your vision capabilities to analyze them.\n",
        );
    }
    r
}

/// Who speaks in a model-facing turn.
#[derive(Clone, Copy, PartialEq, Eq, Structural, Debug)]
pub enum TurnRole {
    System,
    User,
    Assistant,
}

/// One part of a multimodal turn.
pub enum TurnPart {
    /// Plain text.
    Text(String),
    /// One image, as a self-contained data URL.
    ImageUrl(String),
}

/// A turn's payload: plain text, or an ordered list of parts.
pub enum TurnContent {
    Plain(String),
    Parts(Vec<TurnPart>),
}

/// One model-facing turn.
pub struct Turn {
    pub role: TurnRole,
    pub content: TurnContent,
}

pub open spec fn row_role(r: Role) -> TurnRole {
    match r {
        Role::User => TurnRole::User,
        Role::Assistant => TurnRole::Assistant,
    }
}

/// Lays out the request: one system turn carrying the persona prompt and
/// context, then the history rows in order, each as plain text.
pub fn assemble_turns(system_text: String, history: &Vec<ChatMessage>) -> (r: Vec<Turn>)
    ensures
        r@.len() == history@.len() + 1,
        r@[0].role is System,
        r@[0].content is Plain && (r@[0].content->Plain_0)@ == system_text@,
        forall|k: int|
            0 <= k < history@.len() ==> (#[trigger] r@[k + 1]).role == row_role(history@[k].role)
                && r@[k + 1].content is Plain && (r@[k + 1].content->Plain_0)@
                == history@[k].content@,
{
    let ghost sys = system_text@;
    let mut r: Vec<Turn> = Vec::new();
    r.push(Turn { role: TurnRole::System, content: TurnContent::Plain(system_text) });
    let mut i: usize = 0;
    while i < history.len()
        invariant
            i <= history@.len(),
            r@.len() == i + 1,
            r@[0].role is System,
            r@[0].content is Plain,
            (r@[0].content->Plain_0)@ == sys,
            forall|k: int|
                0 <= k < i ==> (#[trigger] r@[k + 1]).role == row_role(history@[k].role) && r@[k
                    + 1].content is Plain && (r@[k + 1].content->Plain_0)@
                    == history@[k].content@,
        decreases history@.len() - i,
    {
        let row = &history[i];
        let role = match row.role {
            Role::User => TurnRole::User,
            Role::Assistant => TurnRole::Assistant,
        };
        r.push(Turn { role, content: TurnContent::Plain(row.content.clone()) });
        i = i + 1;
    }
    r
}

/// Rewrites the newest turn, for the outgoing request only, into an ordered
/// parts list: its stored text first, then one image part per attached data
/// URL. Turns other than a final plain user turn are left alone.
pub fn rewrite_last_with_images(turns: Vec<Turn>, image_urls: Vec<String>) -> (r: Vec<Turn>)
    ensures
        r@.len() == turns@.len(),
        forall|k: int| 0 <= k < turns@.len() - 1 ==> r@[k] == turns@[k],
        turns@.len() > 0 && turns@.last().role is User && turns@.last().content is Plain
            && image_urls@.len() > 0 ==> ({
            let last = r@.last();
            &&& last.role is User
            &&& last.content is Parts
            &&& last.content->Parts_0@.len() == 1 + image_urls@.len()
            &&& last.content->Parts_0@[0] is Text
            &&& (last.content->Parts_0@[0]->Text_0)@ == (turns@.last().content->Plain_0)@
            &&& forall|k: int|
                0 <= k < image_urls@.len() ==> (#[trigger] last.content->Parts_0@[k + 1]) is ImageUrl
                    && (last.content->Parts_0@[k + 1]->ImageUrl_0)@ == image_urls@[k]@
        }),
        !(turns@.len() > 0 && turns@.last().role is User && turns@.last().content is Plain
            && image_urls@.len() > 0) ==> r@ == turns@,
{
    let mut turns = turns;
    if turns.len() == 0 || image_urls.len() == 0 {
        return turns;
    }
    let do_rewrite = {
        let last = &turns[turns.len() - 1];
        match (&last.role, &last.content) {
            (TurnRole::User, TurnContent::Plain(_)) => true,
            _ => false,
        }
    };
    if !do_rewrite {
        return turns;
    }
    let ghost pre = turns@;
    let last = turns.pop().unwrap();
    let text = match last.content {
        TurnContent::Plain(s) => s,
        TurnContent::Parts(_) => {
            proof {
                assert(false);
            }
            String::new()
        },
    };
    let mut parts: Vec<TurnPart> = Vec::new();
    parts.push(TurnPart::Text(text));
    let mut i: usize = 0;
    while i < image_urls.len()
        invariant
            i <= image_urls@.len(),
            parts@.len() == i + 1,
            parts@[0] is Text,
            (parts@[0]->Text_0)@ == (pre.last().content->Plain_0)@,
            forall|k: int|
                0 <= k < i ==> (#[trigger] parts@[k + 1]) is ImageUrl && (parts@[k
                    + 1]->ImageUrl_0)@ == image_urls@[k]@,
        decreases image_urls@.len() - i,
    {
        parts.push(TurnPart::ImageUrl(image_urls[i].clone()));
        i = i + 1;
    }
    turns.push(Turn { role: TurnRole::User, content: TurnContent::Parts(parts) });
    proof {
        assert(turns@.len() == pre.len());
        assert(forall|k: int| 0 <= k < pre.len() - 1 ==> turns@[k] == pre[k]);
    }
    turns
}

} // verus!
