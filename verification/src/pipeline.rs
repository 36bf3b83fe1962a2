//! The per-event pipeline pieces that decide and compute: whether an event
//! is processed at all, how the incoming message is attributed and enriched
//! with attachments, and how one completion becomes an ordered plan of
//! sends plus the visible reply text.
use vstd::prelude::*;

use crate::directive::{
    execution_order, extract_directives, resolved_target, spec_directives, spec_stripped,
};
use crate::mention::{applied, apply_replacements, reps_view, ChannelEntry, Replacement};
use crate::policy::ChannelConfig;
use crate::text::{
    contains_char, contains_seq_ci, ends_with, ends_with_exec, find_char, find_seq_ci,
    starts_with, starts_with_exec, str_to_chars, trim_chars, trimmed,
};

verus! {

/// An event is processed when the channel listens, the bot is explicitly
/// mentioned, or the secondary trigger is on and its fixed keyword appears
/// in the text (without regard to ASCII case).
pub fn should_process(config: &ChannelConfig, mentions_me: bool, content: &Vec<char>) -> (r:
    bool)
    ensures
        r == (config.is_listening || mentions_me || (config.listen_udin && contains_seq_ci(
            content@,
            "din"@,
        ))),
{
    if config.is_listening {
        return true;
    }
    if mentions_me {
        return true;
    }
    if config.listen_udin {
        let pat = str_to_chars("din");
        return find_seq_ci(content, &pat);
    }
    false
}

/// The name a speaker goes by: the guild nickname when one is set, else the
/// global display name, else the account name.
pub fn display_name(username: &String, global_name: &Option<String>, nick: &Option<String>) -> (r:
    String)
    ensures
        nick is Some ==> r@ == nick->Some_0@,
        nick is None && global_name is Some ==> r@ == global_name->Some_0@,
        nick is None && global_name is None ==> r@ == username@,
{
    match nick {
        Some(n) => n.clone(),
        None => match global_name {
            Some(g) => g.clone(),
            None => username.clone(),
        },
    }
}

/// The persisted form of an incoming message, attributed to its author.
pub fn attribute_content(author_display_name: &str, content: &str) -> (r: String)
    ensures
        r@ == "["@ + author_display_name@ + "]: "@ + content@,
{
    String::from_str("[").concat(author_display_name).concat("]: ").concat(content)
}

/// What the pipeline does with one attachment.
#[derive(Clone, Copy, PartialEq, Eq, Structural, Debug)]
pub enum AttachmentClass {
    /// Download the file and append it to the message as a fenced block.
    TextFile,
    /// Collect the URL for the multimodal rewrite.
    Image,
    /// Leave it alone.
    Skipped,
}

/// The size cap for downloaded text attachments.
pub const TEXT_ATTACHMENT_CAP: u64 = 204800;

/// The size cap for collected image attachments.
pub const IMAGE_ATTACHMENT_CAP: u64 = 5242880;

pub open spec fn text_extension(filename: Seq<char>) -> bool {
    ||| ends_with(filename, ".rs"@)
    ||| ends_with(filename, ".js"@)
    ||| ends_with(filename, ".ts"@)
    ||| ends_with(filename, ".json"@)
    ||| ends_with(filename, ".md"@)
    ||| ends_with(filename, ".txt"@)
}

/// How one attachment is classified: with a text content type or an allowed
/// extension it is a text file if under its cap; with an image content type
/// it is an image if under its cap; anything else, or anything without a
/// content type, is skipped.
pub open spec fn spec_classify(
    content_type: Option<Seq<char>>,
    filename: Seq<char>,
    size: u64,
) -> AttachmentClass {
    match content_type {
        Some(ct) => if starts_with(ct, "text/"@) || text_extension(filename) {
            if size < TEXT_ATTACHMENT_CAP {
                AttachmentClass::TextFile
            } else {
                AttachmentClass::Skipped
            }
        } else if starts_with(ct, "image/"@) {
            if size < IMAGE_ATTACHMENT_CAP {
                AttachmentClass::Image
            } else {
                AttachmentClass::Skipped
            }
        } else {
            AttachmentClass::Skipped
        },
        None => AttachmentClass::Skipped,
    }
}

pub fn classify_attachment(content_type: &Option<String>, filename: &str, size: u64) -> (r:
    AttachmentClass)
    ensures
        r == spec_classify(
            match *content_type {
                Some(ct) => Some(ct@),
                None => None,
            },
            filename@,
            size,
        ),
{
    let fname = str_to_chars(filename);
    match content_type {
        Some(ct) => {
            let ctc = str_to_chars(ct.as_str());
            let is_text_type = starts_with_exec(&ctc, &str_to_chars("text/"));
            let is_text_ext = ends_with_exec(&fname, &str_to_chars(".rs")) || ends_with_exec(
                &fname,
                &str_to_chars(".js"),
            ) || ends_with_exec(&fname, &str_to_chars(".ts")) || ends_with_exec(
                &fname,
                &str_to_chars(".json"),
            ) || ends_with_exec(&fname, &str_to_chars(".md")) || ends_with_exec(
                &fname,
                &str_to_chars(".txt"),
            );
            if is_text_type || is_text_ext {
                if size < TEXT_ATTACHMENT_CAP {
                    AttachmentClass::TextFile
                } else {
                    AttachmentClass::Skipped
                }
            } else if starts_with_exec(&ctc, &str_to_chars("image/")) {
                if size < IMAGE_ATTACHMENT_CAP {
                    AttachmentClass::Image
                } else {
                    AttachmentClass::Skipped
                }
            } else {
                AttachmentClass::Skipped
            }
        },
        None => AttachmentClass::Skipped,
    }
}

/// Appends a downloaded text attachment to the message as a fenced block.
pub fn append_attachment_block(content: String, filename: &str, file_text: &str) -> (r: String)
    ensures
        r@ == content@ + "\n\n[Attached File '"@ + filename@ + "']:\n```\n"@ + file_text@
            + "\n```"@,
{
    content.concat("\n\n[Attached File '").concat(filename).concat("']:\n```\n").concat(
        file_text,
    ).concat("\n```")
}

/// The generic apology for a completion or transport failure.
pub fn generic_failure_reply() -> (r: String)
    ensures
        r@ == "Something went wrong with the bot. Please try again later."@,
{
    String::from_str("Something went wrong with the bot. Please try again later.")
}

/// The reply when no completion service is running at all.
pub fn service_unavailable_reply() -> (r: String)
    ensures
        r@ == "The AI service is currently unavailable. Please try again later."@,
{
    String::from_str("The AI service is currently unavailable. Please try again later.")
}

/// One directive, resolved and ready to deliver.
pub struct PlannedSend {
    /// The target exactly as the completion wrote it (trimmed).
    pub target_reference: String,
    /// The channel it resolved to, when it did.
    pub channel_id: Option<u64>,
    /// The body, with mention patterns substituted when it names anyone.
    pub body: String,
}

/// A directive body is substituted only when it contains a user or role
/// marker.
pub open spec fn resolved_body(body: Seq<char>, reps: Seq<(Seq<char>, Seq<char>)>) -> Seq<char> {
    if contains_char(body, '@') {
        applied(body, reps)
    } else {
        body
    }
}

/// The visible text is substituted only through a guild's cache, and only
/// when it contains a marker at all; with no cache it goes out as it is.
pub open spec fn resolved_visible(v: Seq<char>, cache: Option<Seq<(Seq<char>, Seq<char>)>>) -> Seq<
    char,
> {
    match cache {
        Some(reps) => if contains_char(v, '@') || contains_char(v, '#') {
            applied(v, reps)
        } else {
            v
        },
        None => v,
    }
}

/// Turns one completion into the plan for its side effects and its visible
/// reply: every embedded directive, in reverse textual order, with its
/// target resolved against the live channel listing and its body's mentions
/// substituted; and the remaining text, mention-substituted through the
/// cache when one exists, then trimmed.
pub fn plan_completion(
    completion: &str,
    channels: &Vec<ChannelEntry>,
    body_reps: &Vec<Replacement>,
    cache_reps: &Option<Vec<Replacement>>,
) -> (r: (Vec<PlannedSend>, Vec<char>))
    ensures
        ({
            let dirs = spec_directives(completion@).reverse();
            &&& r.0@.len() == dirs.len()
            &&& forall|k: int|
                0 <= k < dirs.len() ==> {
                    let s = #[trigger] r.0@[k];
                    &&& s.target_reference@ == dirs[k].2
                    &&& s.channel_id == resolved_target(dirs[k].2, channels@)
                    &&& s.body@ == resolved_body(dirs[k].3, reps_view(body_reps@))
                }
        }),
        r.1@ == trimmed(
            resolved_visible(
                spec_stripped(completion@),
                match *cache_reps {
                    Some(cr) => Some(reps_view(cr@)),
                    None => None,
                },
            ),
        ),
{
    let chars = str_to_chars(completion);
    let (found, stripped) = extract_directives(&chars);
    let ordered = execution_order(found);
    let ghost dirs = spec_directives(completion@).reverse();
    let mut sends: Vec<PlannedSend> = Vec::new();
    let mut i: usize = 0;
    while i < ordered.len()
        invariant
            i <= ordered@.len(),
            crate::directive::dirs_view(ordered@) == dirs,
            sends@.len() == i,
            forall|k: int|
                0 <= k < i ==> {
                    let s = #[trigger] sends@[k];
                    &&& s.target_reference@ == dirs[k].2
                    &&& s.channel_id == resolved_target(dirs[k].2, channels@)
                    &&& s.body@ == resolved_body(dirs[k].3, reps_view(body_reps@))
                },
        decreases ordered@.len() - i,
    {
        let d = &ordered[i];
        let channel_id = crate::directive::resolve_target(d.target_reference.as_str(), channels);
        let body_chars = str_to_chars(d.body.as_str());
        let body = if find_char(&body_chars, '@') {
            apply_replacements(d.body.as_str(), body_reps)
        } else {
            d.body.clone()
        };
        proof {
            assert(crate::directive::dirs_view(ordered@)[i as int] == crate::directive::dir_view(
                ordered@[i as int],
            ));
        }
        sends.push(
            PlannedSend { target_reference: d.target_reference.clone(), channel_id, body },
        );
        i = i + 1;
    }
    let resolved = match cache_reps {
        Some(cr) => {
            if find_char(&stripped, '@') || find_char(&stripped, '#') {
                str_to_chars(
                    apply_replacements(
                        crate::text::chars_to_string(&stripped).as_str(),
                        cr,
                    ).as_str(),
                )
            } else {
                stripped
            }
        },
        None => stripped,
    };
    let visible = trim_chars(&resolved);
    (sends, visible)
}

} // verus!
