//! The computational pieces of the image-generation command: size and model
//! selection, prompt display shortening, and the interpretation of a
//! completion that carries an image as a URL, a markdown image link, or
//! base64 data.
use vstd::prelude::*;

use crate::directive::find_char_from;
use crate::text::{chars_to_string, copy_range, starts_with, starts_with_exec, str_to_chars};
use crate::trusted::{b64_decode, b64_decode_of};

verus! {

/// The aspect ratio a generation is asked for.
#[derive(Clone, Copy, PartialEq, Eq, Structural, Debug)]
pub enum ImageSize {
    Square,
    Portrait,
    Landscape,
}

impl ImageSize {
    /// The pixel dimensions sent for this aspect ratio.
    pub fn dimensions(&self) -> (r: &'static str)
        ensures
            *self is Square ==> r@ == "1024x1024"@,
            *self is Portrait ==> r@ == "720x1280"@,
            *self is Landscape ==> r@ == "1280x720"@,
    {
        match self {
            ImageSize::Square => "1024x1024",
            ImageSize::Portrait => "720x1280",
            ImageSize::Landscape => "1280x720",
        }
    }
}

/// The image model to call: the configured one, or the fixed default when
/// none is configured.
pub fn chosen_image_model(configured: &str) -> (r: String)
    ensures
        configured@.len() == 0 ==> r@ == "gemini-3-pro-image"@,
        configured@.len() > 0 ==> r@ == configured@,
{
    if configured.is_empty() {
        String::from_str("gemini-3-pro-image")
    } else {
        String::from_str(configured)
    }
}

/// How many images to request: the asked-for count, floored at one.
pub fn normalized_count(count: Option<u8>) -> (r: u8)
    ensures
        match count {
            Some(c) => r == (if c >= 1 {
                c
            } else {
                1u8
            }),
            None => r == 1u8,
        },
{
    match count {
        Some(c) => if c >= 1 {
            c
        } else {
            1
        },
        None => 1,
    }
}

/// The image reference inside a completion: for a markdown image link the
/// text between the first `(` and the `)` that closes it, otherwise the
/// completion as it stands.
pub open spec fn extracted_image_ref(content: Seq<char>) -> Seq<char> {
    if starts_with(content, "!["@) {
        match find_char_from(content, '(', 0) {
            Some(p) => {
                let b = match find_char_from(content, '(', p + 1) {
                    Some(q) => q,
                    None => content.len() as int,
                };
                match find_char_from(content, ')', p + 1) {
                    Some(c) => if c < b {
                        content.subrange(p + 1, c)
                    } else {
                        content.subrange(p + 1, b)
                    },
                    None => content.subrange(p + 1, b),
                }
            },
            None => content,
        }
    } else {
        content
    }
}

/// Base64 content cleaned for decoding: anything up to the first comma (a
/// data-URL prefix) dropped, then every newline removed.
pub open spec fn cleaned_b64(s: Seq<char>) -> Seq<char> {
    let body = match find_char_from(s, ',', 0) {
        Some(p) => s.subrange(p + 1, s.len() as int),
        None => s,
    };
    body.filter(|c: char| c != '\n' && c != '\r')
}

/// What the image-generation reply carries.
pub enum ImagePayload {
    /// A plain URL to embed.
    UrlRef(String),
    /// Decoded image bytes to attach as a file.
    FileBytes(Vec<u8>),
    /// Content that was neither a URL nor decodable base64.
    DecodeFailed,
}

fn extract_image_ref(content: &Vec<char>) -> (r: Vec<char>)
    ensures
        r@ == extracted_image_ref(content@),
{
    let bang = str_to_chars("![");
    if !starts_with_exec(content, &bang) {
        return copy_range(content, 0, content.len());
    }
    let mut p: usize = 0;
    let mut found_open = false;
    while p < content.len() && !found_open
        invariant
            p <= content@.len(),
            !found_open ==> find_char_from(content@, '(', 0) == find_char_from(
                content@,
                '(',
                p as int,
            ),
            found_open ==> p > 0 && find_char_from(content@, '(', 0) == Some(p - 1),
        decreases content@.len() - p,
    {
        if content[p] == '(' {
            found_open = true;
        }
        p = p + 1;
    }
    if !found_open {
        proof {
            assert(find_char_from(content@, '(', p as int) is None);
        }
        return copy_range(content, 0, content.len());
    }
    // p is one past the first '('
    let b = match scan_char(content, '(', p) {
        Some(q) => q,
        None => content.len(),
    };
    match scan_char(content, ')', p) {
        Some(c) => if c < b {
            copy_range(content, p, c)
        } else {
            copy_range(content, p, b)
        },
        None => copy_range(content, p, b),
    }
}

fn scan_char(text: &Vec<char>, c: char, from: usize) -> (r: Option<usize>)
    requires
        from <= text@.len(),
    ensures
        match r {
            Some(j) => find_char_from(text@, c, from as int) == Some(j as int) && from <= j
                < text@.len(),
            None => find_char_from(text@, c, from as int) is None,
        },
{
    let mut j: usize = from;
    while j < text.len()
        invariant
            from <= j <= text@.len(),
            find_char_from(text@, c, from as int) == find_char_from(text@, c, j as int),
        decreases text@.len() - j,
    {
        if text[j] == c {
            return Some(j);
        }
        j = j + 1;
    }
    None
}

fn clean_b64_chars(s: &Vec<char>) -> (r: Vec<char>)
    ensures
        r@ == cleaned_b64(s@),
{
    let ghost pred = |c: char| c != '\n' && c != '\r';
    let n = s.len();
    let body_start: usize = match scan_char(s, ',', 0) {
        Some(p) => p + 1,
        None => 0,
    };
    let ghost body = if find_char_from(s@, ',', 0) is Some {
        s@.subrange(body_start as int, s@.len() as int)
    } else {
        s@
    };
    proof {
        if find_char_from(s@, ',', 0) is None {
            assert(s@.subrange(0, s@.len() as int) =~= s@);
        }
        assert(body == s@.subrange(body_start as int, s@.len() as int));
        reveal(Seq::filter);
        assert(s@.subrange(body_start as int, body_start as int).filter(pred) =~= Seq::<
            char,
        >::empty());
    }
    let mut r: Vec<char> = Vec::new();
    let mut i: usize = body_start;
    while i < s.len()
        invariant
            body_start <= i <= s@.len(),
            body == s@.subrange(body_start as int, s@.len() as int),
            r@ == s@.subrange(body_start as int, i as int).filter(pred),
        decreases s@.len() - i,
    {
        proof {
            reveal(Seq::filter);
            let sub1 = s@.subrange(body_start as int, i + 1);
            assert(sub1.drop_last() =~= s@.subrange(body_start as int, i as int));
            assert(sub1.last() == s@[i as int]);
            if pred(s@[i as int]) {
                assert(sub1.filter(pred) == sub1.drop_last().filter(pred).push(sub1.last()));
            } else {
                assert(sub1.filter(pred) == sub1.drop_last().filter(pred));
            }
        }
        let ch = s[i];
        if ch != '\n' && ch != '\r' {
            r.push(ch);
        }
        i = i + 1;
    }
    proof {
        assert(s@.subrange(body_start as int, s@.len() as int) =~= body);
    }
    r
}

/// Reads the content of an image-generation completion: a URL is embedded
/// as it stands; anything else is treated as base64 (with any data-URL
/// prefix and newlines removed) and decoded, or reported undecodable.
pub fn interpret_image_content(content: &str) -> (r: ImagePayload)
    ensures
        ({
            let ext = extracted_image_ref(content@);
            if starts_with(ext, "http://"@) || starts_with(ext, "https://"@) {
                r is UrlRef && r->UrlRef_0@ == ext
            } else {
                match b64_decode_of(cleaned_b64(ext)) {
                    Some(bytes) => r is FileBytes && r->FileBytes_0@ == bytes,
                    None => r is DecodeFailed,
                }
            }
        }),
{
    let chars = str_to_chars(content);
    let ext = extract_image_ref(&chars);
    let http = str_to_chars("http://");
    let https = str_to_chars("https://");
    if starts_with_exec(&ext, &http) || starts_with_exec(&ext, &https) {
        return ImagePayload::UrlRef(chars_to_string(&ext));
    }
    let cleaned = clean_b64_chars(&ext);
    match b64_decode(chars_to_string(&cleaned).as_str()) {
        Some(bytes) => ImagePayload::FileBytes(bytes),
        None => ImagePayload::DecodeFailed,
    }
}

/// The user-facing reply for a failed generation: specific guidance when
/// the provider rejected the image count, one generic apology otherwise.
pub fn imagine_failure_reply(err_text: &str) -> (r: String)
    ensures
        crate::text::contains_seq(err_text@, "Only one candidate can be specified"@) ==> r@
            == "This model only supports generating 1 image at a time. Please try again without the count parameter or set it to 1."@,
        !crate::text::contains_seq(err_text@, "Only one candidate can be specified"@) ==> r@
            == "Something went wrong with the bot. Please try again later."@,
{
    let chars = str_to_chars(err_text);
    let needle = str_to_chars("Only one candidate can be specified");
    if crate::text::find_seq(&chars, &needle) {
        String::from_str(
            "This model only supports generating 1 image at a time. Please try again without the count parameter or set it to 1.",
        )
    } else {
        String::from_str("Something went wrong with the bot. Please try again later.")
    }
}

} // verus!
