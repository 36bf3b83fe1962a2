//! The player-lookup short circuit: spotting a lookup phrase followed by a
//! numeric id in a message, signing the lookup request, interpreting the
//! response, and rendering the profile reply. When a message matches, the
//! whole completion path is bypassed.
use vstd::prelude::*;

use crate::text::{
    copy_range, dec_str, dec_val, is_digit_char, is_space_char, lower, lower_char,
    lower_seq, parse_u64_digits, u64_to_string, digit_char, space_char,
};
use crate::trusted::{md5_hex, md5_hex_of};

verus! {

pub open spec fn w_player() -> Seq<char> {
    seq!['p', 'l', 'a', 'y', 'e', 'r']
}

pub open spec fn w_id() -> Seq<char> {
    seq!['i', 'd']
}

pub open spec fn w_siapa() -> Seq<char> {
    seq!['s', 'i', 'a', 'p', 'a']
}

pub open spec fn w_cek() -> Seq<char> {
    seq!['c', 'e', 'k']
}

pub open spec fn w_akun() -> Seq<char> {
    seq!['a', 'k', 'u', 'n']
}

/// `w` (already lowercase) occurs at position `i`, ASCII-case-insensitively.
pub open spec fn word_at_ci(text: Seq<char>, i: int, w: Seq<char>) -> bool {
    0 <= i && i + w.len() <= text.len() && lower_seq(text.subrange(i, i + w.len() as int)) == w
}

/// The first position at or after `i` that is not whitespace.
pub open spec fn skip_spaces(text: Seq<char>, i: int) -> int
    decreases text.len() - i,
    when 0 <= i <= text.len()
{
    if i >= text.len() {
        i
    } else if is_space_char(text[i]) {
        skip_spaces(text, i + 1)
    } else {
        i
    }
}

/// The end of the digit run starting at `i`.
pub open spec fn digits_end(text: Seq<char>, i: int) -> int
    decreases text.len() - i,
    when 0 <= i <= text.len()
{
    if i >= text.len() {
        i
    } else if is_digit_char(text[i]) {
        digits_end(text, i + 1)
    } else {
        i
    }
}

pub proof fn lemma_skip_spaces(text: Seq<char>, i: int)
    requires
        0 <= i <= text.len(),
    ensures
        i <= skip_spaces(text, i) <= text.len(),
    decreases text.len() - i,
{
    if i < text.len() && is_space_char(text[i]) {
        lemma_skip_spaces(text, i + 1);
    }
}

pub proof fn lemma_digits_end(text: Seq<char>, i: int)
    requires
        0 <= i <= text.len(),
    ensures
        i <= digits_end(text, i) <= text.len(),
        forall|k: int| i <= k < digits_end(text, i) ==> is_digit_char(text[k]),
    decreases text.len() - i,
{
    if i < text.len() && is_digit_char(text[i]) {
        lemma_digits_end(text, i + 1);
    }
}

/// Where a one-word lookup phrase ends, if it stands at `i`.
pub open spec fn one_word_end(text: Seq<char>, i: int, w1: Seq<char>) -> Option<int> {
    if word_at_ci(text, i, w1) {
        Some(i + w1.len() as int)
    } else {
        None
    }
}

/// Where a two-word lookup phrase ends, if it stands at `i` with any run of
/// whitespace between its words.
pub open spec fn two_word_end(text: Seq<char>, i: int, w1: Seq<char>, w2: Seq<char>) -> Option<
    int,
> {
    if word_at_ci(text, i, w1) {
        let j = skip_spaces(text, i + w1.len() as int);
        if word_at_ci(text, j, w2) {
            Some(j + w2.len() as int)
        } else {
            None
        }
    } else {
        None
    }
}

/// The digit run that follows a phrase ending at `e`, after any whitespace;
/// `None` when no digit follows.
pub open spec fn digits_after(text: Seq<char>, e: int) -> Option<(int, int)>
    recommends
        0 <= e <= text.len(),
{
    let d0 = skip_spaces(text, e);
    let d1 = digits_end(text, d0);
    if d1 > d0 {
        Some((d0, d1))
    } else {
        None
    }
}

/// The digit span of a lookup written at position `i`, trying the phrases in
/// their fixed order: "player id", "siapa player", "cek player", "player",
/// "cek akun", "cek id".
pub open spec fn player_match_at(text: Seq<char>, i: int) -> Option<(int, int)> {
    if two_word_end(text, i, w_player(), w_id()) is Some && digits_after(
        text,
        two_word_end(text, i, w_player(), w_id())->Some_0,
    ) is Some {
        digits_after(text, two_word_end(text, i, w_player(), w_id())->Some_0)
    } else if two_word_end(text, i, w_siapa(), w_player()) is Some && digits_after(
        text,
        two_word_end(text, i, w_siapa(), w_player())->Some_0,
    ) is Some {
        digits_after(text, two_word_end(text, i, w_siapa(), w_player())->Some_0)
    } else if two_word_end(text, i, w_cek(), w_player()) is Some && digits_after(
        text,
        two_word_end(text, i, w_cek(), w_player())->Some_0,
    ) is Some {
        digits_after(text, two_word_end(text, i, w_cek(), w_player())->Some_0)
    } else if one_word_end(text, i, w_player()) is Some && digits_after(
        text,
        one_word_end(text, i, w_player())->Some_0,
    ) is Some {
        digits_after(text, one_word_end(text, i, w_player())->Some_0)
    } else if two_word_end(text, i, w_cek(), w_akun()) is Some && digits_after(
        text,
        two_word_end(text, i, w_cek(), w_akun())->Some_0,
    ) is Some {
        digits_after(text, two_word_end(text, i, w_cek(), w_akun())->Some_0)
    } else if two_word_end(text, i, w_cek(), w_id()) is Some && digits_after(
        text,
        two_word_end(text, i, w_cek(), w_id())->Some_0,
    ) is Some {
        digits_after(text, two_word_end(text, i, w_cek(), w_id())->Some_0)
    } else {
        None
    }
}

/// The digit span of the leftmost lookup in the text.
pub open spec fn find_player_digits(text: Seq<char>, pos: int) -> Option<(int, int)>
    decreases text.len() - pos,
    when 0 <= pos
{
    if pos >= text.len() {
        None
    } else if player_match_at(text, pos) is Some {
        player_match_at(text, pos)
    } else {
        find_player_digits(text, pos + 1)
    }
}

pub open spec fn spec_player_query(text: Seq<char>) -> Option<(int, int)> {
    find_player_digits(text, 0)
}

fn word_vec_player() -> (r: Vec<char>)
    ensures
        r@ == w_player(),
{
    let r = vec!['p', 'l', 'a', 'y', 'e', 'r'];
    assert(r@ =~= w_player());
    r
}

fn word_vec_id() -> (r: Vec<char>)
    ensures
        r@ == w_id(),
{
    let r = vec!['i', 'd'];
    assert(r@ =~= w_id());
    r
}

fn word_vec_siapa() -> (r: Vec<char>)
    ensures
        r@ == w_siapa(),
{
    let r = vec!['s', 'i', 'a', 'p', 'a'];
    assert(r@ =~= w_siapa());
    r
}

fn word_vec_cek() -> (r: Vec<char>)
    ensures
        r@ == w_cek(),
{
    let r = vec!['c', 'e', 'k'];
    assert(r@ =~= w_cek());
    r
}

fn word_vec_akun() -> (r: Vec<char>)
    ensures
        r@ == w_akun(),
{
    let r = vec!['a', 'k', 'u', 'n'];
    assert(r@ =~= w_akun());
    r
}

fn word_at_exec(text: &Vec<char>, i: usize, w: &Vec<char>) -> (r: bool)
    requires
        i <= text@.len(),
    ensures
        r == word_at_ci(text@, i as int, w@),
{
    if w.len() > text.len() - i {
        return false;
    }
    let mut j: usize = 0;
    while j < w.len()
        invariant
            j <= w@.len(),
            i + w@.len() <= text@.len(),
            forall|k: int| 0 <= k < j ==> lower_char(text@[i + k]) == w@[k],
        decreases w@.len() - j,
    {
        if lower(text[i + j]) != w[j] {
            proof {
                let sub = text@.subrange(i as int, i + w@.len());
                assert(lower_seq(sub)[j as int] == lower_char(sub[j as int]));
            }
            return false;
        }
        j = j + 1;
    }
    proof {
        let sub = text@.subrange(i as int, i + w@.len());
        assert forall|k: int| 0 <= k < w@.len() implies lower_seq(sub)[k] == w@[k] by {
            assert(sub[k] == text@[i + k]);
        }
        assert(lower_seq(sub) =~= w@);
    }
    true
}

fn skip_spaces_exec(text: &Vec<char>, i: usize) -> (r: usize)
    requires
        i <= text@.len(),
    ensures
        r as int == skip_spaces(text@, i as int),
        i <= r <= text@.len(),
{
    let mut j: usize = i;
    while j < text.len() && space_char(text[j])
        invariant
            i <= j <= text@.len(),
            skip_spaces(text@, i as int) == skip_spaces(text@, j as int),
        decreases text@.len() - j,
    {
        j = j + 1;
    }
    j
}

pub(crate) fn digits_end_exec(text: &Vec<char>, i: usize) -> (r: usize)
    requires
        i <= text@.len(),
    ensures
        r as int == digits_end(text@, i as int),
        i <= r <= text@.len(),
{
    let mut j: usize = i;
    while j < text.len() && digit_char(text[j])
        invariant
            i <= j <= text@.len(),
            digits_end(text@, i as int) == digits_end(text@, j as int),
        decreases text@.len() - j,
    {
        j = j + 1;
    }
    j
}

fn digits_after_exec(text: &Vec<char>, e: usize) -> (r: Option<(usize, usize)>)
    requires
        e <= text@.len(),
    ensures
        match r {
            Some(p) => digits_after(text@, e as int) == Some((p.0 as int, p.1 as int)) && p.0
                < p.1 <= text@.len(),
            None => digits_after(text@, e as int) is None,
        },
{
    let d0 = skip_spaces_exec(text, e);
    let d1 = digits_end_exec(text, d0);
    if d1 > d0 {
        Some((d0, d1))
    } else {
        None
    }
}

fn player_match_exec(text: &Vec<char>, i: usize) -> (r: Option<(usize, usize)>)
    requires
        i <= text@.len(),
    ensures
        match r {
            Some(p) => player_match_at(text@, i as int) == Some((p.0 as int, p.1 as int)) && p.0
                < p.1 <= text@.len(),
            None => player_match_at(text@, i as int) is None,
        },
{
    let n = text.len();
    let player = word_vec_player();
    let id = word_vec_id();
    let siapa = word_vec_siapa();
    let cek = word_vec_cek();
    let akun = word_vec_akun();
    // "player id"
    if word_at_exec(text, i, &player) {
        let j = skip_spaces_exec(text, i + player.len());
        if word_at_exec(text, j, &id) {
            if let Some(p) = digits_after_exec(text, j + id.len()) {
                return Some(p);
            }
        }
    }
    // "siapa player"
    if word_at_exec(text, i, &siapa) {
        let j = skip_spaces_exec(text, i + siapa.len());
        if word_at_exec(text, j, &player) {
            if let Some(p) = digits_after_exec(text, j + player.len()) {
                return Some(p);
            }
        }
    }
    // "cek player"
    if word_at_exec(text, i, &cek) {
        let j = skip_spaces_exec(text, i + cek.len());
        if word_at_exec(text, j, &player) {
            if let Some(p) = digits_after_exec(text, j + player.len()) {
                return Some(p);
            }
        }
    }
    // "player"
    if word_at_exec(text, i, &player) {
        if let Some(p) = digits_after_exec(text, i + player.len()) {
            return Some(p);
        }
    }
    // "cek akun"
    if word_at_exec(text, i, &cek) {
        let j = skip_spaces_exec(text, i + cek.len());
        if word_at_exec(text, j, &akun) {
            if let Some(p) = digits_after_exec(text, j + akun.len()) {
                return Some(p);
            }
        }
    }
    // "cek id"
    if word_at_exec(text, i, &cek) {
        let j = skip_spaces_exec(text, i + cek.len());
        if word_at_exec(text, j, &id) {
            if let Some(p) = digits_after_exec(text, j + id.len()) {
                return Some(p);
            }
        }
    }
    None
}

/// Scans a message for a lookup phrase followed by a numeric id and returns
/// the id of the leftmost one; `None` when no phrase matches or the number
/// does not fit an id.
pub fn find_player_query(content: &Vec<char>) -> (r: Option<u64>)
    ensures
        match spec_player_query(content@) {
            Some(p) => if dec_val(content@.subrange(p.0, p.1)) <= u64::MAX as int {
                r == Some(dec_val(content@.subrange(p.0, p.1)) as u64)
            } else {
                r is None
            },
            None => r is None,
        },
{
    let mut pos: usize = 0;
    while pos < content.len()
        invariant
            pos <= content@.len(),
            spec_player_query(content@) == find_player_digits(content@, pos as int),
        decreases content@.len() - pos,
    {
        if let Some(p) = player_match_exec(content, pos) {
            proof {
                lemma_player_span_digits(content@, pos as int, p.0 as int, p.1 as int);
            }
            let digits = copy_range(content, p.0, p.1);
            proof {
                assert forall|k: int| 0 <= k < digits@.len() implies is_digit_char(
                    digits@[k],
                ) by {
                    assert(digits@[k] == content@[p.0 + k]);
                }
            }
            return parse_u64_digits(&digits);
        }
        pos = pos + 1;
    }
    None
}

/// A matched digit span lies inside the text and holds only digits.
proof fn lemma_player_span_digits(text: Seq<char>, i: int, d0: int, d1: int)
    requires
        0 <= i <= text.len(),
        player_match_at(text, i) == Some((d0, d1)),
    ensures
        0 <= d0 <= d1 <= text.len(),
        forall|k: int| d0 <= k < d1 ==> is_digit_char(text[k]),
{
    if two_word_end(text, i, w_player(), w_id()) is Some && digits_after(
        text,
        two_word_end(text, i, w_player(), w_id())->Some_0,
    ) is Some {
        let e = two_word_end(text, i, w_player(), w_id())->Some_0;
        lemma_skip_spaces(text, i + w_player().len());
        lemma_skip_spaces(text, e);
        lemma_digits_end(text, skip_spaces(text, e));
    } else if two_word_end(text, i, w_siapa(), w_player()) is Some && digits_after(
        text,
        two_word_end(text, i, w_siapa(), w_player())->Some_0,
    ) is Some {
        let e = two_word_end(text, i, w_siapa(), w_player())->Some_0;
        lemma_skip_spaces(text, i + w_siapa().len());
        lemma_skip_spaces(text, e);
        lemma_digits_end(text, skip_spaces(text, e));
    } else if two_word_end(text, i, w_cek(), w_player()) is Some && digits_after(
        text,
        two_word_end(text, i, w_cek(), w_player())->Some_0,
    ) is Some {
        let e = two_word_end(text, i, w_cek(), w_player())->Some_0;
        lemma_skip_spaces(text, i + w_cek().len());
        lemma_skip_spaces(text, e);
        lemma_digits_end(text, skip_spaces(text, e));
    } else if one_word_end(text, i, w_player()) is Some && digits_after(
        text,
        one_word_end(text, i, w_player())->Some_0,
    ) is Some {
        let e = one_word_end(text, i, w_player())->Some_0;
        lemma_skip_spaces(text, e);
        lemma_digits_end(text, skip_spaces(text, e));
    } else if two_word_end(text, i, w_cek(), w_akun()) is Some && digits_after(
        text,
        two_word_end(text, i, w_cek(), w_akun())->Some_0,
    ) is Some {
        let e = two_word_end(text, i, w_cek(), w_akun())->Some_0;
        lemma_skip_spaces(text, i + w_cek().len());
        lemma_skip_spaces(text, e);
        lemma_digits_end(text, skip_spaces(text, e));
    } else if two_word_end(text, i, w_cek(), w_id()) is Some && digits_after(
        text,
        two_word_end(text, i, w_cek(), w_id())->Some_0,
    ) is Some {
        let e = two_word_end(text, i, w_cek(), w_id())->Some_0;
        lemma_skip_spaces(text, i + w_cek().len());
        lemma_skip_spaces(text, e);
        lemma_digits_end(text, skip_spaces(text, e));
    }
}


/// Profile fields of one looked-up player, as plain values.
pub struct PlayerData {
    pub fid: u64,
    pub nickname: String,
    pub kid: u32,
    pub stove_lv: u32,
    pub stove_lv_content: String,
    pub avatar_image: String,
}

/// Why a lookup produced no profile.
#[derive(Clone, Copy, PartialEq, Eq, Structural, Debug)]
pub enum PlayerLookupError {
    /// The service answered with an error code.
    NotFound,
    /// The service answered without profile data.
    NoData,
}

/// The display form of a furnace level: raw sub-levels up to 34, "FC" tiers
/// of five steps from 35 to 84, the bare number elsewhere.
pub open spec fn spec_stove_display(level: u32) -> Seq<char> {
    if 31 <= level && level <= 34 {
        "30-"@ + dec_str((level - 30) as nat)
    } else if 35 <= level && level <= 84 {
        let fc = ((level - 35) / 5 + 1) as nat;
        let rem = ((level - 35) % 5) as nat;
        if rem == 0 {
            "FC "@ + dec_str(fc)
        } else {
            "FC "@ + dec_str(fc) + "-"@ + dec_str(rem)
        }
    } else {
        "Level "@ + dec_str(level as nat)
    }
}

/// Renders a furnace level for display.
pub fn get_stove_level_display(level: u32) -> (r: String)
    ensures
        r@ == spec_stove_display(level),
{
    if 31 <= level && level <= 34 {
        String::from_str("30-").concat(u64_to_string((level - 30) as u64).as_str())
    } else if 35 <= level && level <= 84 {
        let fc = (level - 35) / 5 + 1;
        let rem = (level - 35) % 5;
        if rem == 0 {
            String::from_str("FC ").concat(u64_to_string(fc as u64).as_str())
        } else {
            String::from_str("FC ").concat(u64_to_string(fc as u64).as_str()).concat("-").concat(
                u64_to_string(rem as u64).as_str(),
            )
        }
    } else {
        String::from_str("Level ").concat(u64_to_string(level as u64).as_str())
    }
}

/// Reads a lookup response: an error code means the player was not found,
/// and a clean answer must still carry profile data.
pub fn interpret_player_response(err_code: &str, data: Option<PlayerData>) -> (r: Result<
    PlayerData,
    PlayerLookupError,
>)
    ensures
        err_code@.len() > 0 ==> r is Err && r->Err_0 is NotFound,
        err_code@.len() == 0 && data is Some ==> r is Ok && r->Ok_0 == data->Some_0,
        err_code@.len() == 0 && data is None ==> r is Err && r->Err_0 is NoData,
{
    if !err_code.is_empty() {
        Err(PlayerLookupError::NotFound)
    } else {
        match data {
            Some(d) => Ok(d),
            None => Err(PlayerLookupError::NoData),
        }
    }
}

/// The canonical string a lookup request is signed over, before the shared
/// secret is appended.
pub open spec fn lookup_canonical(fid: u64, time_millis: u64) -> Seq<char> {
    "fid="@ + dec_str(fid as nat) + "&time="@ + dec_str(time_millis as nat)
}

/// The form body of one lookup request: the MD5 signature over the
/// canonical string plus the shared secret, then the id and timestamp.
pub fn player_request_body(fid: u64, time_millis: u64, secret: &str) -> (r: String)
    ensures
        r@ == "sign="@ + md5_hex_of(
            vstd::utf8::encode_utf8(lookup_canonical(fid, time_millis) + secret@),
        ) + "&fid="@ + dec_str(fid as nat) + "&time="@ + dec_str(time_millis as nat),
{
    let fid_str = u64_to_string(fid);
    let time_str = u64_to_string(time_millis);
    let form = String::from_str("fid=").concat(fid_str.as_str()).concat("&time=").concat(
        time_str.as_str(),
    );
    let signed = form.concat(secret);
    let bytes = signed.as_str().as_bytes_vec();
    let sign = md5_hex(&bytes);
    String::from_str("sign=").concat(sign.as_str()).concat("&fid=").concat(
        fid_str.as_str(),
    ).concat("&time=").concat(time_str.as_str())
}

/// Renders the fixed-format profile reply.
pub fn render_player_profile(p: &PlayerData) -> (r: String)
    ensures
        r@ == "Player: "@ + p.nickname@ + "\nFID: "@ + dec_str(p.fid as nat)
            + "\nFurnace Level: "@ + spec_stove_display(p.stove_lv) + "\nState: "@ + dec_str(
            p.kid as nat,
        ),
{
    String::from_str("Player: ").concat(p.nickname.as_str()).concat("\nFID: ").concat(
        u64_to_string(p.fid).as_str(),
    ).concat("\nFurnace Level: ").concat(get_stove_level_display(p.stove_lv).as_str()).concat(
        "\nState: ",
    ).concat(u64_to_string(p.kid as u64).as_str())
}

} // verus!
