//! Plain-value types and the computational pieces of the song-search
//! integration: token freshness, the Basic authorization value, and the
//! search request path. The HTTP calls and response decoding live outside
//! the library.
use vstd::prelude::*;

use crate::text::{dec_str, u64_to_string};
use crate::trusted::{b64_encode, b64_encode_of};

verus! {

/// An access token with its expiry as milliseconds on the caller's clock.
pub struct SpotifyToken {
    pub access_token: String,
    pub expires_at_millis: u64,
}

/// One track from a search response.
pub struct SpotifyTrack {
    pub name: String,
    pub artists: Vec<String>,
    pub album: String,
    pub album_year: Option<String>,
    pub spotify_url: String,
    pub preview_url: Option<String>,
    pub album_image: Option<String>,
}

/// One playlist from a search response.
pub struct SpotifyPlaylist {
    pub name: String,
    pub owner: String,
    pub track_count: u32,
    pub spotify_url: String,
    pub image: Option<String>,
}

/// One artist from a search response.
pub struct SpotifyArtist {
    pub name: String,
    pub genres: Vec<String>,
    pub followers: u32,
    pub spotify_url: String,
    pub image: Option<String>,
}

/// What a search looks for.
#[derive(Clone, Copy, PartialEq, Eq, Structural, Debug)]
pub enum SearchType {
    Track,
    Playlist,
    Artist,
}

impl SearchType {
    /// The query-string value of this search type.
    pub fn as_str(&self) -> (r: &'static str)
        ensures
            *self is Track ==> r@ == "track"@,
            *self is Playlist ==> r@ == "playlist"@,
            *self is Artist ==> r@ == "artist"@,
    {
        match self {
            SearchType::Track => "track",
            SearchType::Playlist => "playlist",
            SearchType::Artist => "artist",
        }
    }
}

/// A cached token is still usable when it outlives the present moment by
/// more than the sixty-second safety buffer.
pub fn token_is_fresh(token: &SpotifyToken, now_millis: u64) -> (r: bool)
    ensures
        r == (token.expires_at_millis > now_millis + 60_000),
{
    if now_millis <= u64::MAX - 60_000 {
        token.expires_at_millis > now_millis + 60_000
    } else {
        false
    }
}

/// The value of the Basic authorization header for the client-credentials
/// exchange: the base64 encoding of `client_id:client_secret`.
pub fn basic_auth_value(client_id: &str, client_secret: &str) -> (r: String)
    requires
        client_id@.len() + client_secret@.len() <= 1000,
    ensures
        r@ == b64_encode_of(
            vstd::utf8::encode_utf8(client_id@ + ":"@ + client_secret@),
        ),
{
    let joined = String::from_str(client_id).concat(":").concat(client_secret);
    let bytes = joined.as_str().as_bytes_vec();
    proof {
        crate::text::lemma_utf8_len(joined@);
        reveal_strlit(":");
    }
    b64_encode(&bytes)
}

/// The path and query of one search request, given an already
/// percent-encoded query string.
pub fn search_path(encoded_query: &str, search_type: SearchType, limit: u32) -> (r: String)
    ensures
        r@ == "https://api.spotify.com/v1/search?q="@ + encoded_query@ + "&type="@ + (match search_type {
            SearchType::Track => "track"@,
            SearchType::Playlist => "playlist"@,
            SearchType::Artist => "artist"@,
        }) + "&limit="@ + dec_str(limit as nat),
{
    String::from_str("https://api.spotify.com/v1/search?q=").concat(encoded_query).concat(
        "&type=",
    ).concat(search_type.as_str()).concat("&limit=").concat(u64_to_string(limit as u64).as_str())
}

} // verus!
