//! The search request for one pair, and what to do with its response.
use vstd::prelude::*;
use vstd::string::*;

use crate::types::ArtistTrack;

verus! {

/// The query text percent-encoded with the default encode set of the url
/// crate (controls, non-ASCII bytes, space, `"#<>` and `` `?{} `` escaped).
pub uninterp spec fn query_encoded(q: Seq<char>) -> Seq<char>;

/// Relies on url::percent_encoding::utf8_percent_encode with
/// DEFAULT_ENCODE_SET: the encoding depends on the query text alone.
#[verifier::external_body]
fn percent_encode_query(q: &str) -> (r: String)
    ensures
        r@ == query_encoded(q@),
{
    url::percent_encoding::utf8_percent_encode(q, url::percent_encoding::DEFAULT_ENCODE_SET).to_string()
}

/// Address of the search endpoint, up to the query.
pub open spec fn endpoint_prefix() -> Seq<char> {
    "https://api.genius.com/search/?q="@
}

/// The free-text query for a pair: artist, one space, track.
pub fn search_query(artist_track: &ArtistTrack) -> (r: String)
    ensures
        r@ == artist_track.artist@ + seq![' '] + artist_track.track@,
{
    let mut q = artist_track.artist.clone();
    q.append(" ");
    q.append(artist_track.track.as_str());
    proof {
        reveal_strlit(" ");
    }
    q
}

/// The address of the search request for `query`.
pub fn search_url(query: &str) -> (r: String)
    ensures
        r@ == endpoint_prefix() + query_encoded(query@),
{
    let mut url = String::from_str("https://api.genius.com/search/?q=");
    let encoded = percent_encode_query(query);
    url.append(encoded.as_str());
    url
}

/// A lookup that failed without a status: the request was not sent, no
/// answer came, or the body could not be read.
pub enum LookupError {
    Transport(String),
}

/// What the caller does next with the answer to a search request.
pub enum ResponseStep {
    /// The service answered with success: read the body as search hits.
    Decode,
    /// The service answered with another status: the run cannot go on.
    Fatal(u16),
    /// No answer: this record is resolved as unmatched.
    Failed(LookupError),
}

/// The status that counts as a successful search.
pub const STATUS_OK: u16 = 200;

/// Decides how to go on after a search request: `sent` is the status of the
/// answer, or the description of a transport failure.
pub fn classify_response(sent: Result<u16, String>) -> (r: ResponseStep)
    ensures
        match sent {
            Ok(status) => if status == STATUS_OK {
                r == ResponseStep::Decode
            } else {
                r == ResponseStep::Fatal(status)
            },
            Err(detail) => r == ResponseStep::Failed(LookupError::Transport(detail)),
        },
{
    match sent {
        Ok(status) => if status == STATUS_OK {
            ResponseStep::Decode
        } else {
            ResponseStep::Fatal(status)
        },
        Err(detail) => ResponseStep::Failed(LookupError::Transport(detail)),
    }
}

} // verus!
