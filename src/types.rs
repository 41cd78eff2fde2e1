//! Records read from the input table, returned by the search service, and
//! written to the output table.
use vstd::prelude::*;

verus! {

/// Status block of a search response.
pub struct ResponseMetadata {
    pub status: i32,
}

/// The ordered hits of a search response.
pub struct ResponseHits<Hit> {
    pub hits: Vec<Hit>,
}

/// A whole search response: status and hits.
pub struct APIResponse<Hit> {
    pub meta: ResponseMetadata,
    pub response: ResponseHits<Hit>,
}

/// The artist of a search result.
pub struct ArtistMetadata {
    pub api_path: String,
    pub header_image_url: String,
    pub id: i32,
    pub image_url: String,
    pub is_meme_verified: bool,
    pub is_verified: bool,
    pub name: String,
    pub url: String,
    pub iq: Option<i32>,
}

/// Popularity figures of a search result.
pub struct Stats {
    pub hot: bool,
    pub pageviews: Option<i32>,
    pub unreviewed_annotations: i32,
}

/// One song of the catalog, as a search returns it.
pub struct SearchResult {
    pub annotation_count: i32,
    pub api_path: String,
    pub full_title: String,
    pub header_image_thumbnail_url: String,
    pub header_image_url: String,
    pub id: i32,
    pub lyrics_owner_id: i32,
    pub lyrics_state: String,
    pub path: String,
    pub primary_artist: ArtistMetadata,
    pub pyongs_count: Option<i32>,
    pub song_art_image_thumbnail_url: String,
    pub stats: Stats,
    pub title: String,
    pub title_with_featured: String,
    pub url: String,
}

/// One candidate of a search response.
pub struct SearchHit {
    pub result: SearchResult,
}

/// One input row: the artist and track to resolve.
pub struct ArtistTrack {
    pub artist: String,
    pub track: String,
}

/// One output row: the pair, and the path of the matched song if any.
pub struct SearchCsv {
    pub artist_name: String,
    pub track_name: String,
    pub api_path: Option<String>,
}

/// View of an optional string as an optional character sequence.
pub open spec fn opt_view(o: Option<String>) -> Option<Seq<char>> {
    match o {
        Some(s) => Some(s@),
        None => None,
    }
}

impl SearchCsv {
    /// The output row of `artist_track`, with `api_path` as found.
    pub fn from(artist_track: ArtistTrack, api_path: Option<String>) -> (r: Self)
        ensures
            r.artist_name@ == artist_track.artist@,
            r.track_name@ == artist_track.track@,
            opt_view(r.api_path) == opt_view(api_path),
    {
        SearchCsv { artist_name: artist_track.artist, track_name: artist_track.track, api_path }
    }
}

} // verus!
