//! Deciding whether a search candidate is the wanted song.
use vstd::prelude::*;

use crate::text::{contains, normalize, normalized, str_contains};
use crate::types::{opt_view, ArtistTrack, SearchHit};

verus! {

/// Either string contains the other.
pub open spec fn overlaps(a: Seq<char>, b: Seq<char>) -> bool {
    contains(a, b) || contains(b, a)
}

/// `hit` names the song of the normalized `artist` and `track`: its
/// normalized artist and title each overlap the target's.
pub open spec fn accepts(hit: SearchHit, artist: Seq<char>, track: Seq<char>) -> bool {
    overlaps(normalized(hit.result.primary_artist.name@), artist) && overlaps(
        normalized(hit.result.title@),
        track,
    )
}

/// Path of the first hit in response order that `accepts` the normalized
/// target, if any.
pub open spec fn first_match(hits: Seq<SearchHit>, artist: Seq<char>, track: Seq<char>) -> Option<
    Seq<char>,
>
    decreases hits.len(),
{
    if hits.len() == 0 {
        None
    } else if accepts(hits[0], artist, track) {
        Some(hits[0].result.api_path@)
    } else {
        first_match(hits.drop_first(), artist, track)
    }
}

/// What matching `hits` against the raw pair gives.
pub open spec fn match_of(hits: Seq<SearchHit>, artist: Seq<char>, track: Seq<char>) -> Option<
    Seq<char>,
> {
    first_match(hits, normalized(artist), normalized(track))
}

/// Whether `hit` matches the already normalized `artist` and `track`.
pub fn is_match(hit: &SearchHit, artist: &str, track: &str) -> (r: bool)
    ensures
        r == accepts(*hit, artist@, track@),
{
    let hit_artist = normalize(hit.result.primary_artist.name.as_str());
    let hit_track = normalize(hit.result.title.as_str());
    (str_contains(hit_artist.as_str(), artist) || str_contains(artist, hit_artist.as_str())) && (
    str_contains(hit_track.as_str(), track) || str_contains(track, hit_track.as_str()))
}

/// Path of the first hit, in response order, whose artist and title match
/// those of `artist_track` after normalization.
pub fn find_match(hits: Vec<SearchHit>, artist_track: &ArtistTrack) -> (r: Option<String>)
    ensures
        opt_view(r) == match_of(hits@, artist_track.artist@, artist_track.track@),
{
    let artist = normalize(artist_track.artist.as_str());
    let track = normalize(artist_track.track.as_str());
    let n = hits.len();
    let mut i: usize = 0;
    assert(hits@.subrange(0, n as int) == hits@);
    while i < n
        invariant
            n == hits@.len(),
            i <= n,
            artist@ == normalized(artist_track.artist@),
            track@ == normalized(artist_track.track@),
            first_match(hits@, artist@, track@) == first_match(
                hits@.subrange(i as int, n as int),
                artist@,
                track@,
            ),
        decreases n - i,
    {
        assert(hits@.subrange(i as int, n as int).drop_first() == hits@.subrange(
            i + 1,
            n as int,
        ));
        assert(hits@.subrange(i as int, n as int)[0] == hits@[i as int]);
        if is_match(&hits[i], artist.as_str(), track.as_str()) {
            return Some(hits[i].result.api_path.clone());
        }
        i = i + 1;
    }
    None
}

/// No candidate, no match.
pub proof fn lemma_no_candidates(artist: Seq<char>, track: Seq<char>)
    ensures
        match_of(Seq::empty(), artist, track) == None::<Seq<char>>,
{
}

/// The first accepted candidate wins, whatever follows it; candidates
/// before it that are not accepted do not change the outcome.
pub proof fn lemma_first_accepted_wins(hits: Seq<SearchHit>, k: int, artist: Seq<char>, track: Seq<char>)
    requires
        0 <= k < hits.len(),
        accepts(hits[k], normalized(artist), normalized(track)),
        forall|j: int| 0 <= j < k ==> !accepts(#[trigger] hits[j], normalized(artist), normalized(track)),
    ensures
        match_of(hits, artist, track) == Some(hits[k].result.api_path@),
    decreases k,
{
    if k > 0 {
        let rest = hits.drop_first();
        assert forall|j: int| 0 <= j < k - 1 implies !accepts(#[trigger] rest[j], normalized(artist), normalized(track)) by {
            assert(rest[j] == hits[j + 1]);
        }
        assert(rest[k - 1] == hits[k]);
        assert(!accepts(hits[0], normalized(artist), normalized(track)));
        lemma_first_accepted_wins(rest, k - 1, artist, track);
    }
}

/// When no candidate is accepted the result is `None`.
pub proof fn lemma_none_accepted(hits: Seq<SearchHit>, artist: Seq<char>, track: Seq<char>)
    requires
        forall|j: int| 0 <= j < hits.len() ==> !accepts(#[trigger] hits[j], normalized(artist), normalized(track)),
    ensures
        match_of(hits, artist, track) == None::<Seq<char>>,
    decreases hits.len(),
{
    if hits.len() > 0 {
        let rest = hits.drop_first();
        assert forall|j: int| 0 <= j < rest.len() implies !accepts(#[trigger] rest[j], normalized(artist), normalized(track)) by {
            assert(rest[j] == hits[j + 1]);
        }
        assert(!accepts(hits[0], normalized(artist), normalized(track)));
        lemma_none_accepted(rest, artist, track);
    }
}

} // verus!
