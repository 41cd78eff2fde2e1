use genius_crawl::lookup::{classify_response, search_query, search_url, LookupError, ResponseStep};
use genius_crawl::matcher::{find_match, is_match};
use genius_crawl::pipeline::{crawl_record, rows_minus_header};
use genius_crawl::text::normalize;
use genius_crawl::types::{
    APIResponse, ArtistMetadata, ArtistTrack, ResponseHits, ResponseMetadata, SearchCsv,
    SearchHit, SearchResult, Stats,
};

fn hit(artist: &str, title: &str, path: &str) -> SearchHit {
    SearchHit {
        result: SearchResult {
            annotation_count: 0,
            api_path: path.to_string(),
            full_title: format!("{} by {}", title, artist),
            header_image_thumbnail_url: String::new(),
            header_image_url: String::new(),
            id: 1,
            lyrics_owner_id: 0,
            lyrics_state: "complete".to_string(),
            path: String::new(),
            primary_artist: ArtistMetadata {
                api_path: "/artists/1".to_string(),
                header_image_url: String::new(),
                id: 1,
                image_url: String::new(),
                is_meme_verified: false,
                is_verified: false,
                name: artist.to_string(),
                url: String::new(),
                iq: None,
            },
            pyongs_count: None,
            song_art_image_thumbnail_url: String::new(),
            stats: Stats { hot: false, pageviews: Some(3), unreviewed_annotations: 0 },
            title: title.to_string(),
            title_with_featured: title.to_string(),
            url: String::new(),
        },
    }
}

fn pair(artist: &str, track: &str) -> ArtistTrack {
    ArtistTrack { artist: artist.to_string(), track: track.to_string() }
}

fn response(hits: Vec<SearchHit>) -> APIResponse<SearchHit> {
    APIResponse { meta: ResponseMetadata { status: 200 }, response: ResponseHits { hits } }
}

#[test]
fn normalize_collapses_non_word_runs() {
    assert_eq!(normalize("AC/DC"), "AC DC");
    assert_eq!(normalize("Hello,  World!"), "Hello World ");
    assert_eq!(normalize("  -- "), " ");
    assert_eq!(normalize(""), "");
    assert_eq!(normalize("snake_case"), "snake_case");
    assert_eq!(normalize("Beyoncé\t&\nJay-Z"), "Beyoncé Jay Z");
}

#[test]
fn normalize_twice_is_normalize_once() {
    for s in ["AC/DC", "  a -- b  ", "Guns N' Roses", "", "!!!", "x"] {
        let once = normalize(s);
        assert_eq!(normalize(&once), once);
    }
}

#[test]
fn find_match_empty_candidates() {
    assert_eq!(find_match(vec![], &pair("Daft Punk", "One More Time")), None);
}

#[test]
fn find_match_exact() {
    let hits = vec![hit("Daft Punk", "One More Time", "/songs/1")];
    assert_eq!(find_match(hits, &pair("Daft Punk", "One More Time")), Some("/songs/1".to_string()));
}

#[test]
fn find_match_truncated_candidate_title() {
    let hits = vec![hit("Daft Punk", "One More", "/songs/2")];
    assert_eq!(find_match(hits, &pair("Daft Punk", "One More Time")), Some("/songs/2".to_string()));
}

#[test]
fn find_match_truncated_target_track() {
    let hits = vec![hit("Daft Punk", "One More Time", "/songs/3")];
    assert_eq!(find_match(hits, &pair("Daft Punk", "One More")), Some("/songs/3".to_string()));
}

#[test]
fn find_match_unrelated() {
    let hits = vec![hit("Abba", "Dancing Queen", "/songs/4")];
    assert_eq!(find_match(hits, &pair("Daft Punk", "One More Time")), None);
}

#[test]
fn find_match_first_accepted_wins_and_is_repeatable() {
    let make = || {
        vec![
            hit("Abba", "Dancing Queen", "/songs/a"),
            hit("Daft Punk", "One More Time (Radio Edit)", "/songs/b"),
            hit("Daft Punk", "One More Time", "/songs/c"),
        ]
    };
    let target = pair("Daft Punk", "One More Time");
    let first = find_match(make(), &target);
    assert_eq!(first, Some("/songs/b".to_string()));
    assert_eq!(find_match(make(), &target), first);
    let mut reversed = make();
    reversed.reverse();
    assert_eq!(find_match(reversed, &target), Some("/songs/c".to_string()));
}

#[test]
fn find_match_normalizes_both_sides() {
    let hits = vec![hit("AC/DC", "Back-In-Black", "/songs/5")];
    assert_eq!(find_match(hits, &pair("AC DC", "Back in Black")), None);
    let hits = vec![hit("AC/DC", "Back-In-Black", "/songs/5")];
    assert_eq!(find_match(hits, &pair("AC DC", "Back In Black")), Some("/songs/5".to_string()));
}

#[test]
fn is_match_takes_normalized_target() {
    let h = hit("Daft Punk", "One More Time", "/songs/1");
    assert!(is_match(&h, "Daft Punk", "One More Time"));
    assert!(is_match(&h, "Punk", "Time"));
    assert!(!is_match(&h, "Daft Punk", "Around the World"));
}

#[test]
fn search_query_joins_with_space() {
    assert_eq!(search_query(&pair("Daft Punk", "One More Time")), "Daft Punk One More Time");
}

#[test]
fn search_url_encodes_query() {
    assert_eq!(
        search_url("Daft Punk One More Time"),
        "https://api.genius.com/search/?q=Daft%20Punk%20One%20More%20Time"
    );
    assert_eq!(search_url("what? #1"), "https://api.genius.com/search/?q=what%3F%20%231");
    assert_eq!(search_url("é"), "https://api.genius.com/search/?q=%C3%A9");
}

#[test]
fn classify_response_cases() {
    assert!(matches!(classify_response(Ok(200)), ResponseStep::Decode));
    assert!(matches!(classify_response(Ok(404)), ResponseStep::Fatal(404)));
    assert!(matches!(classify_response(Ok(500)), ResponseStep::Fatal(500)));
    match classify_response(Err("timed out".to_string())) {
        ResponseStep::Failed(LookupError::Transport(d)) => assert_eq!(d, "timed out"),
        _ => panic!("expected a transport failure"),
    }
}

#[test]
fn crawl_record_transport_failure_gives_no_path() {
    let r = crawl_record(pair("Daft Punk", "One More Time"), Err(LookupError::Transport("dns".to_string())));
    assert_eq!(r.artist_name, "Daft Punk");
    assert_eq!(r.track_name, "One More Time");
    assert_eq!(r.api_path, None);
}

#[test]
fn crawl_records_one_row_each_after_a_failure() {
    let records = vec![pair("A", "x"), pair("Daft Punk", "One More Time"), pair("Abba", "SOS")];
    let lookups = vec![
        Err(LookupError::Transport("connect".to_string())),
        Ok(response(vec![hit("Daft Punk", "One More Time", "/songs/1")])),
        Ok(response(vec![])),
    ];
    let rows: Vec<SearchCsv> =
        records.into_iter().zip(lookups).map(|(r, l)| crawl_record(r, l)).collect();
    assert_eq!(rows.len(), 3);
    assert_eq!(rows[0].api_path, None);
    assert_eq!(rows[1].artist_name, "Daft Punk");
    assert_eq!(rows[1].api_path, Some("/songs/1".to_string()));
    assert_eq!(rows[2].track_name, "SOS");
    assert_eq!(rows[2].api_path, None);
}

#[test]
fn search_csv_from_keeps_pair() {
    let r = SearchCsv::from(pair("Abba", "SOS"), Some("/songs/9".to_string()));
    assert_eq!(r.artist_name, "Abba");
    assert_eq!(r.track_name, "SOS");
    assert_eq!(r.api_path, Some("/songs/9".to_string()));
}

#[test]
fn rows_minus_header_counts_data_rows() {
    assert_eq!(rows_minus_header(1), 0);
    assert_eq!(rows_minus_header(11), 10);
}
