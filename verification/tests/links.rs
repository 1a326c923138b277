use playback_core::data::song::{
    spotify_search_query, youtubedl_title, InputResult, InputSource, SongLinkType, SongMetadata,
    Source, YoutubeQuery,
};
use playback_core::rvc::ModelLibrary;

#[test]
fn youtube_links_are_recognized() {
    assert!(matches!(
        SongLinkType::new("https://www.youtube.com/watch?v=abc"),
        SongLinkType::Youtube
    ));
    assert!(matches!(SongLinkType::new("youtu.be/xyz"), SongLinkType::Youtube));
    assert!(matches!(
        SongLinkType::new("  http://music.youtube.com/watch?v=abc  "),
        SongLinkType::Youtube
    ));
}

#[test]
fn repeated_scheme_prefixes_are_stripped() {
    assert!(matches!(
        SongLinkType::new("http://http://youtube.com/watch"),
        SongLinkType::Youtube
    ));
    assert!(matches!(
        SongLinkType::new("https://https://open.spotify.com/track/abc123"),
        SongLinkType::Spotify(id) if id == "abc123"
    ));
}

#[test]
fn spotify_track_links_carry_the_track_id() {
    match SongLinkType::new("https://open.spotify.com/track/4uLU6hMCjMI75M1A2tKUQC?si=shared") {
        SongLinkType::Spotify(id) => assert_eq!(id, "4uLU6hMCjMI75M1A2tKUQC"),
        _ => panic!("expected a catalog track"),
    }
    match SongLinkType::new("open.spotify.com/track/noquery") {
        SongLinkType::Spotify(id) => assert_eq!(id, "noquery"),
        _ => panic!("expected a catalog track"),
    }
}

#[test]
fn spotify_without_track_segment_is_searched() {
    assert!(matches!(
        SongLinkType::new("https://open.spotify.com/track"),
        SongLinkType::Search
    ));
    assert!(matches!(SongLinkType::new("open.spotify.com"), SongLinkType::Search));
}

#[test]
fn free_text_is_searched() {
    assert!(matches!(SongLinkType::new("some nice song"), SongLinkType::Search));
    assert!(matches!(SongLinkType::new(""), SongLinkType::Search));
}

#[test]
fn domain_only_decides_the_platform() {
    // The platform name appearing after the first slash does not make the
    // text a platform link.
    assert!(matches!(
        SongLinkType::new("example.com/youtube"),
        SongLinkType::Search
    ));
}

#[test]
fn chat_source_resolves_by_classification() {
    let direct = Source::Chat(String::from("https://youtube.com/watch?v=a"));
    assert!(matches!(direct.get_youtube(), YoutubeQuery::Link(u) if u.contains("youtube")));

    let track = Source::Chat(String::from("https://open.spotify.com/track/abc?si=x"));
    assert!(matches!(track.get_youtube(), YoutubeQuery::SpotifyTrack(id) if id == "abc"));

    let search = Source::Chat(String::from("free text"));
    assert!(matches!(search.get_youtube(), YoutubeQuery::Search(q) if q == "free text"));
}

#[test]
fn chat_input_defers_the_title() {
    let source = Source::Chat(String::from("free text"));
    let lib = ModelLibrary::load_or_warn(None);
    let input = source.get_input(None, false, &lib, None).expect("chat resolves");
    match input {
        InputResult::Input(InputSource::Youtube(YoutubeQuery::Search(q)), title) => {
            assert_eq!(q, "free text");
            assert!(title.is_none());
        }
        _ => panic!("expected a deferred platform query"),
    }
}

#[test]
fn spotify_search_text_is_assembled() {
    let artists = vec![String::from("A"), String::from("B")];
    assert_eq!(spotify_search_query(&artists, "Song"), "music A, B - Song");
    assert_eq!(spotify_search_query(&vec![], "Song"), "music  - Song");
}

#[test]
fn fetched_titles_prefer_the_override_artist() {
    let md = SongMetadata {
        title: Some(String::from("Tune")),
        artist: Some(String::from("Fetched")),
        source_url: None,
    };
    let over = String::from("Override");
    assert_eq!(youtubedl_title(&md, Some(&over)), Some(String::from("Override - Tune")));
    assert_eq!(youtubedl_title(&md, None), Some(String::from("Fetched - Tune")));

    let no_artist = SongMetadata {
        title: Some(String::from("Tune")),
        artist: None,
        source_url: None,
    };
    assert_eq!(youtubedl_title(&no_artist, None), Some(String::from("Tune")));

    let no_title = SongMetadata { title: None, artist: Some(String::from("A")), source_url: None };
    assert_eq!(youtubedl_title(&no_title, None), None);
}
