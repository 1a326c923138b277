use playback_core::data::song::{
    InputResult, InputSource, Request, RequestState, SongMetadata, Source, SourceError,
};
use playback_core::rvc::{
    Model, ModelEntry, ModelGroup, ModelLibrary, ModelMetadata, RVCProcessorResult,
    RVCProcessorState, RVCSong,
};
use playback_core::text::{i32_to_string, parse_bool, parse_i32, u64_to_string};

fn metadata() -> SongMetadata {
    SongMetadata {
        title: Some(String::from("Tune")),
        artist: Some(String::from("Artist")),
        source_url: Some(String::from("https://example.test/tune")),
    }
}

fn library_with(raw: &str, display: &str) -> ModelLibrary {
    let entry = ModelEntry {
        raw_name: String::from(raw),
        metadata: ModelMetadata {
            name: String::from(display),
            localizations: vec![(String::from("ko"), String::from("\u{ac00}\u{c218}"))],
            group: String::new(),
            select_name: String::new(),
            select_localizations: Vec::new(),
        },
        available: true,
    };
    let group = ModelGroup { name: String::from(""), models: vec![entry] };
    ModelLibrary::load(vec![group])
}

#[test]
fn conversion_request_is_built_with_its_job() {
    let model = Model { name: String::from("voice_a") };
    let (song, proc) =
        RVCSong::new(model, metadata(), Some(-3), true, String::from("240101_000000"), 9)
            .expect("a source locator is present");
    assert_eq!(song.working_dir, "temp/rvc/240101_000000");
    assert_eq!(song.job, 9);
    assert_eq!(song.pitch, -3);
    assert!(song.export_mp3);
    assert_eq!(proc.working_dir, "temp/rvc/240101_000000");
    match &proc.state {
        RVCProcessorState::Wait(c) => {
            assert_eq!(c.working_dir, "temp/rvc/240101_000000");
            assert_eq!(c.source, "https://example.test/tune");
            assert_eq!(c.model, "voice_a");
            assert_eq!(c.pitch, -3);
            assert!(c.export_mp3);
        }
        _ => panic!("the job must wait with its command"),
    }
}

#[test]
fn missing_source_locator_is_rejected() {
    let model = Model { name: String::from("voice_a") };
    let md = SongMetadata { title: None, artist: None, source_url: None };
    let r = RVCSong::new(model, md, None, false, String::from("t"), 1);
    assert!(matches!(r, Err(SourceError::NoSourceUrl)));
}

#[test]
fn default_pitch_is_zero() {
    let model = Model { name: String::from("voice_a") };
    let (song, _) =
        RVCSong::new(model, metadata(), None, false, String::from("t"), 1).expect("built");
    assert_eq!(song.pitch, 0);
}

fn song() -> RVCSong {
    let model = Model { name: String::from("voice_a") };
    RVCSong::new(model, metadata(), None, false, String::from("t"), 4).expect("built").0
}

#[test]
fn artifact_paths_sit_inside_the_working_directory() {
    let s = song();
    assert_eq!(s.file(), "temp/rvc/t/mixdown.wav");
    assert_eq!(s.mp3(), "temp/rvc/t/mixdown.mp3");
}

#[test]
fn title_joins_model_and_source_title() {
    let s = song();
    let lib = library_with("voice_a", "Singer");
    assert_eq!(s.title(&lib, None), "Singer - Tune");
    assert_eq!(s.title(&lib, Some("ko")), "\u{ac00}\u{c218} - Tune");
    // A model missing from the catalog falls back to its raw name.
    let empty = ModelLibrary::load_or_warn(None);
    assert_eq!(s.title(&empty, None), "voice_a - Tune");
}

#[test]
fn canceled_conversion_resolves_to_quiet_non_playback() {
    let s = Source::RVC(song());
    let lib = ModelLibrary::load_or_warn(None);
    let r = s.get_input(Some(RVCProcessorResult::Canceled), false, &lib, None);
    assert!(matches!(r, Ok(InputResult::Canceled)));
}

#[test]
fn failed_conversion_resolves_to_an_error() {
    let s = Source::RVC(song());
    let lib = ModelLibrary::load_or_warn(None);
    let r = s.get_input(Some(RVCProcessorResult::Error), true, &lib, None);
    assert!(matches!(r, Err(SourceError::Conversion)));
}

#[test]
fn good_conversion_without_artifact_fails() {
    let s = Source::RVC(song());
    let lib = ModelLibrary::load_or_warn(None);
    let r = s.get_input(Some(RVCProcessorResult::Good), false, &lib, None);
    assert!(matches!(r, Err(SourceError::ArtifactMissing)));
}

#[test]
fn good_conversion_streams_its_artifact_with_a_known_title() {
    let s = Source::RVC(song());
    let lib = library_with("voice_a", "Singer");
    let r = s.get_input(Some(RVCProcessorResult::Good), true, &lib, None).expect("playable");
    match r {
        InputResult::Input(InputSource::File(path), Some(title)) => {
            assert_eq!(path, "temp/rvc/t/mixdown.wav");
            assert_eq!(title, "Singer - Tune");
        }
        _ => panic!("expected the artifact file and its title"),
    }
}

#[test]
fn request_names_its_backing_job() {
    let conversion = Request::new(Source::RVC(song()), 1, 2, 3, 4, None);
    assert_eq!(conversion.cancel(), Some(4));
    let chat = Request::new(Source::Chat(String::from("x")), 1, 2, 3, 4, None);
    assert_eq!(chat.cancel(), None);
    assert_eq!(chat.state, RequestState::Queue);
}

#[test]
fn request_state_indicators() {
    assert_eq!(RequestState::Unset.emoji(), None);
    assert_eq!(RequestState::Queue.emoji(), Some('\u{1F516}'));
    assert_eq!(RequestState::Playing.emoji(), Some('\u{1F3B5}'));
    assert_eq!(RequestState::Done.emoji(), Some('\u{2705}'));
    assert_eq!(RequestState::Canceled.emoji(), Some('\u{274C}'));
    assert_eq!(RequestState::Skipped.emoji(), Some('\u{1F4A9}'));
}

#[test]
fn request_set_state_replaces_only_the_state() {
    let mut r = Request::new(Source::Chat(String::from("x")), 1, 2, 3, 4, None);
    r.set_state(RequestState::Canceled);
    assert_eq!(r.state, RequestState::Canceled);
    assert_eq!(r.message_id, 4);
}

#[test]
fn decimal_rendering_is_exact() {
    assert_eq!(u64_to_string(0), "0");
    assert_eq!(u64_to_string(7), "7");
    assert_eq!(u64_to_string(1234567890123), "1234567890123");
    assert_eq!(i32_to_string(0), "0");
    assert_eq!(i32_to_string(-12), "-12");
    assert_eq!(i32_to_string(i32::MIN), "-2147483648");
    assert_eq!(i32_to_string(i32::MAX), "2147483647");
}

#[test]
fn decimal_parsing_is_exact() {
    assert_eq!(parse_i32("0"), Some(0));
    assert_eq!(parse_i32("007"), Some(7));
    assert_eq!(parse_i32("-12"), Some(-12));
    assert_eq!(parse_i32("2147483647"), Some(i32::MAX));
    assert_eq!(parse_i32("-2147483648"), Some(i32::MIN));
    assert_eq!(parse_i32("2147483648"), None);
    assert_eq!(parse_i32("-2147483649"), None);
    assert_eq!(parse_i32(""), None);
    assert_eq!(parse_i32("-"), None);
    assert_eq!(parse_i32("1x2"), None);
    assert_eq!(parse_i32("+4"), None);
    assert_eq!(parse_i32("99999999999999999999"), None);
}

#[test]
fn boolean_parsing_is_exact() {
    assert_eq!(parse_bool("true"), Some(true));
    assert_eq!(parse_bool("false"), Some(false));
    assert_eq!(parse_bool("True"), None);
    assert_eq!(parse_bool(""), None);
}
