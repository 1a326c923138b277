//! Playback requests: their source, their lifecycle state, and the
//! resolution of a source into something streamable.

use vstd::prelude::*;
use vstd::string::StringExecFns;
use crate::rvc::{ModelLibrary, RVCProcessorResult, RVCSong, spec_rvc_title};
use crate::text::{
    chars_of, contains_seq, contains_sub, find_char_from, find_char_spec, find_sub_from,
    find_sub_spec, string_from_range, strip_rep, strip_rep_from, subvec, trim_bounds, trim_of,
    join_seq, join_with,
};

verus! {

/// What is known about a source ahead of playback: its title and artist,
/// where they could be fetched, and the locator the conversion pipeline
/// downloads from.
pub struct SongMetadata {
    pub title: Option<String>,
    pub artist: Option<String>,
    pub source_url: Option<String>,
}

/// Why a source could not be resolved into a playable input.
#[derive(Clone, Copy, Debug, PartialEq, Eq, Structural)]
pub enum SourceError {
    /// The source's metadata carries no locator to feed the pipeline.
    NoSourceUrl,
    /// The conversion pipeline failed to produce its artifact.
    Conversion,
    /// The pipeline reported success but the artifact is missing.
    ArtifactMissing,
}

/// Classification of a request text: a link into the video platform, a
/// track on the music catalog (with the track identifier), or free text to
/// search for.
pub enum SongLinkType {
    Youtube,
    Spotify(String),
    Search,
}

/// The request text after trimming and after stripping every leading
/// repetition of the two scheme prefixes.
pub open spec fn link_rest(s: Seq<char>) -> Seq<char> {
    strip_rep(strip_rep(trim_of(s), "http://"@), "https://"@)
}

/// The first path segment of the stripped text: everything before the
/// first slash.
pub open spec fn link_domain(s: Seq<char>) -> Seq<char> {
    let r = link_rest(s);
    match find_char_spec(r, '/', 0) {
        Some(i) => r.subrange(0, i),
        None => r,
    }
}

/// The text names the video platform in its first path segment.
pub open spec fn is_youtube_link(s: Seq<char>) -> bool {
    contains_seq(link_domain(s), "youtube"@) || contains_seq(link_domain(s), "youtu.be"@)
}

/// The third path segment of the stripped text, where one starts: the
/// place a catalog link keeps its track identifier.
pub open spec fn track_segment(s: Seq<char>) -> Option<Seq<char>> {
    let r = link_rest(s);
    match find_char_spec(r, '/', 0) {
        None => None,
        Some(i) => match find_char_spec(r, '/', i + 1) {
            None => None,
            Some(j) => match find_char_spec(r, '/', j + 1) {
                None => Some(r.subrange(j + 1, r.len() as int)),
                Some(k) => Some(r.subrange(j + 1, k)),
            },
        },
    }
}

/// The track identifier of a catalog link: its third path segment, cut at
/// the first sharing suffix.
pub open spec fn spec_track_id(s: Seq<char>) -> Seq<char> {
    match track_segment(s) {
        Some(seg) => match find_sub_spec(seg, "?si="@, 0) {
            Some(p) => seg.subrange(0, p),
            None => seg,
        },
        None => Seq::empty(),
    }
}

/// The text is a catalog link: it is not a video-platform link, names the
/// music catalog in its first path segment, and has a track segment.
pub open spec fn is_spotify_link(s: Seq<char>) -> bool {
    &&& !is_youtube_link(s)
    &&& contains_seq(link_domain(s), "spotify"@)
    &&& track_segment(s) is Some
}

impl SongLinkType {
    /// Classifies a request text.  A text whose first path segment names
    /// the video platform is a direct link; otherwise one naming the music
    /// catalog and carrying a track segment is a catalog track; everything
    /// else is searched for as free text.
    pub fn new(s: &str) -> (r: SongLinkType)
        ensures
            r is Youtube <==> is_youtube_link(s@),
            r is Spotify <==> is_spotify_link(s@),
            r matches SongLinkType::Spotify(id) ==> id@ == spec_track_id(s@),
            r is Search <==> !is_youtube_link(s@) && !is_spotify_link(s@),
    {
        let v = chars_of(s);
        let bounds = trim_bounds(&v);
        let w = subvec(&v, bounds.0, bounds.1);
        proof {
            assert(w@ == trim_of(s@));
        }
        let http = chars_of("http://");
        let https = chars_of("https://");
        proof {
            reveal_strlit("http://");
            reveal_strlit("https://");
        }
        let a1 = strip_rep_from(&w, &http, 0);
        proof {
            assert(w@.skip(0) =~= w@);
        }
        let a2 = strip_rep_from(&w, &https, a1);
        let rest = subvec(&w, a2, w.len());
        proof {
            assert(w@.skip(a2 as int) =~= w@.subrange(a2 as int, w@.len() as int));
            assert(rest@ == link_rest(s@));
        }
        let slash = find_char_from(&rest, '/', 0);
        let domain = match slash {
            Some(i) => subvec(&rest, 0, i),
            None => subvec(&rest, 0, rest.len()),
        };
        proof {
            assert(rest@.subrange(0, rest@.len() as int) =~= rest@);
            assert(domain@ == link_domain(s@));
        }
        if contains_sub(&domain, &chars_of("youtube")) || contains_sub(
            &domain,
            &chars_of("youtu.be"),
        ) {
            return SongLinkType::Youtube;
        }
        if contains_sub(&domain, &chars_of("spotify")) {
            if let Some(i) = slash {
                if let Some(j) = find_char_from(&rest, '/', i + 1) {
                    let end = match find_char_from(&rest, '/', j + 1) {
                        Some(k) => k,
                        None => rest.len(),
                    };
                    let seg = subvec(&rest, j + 1, end);
                    proof {
                        assert(track_segment(s@) == Some(seg@));
                    }
                    let id_end = match find_sub_from(&seg, &chars_of("?si="), 0) {
                        Some(p) => p,
                        None => seg.len(),
                    };
                    proof {
                        assert(seg@.subrange(0, seg@.len() as int) =~= seg@);
                    }
                    return SongLinkType::Spotify(string_from_range(&seg, 0, id_end));
                }
            }
        }
        SongLinkType::Search
    }
}

/// Where a playback request came from: a plain chat text, or a
/// conversion-backed request with its job.
pub enum Source {
    Chat(String),
    RVC(RVCSong),
}

/// How the streamable input for a source is obtained: fetch a link
/// directly, search for free text, or look a catalog track up first and
/// then search for what it names.
#[derive(Debug)]
pub enum YoutubeQuery {
    Link(String),
    Search(String),
    SpotifyTrack(String),
}

/// The query a chat text resolves to, by its link classification.
pub open spec fn chat_query_ok(t: String, q: YoutubeQuery) -> bool {
    &&& (q is Link <==> is_youtube_link(t@))
    &&& (q matches YoutubeQuery::Link(u) ==> u == t)
    &&& (q is SpotifyTrack <==> is_spotify_link(t@))
    &&& (q matches YoutubeQuery::SpotifyTrack(id) ==> id@ == spec_track_id(t@))
    &&& (q is Search <==> !is_youtube_link(t@) && !is_spotify_link(t@))
    &&& (q matches YoutubeQuery::Search(u) ==> u == t)
}

/// The search text built for a looked-up catalog track: a music marker,
/// the artists joined by commas, and the track name.
pub open spec fn spec_spotify_search(artists: Seq<Seq<char>>, name: Seq<char>) -> Seq<char> {
    "music "@ + join_seq(artists, ", "@) + " - "@ + name
}

/// Builds the text searched for on behalf of a looked-up catalog track.
pub fn spotify_search_query(artists: &Vec<String>, name: &str) -> (r: String)
    ensures
        r@ == spec_spotify_search(artists@.map_values(|a: String| a@), name@),
{
    let mut r = String::from_str("music ");
    let joined = join_with(artists, ", ");
    r.append(joined.as_str());
    r.append(" - ");
    r.append(name);
    r
}

/// The title resolved for a fetched source: the artist (an override first,
/// else the fetched one) joined to the fetched title, the bare title
/// without an artist, nothing without a title.
pub open spec fn spec_youtubedl_title(md: SongMetadata, over: Option<String>) -> Option<Seq<char>> {
    let artist = if over is Some {
        over
    } else {
        md.artist
    };
    match md.title {
        Some(t) => match artist {
            Some(a) => Some(a@ + " - "@ + t@),
            None => Some(t@),
        },
        None => None,
    }
}

/// Resolves the display title of a fetched source from its metadata, with
/// an optional artist override.
pub fn youtubedl_title(md: &SongMetadata, over: Option<&String>) -> (r: Option<String>)
    ensures
        match r {
            Some(t) => spec_youtubedl_title(
                *md,
                match over {
                    Some(o) => Some(*o),
                    None => None,
                },
            ) == Some(t@),
            None => spec_youtubedl_title(
                *md,
                match over {
                    Some(o) => Some(*o),
                    None => None,
                },
            ) is None,
        },
{
    let title = match &md.title {
        Some(t) => t,
        None => {
            return None;
        },
    };
    let artist: Option<&String> = match over {
        Some(o) => Some(o),
        None => match &md.artist {
            Some(a) => Some(a),
            None => None,
        },
    };
    match artist {
        Some(a) => {
            let mut r = a.clone();
            r.append(" - ");
            r.append(title.as_str());
            Some(r)
        },
        None => Some(title.clone()),
    }
}

/// A resolved input: where to stream from and the title, where it is
/// already known; or the quiet signal that the backing conversion was
/// canceled and nothing is to be played.
pub enum InputResult {
    Input(InputSource, Option<String>),
    Canceled,
}

/// The streamable side of a resolved input: a platform query, or an
/// artifact file produced by a conversion job.
pub enum InputSource {
    Youtube(YoutubeQuery),
    File(String),
}

impl Source {
    /// The platform query this source streams through.  For a chat text,
    /// its link classification decides; a conversion-backed source is
    /// fetched again through its recorded locator.
    pub fn get_youtube(&self) -> (r: YoutubeQuery)
        requires
            self matches Source::RVC(g) ==> g.wf(),
        ensures
            self matches Source::Chat(t) ==> chat_query_ok(*t, r),
            self matches Source::RVC(g) ==> r == YoutubeQuery::Link(g.metadata.source_url->0),
    {
        match self {
            Source::Chat(t) => match SongLinkType::new(t.as_str()) {
                SongLinkType::Youtube => YoutubeQuery::Link(t.clone()),
                SongLinkType::Spotify(id) => YoutubeQuery::SpotifyTrack(id),
                SongLinkType::Search => YoutubeQuery::Search(t.clone()),
            },
            Source::RVC(g) => match &g.metadata.source_url {
                Some(u) => YoutubeQuery::Link(u.clone()),
                None => YoutubeQuery::Link(String::new()),  // unreachable under wf
            },
        }
    }

    /// Resolves this source into a playable input.  For a chat text the
    /// query is returned with the title left for a later fetch.  For a
    /// conversion-backed source, `conversion` is the job's awaited result
    /// and `artifact_exists` whether the primary artifact is on disk: a
    /// canceled job resolves to quiet non-playback, a failed one to a
    /// conversion error, a good one to its artifact — which must exist —
    /// under the title formed from the model and the source.
    pub fn get_input(
        &self,
        conversion: Option<RVCProcessorResult>,
        artifact_exists: bool,
        library: &ModelLibrary,
        locale: Option<&str>,
    ) -> (r: Result<InputResult, SourceError>)
        requires
            self matches Source::RVC(g) ==> g.wf() && conversion is Some,
        ensures
            self matches Source::Chat(t) ==> (r matches Ok(
                InputResult::Input(src, title),
            ) && title is None && (src matches InputSource::Youtube(q) && chat_query_ok(*t, q))),
            self matches Source::RVC(g) ==> match conversion->0 {
                RVCProcessorResult::Canceled => r == Ok::<InputResult, SourceError>(
                    InputResult::Canceled,
                ),
                RVCProcessorResult::Error => r == Err::<InputResult, SourceError>(
                    SourceError::Conversion,
                ),
                RVCProcessorResult::Good => {
                    if artifact_exists {
                        r matches Ok(InputResult::Input(src, title)) && (
                        src matches InputSource::File(f) && f@ == g.working_dir@
                            + "/mixdown.wav"@) && (title matches Some(t) && t@ == spec_rvc_title(
                            *g,
                            *library,
                            match locale {
                                Some(l) => Some(l@),
                                None => None,
                            },
                        ))
                    } else {
                        r == Err::<InputResult, SourceError>(SourceError::ArtifactMissing)
                    }
                },
            },
    {
        match self {
            Source::Chat(_) => {
                let q = self.get_youtube();
                Ok(InputResult::Input(InputSource::Youtube(q), None))
            },
            Source::RVC(g) => {
                match conversion {
                    Some(RVCProcessorResult::Canceled) => Ok(InputResult::Canceled),
                    Some(RVCProcessorResult::Error) => Err(SourceError::Conversion),
                    Some(RVCProcessorResult::Good) => {
                        if artifact_exists {
                            let title = g.title(library, locale);
                            Ok(InputResult::Input(InputSource::File(g.file()), Some(title)))
                        } else {
                            Err(SourceError::ArtifactMissing)
                        }
                    },
                    None => Err(SourceError::Conversion),  // unreachable: conversion is Some
                }
            },
        }
    }
}

/// Lifecycle state of a playback request: `Unset` before any marking,
/// then queued, playing and done.  Transitions are monotonic, except that
/// a queued or playing request may move directly to `Canceled`.
#[derive(Clone, Copy, Debug, PartialEq, Eq, Structural)]
pub enum RequestState {
    Unset,
    Queue,
    Playing,
    Done,
    Canceled,
    Skipped,
}

impl RequestState {
    /// The indicator shown on the origin message for this state.
    pub fn emoji(&self) -> (r: Option<char>)
        ensures
            r == (match self {
                RequestState::Unset => None::<char>,
                RequestState::Queue => Some('\u{1F516}'),
                RequestState::Playing => Some('\u{1F3B5}'),
                RequestState::Done => Some('\u{2705}'),
                RequestState::Canceled => Some('\u{274C}'),
                RequestState::Skipped => Some('\u{1F4A9}'),
            }),
    {
        match self {
            RequestState::Unset => None,
            RequestState::Queue => Some('\u{1F516}'),
            RequestState::Playing => Some('\u{1F3B5}'),
            RequestState::Done => Some('\u{2705}'),
            RequestState::Canceled => Some('\u{274C}'),
            RequestState::Skipped => Some('\u{1F4A9}'),
        }
    }
}

/// One playback request: its source, where it came from (room, author and
/// origin message), the requester's locale, and its lifecycle state.
pub struct Request {
    pub source: Source,
    pub guild_id: u64,
    pub author_id: u64,
    pub channel_id: u64,
    pub message_id: u64,
    pub locale: Option<String>,
    pub state: RequestState,
}

/// The request with its lifecycle state replaced.
pub open spec fn with_state(r: Request, s: RequestState) -> Request {
    Request { state: s, ..r }
}

/// The conversion job backing a request, where one does.
pub open spec fn job_of(r: Request) -> Option<u64> {
    match r.source {
        Source::RVC(g) => Some(g.job),
        Source::Chat(_) => None,
    }
}

impl Request {
    /// A fresh request, queued.
    pub fn new(
        source: Source,
        guild_id: u64,
        author_id: u64,
        channel_id: u64,
        message_id: u64,
        locale: Option<String>,
    ) -> (r: Request)
        ensures
            r == (Request {
                source,
                guild_id,
                author_id,
                channel_id,
                message_id,
                locale,
                state: RequestState::Queue,
            }),
    {
        Request {
            source,
            guild_id,
            author_id,
            channel_id,
            message_id,
            locale,
            state: RequestState::Queue,
        }
    }

    /// The conversion job to cancel along with this request, if one backs
    /// its source.
    pub fn cancel(&self) -> (j: Option<u64>)
        ensures
            j == job_of(*self),
    {
        match &self.source {
            Source::RVC(g) => Some(g.job),
            Source::Chat(_) => None,
        }
    }

    /// Marks the request.
    pub fn set_state(&mut self, s: RequestState)
        ensures
            *final(self) == with_state(*old(self), s),
    {
        self.state = s;
    }
}

/// The session's playback slot: a request waiting to resolve, or one
/// playing on a streaming track.
pub enum Now {
    Waiting { request: Request },
    Playing { track: u64, request: Request },
}

/// The request a slot holds.
pub open spec fn now_request(n: Now) -> Request {
    match n {
        Now::Waiting { request } => request,
        Now::Playing { track: _, request } => request,
    }
}

impl Now {
    /// The request this slot holds.
    pub fn request(&self) -> (r: &Request)
        ensures
            *r == now_request(*self),
    {
        match self {
            Now::Waiting { request } => request,
            Now::Playing { track: _, request } => request,
        }
    }
}

} // verus!
