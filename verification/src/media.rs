//! What is playing: the track model and the decisions taken on the media
//! sessions that Windows reports (which session to follow, when a session has
//! no usable track, how its timeline converts to seconds).
use vstd::prelude::*;
use crate::text::{
    chars_of, contains_seq, contains_spec, first_index, lemma_first_index_at, lowercase_spec,
    to_lowercase, trim_chars, trim_spec,
};

verus! {

/// Playback status of a media session.
#[derive(Debug, Clone, Copy, PartialEq, Eq, Structural)]
pub enum PlaybackState {
    Playing,
    Paused,
    Stopped,
    Other,
}

/// The track currently reported by a media session.
#[derive(Debug, Clone, PartialEq)]
pub struct TrackInfo {
    pub title: String,
    pub artist: String,
    pub album: String,
    pub state: PlaybackState,
    pub position_secs: u64,
    pub duration_secs: u64,
    pub app_id: String,
}

/// Lowercased text that names Apple Music (or iTunes): it mentions "apple"
/// and either "music" or "itunes".
pub open spec fn names_apple_music(lower: Seq<char>) -> bool {
    contains_spec(lower, "apple"@) && (contains_spec(lower, "music"@) || contains_spec(
        lower,
        "itunes"@,
    ))
}

/// An application ID names Apple Music once lowercased.
pub open spec fn is_apple_music_spec(app_id: Seq<char>) -> bool {
    names_apple_music(lowercase_spec(app_id))
}

/// Whether an already lowercased application ID names Apple Music.
pub fn names_apple_music_lowercase(lower: &str) -> (r: bool)
    ensures
        r == names_apple_music(lower@),
{
    let text = chars_of(lower);
    let apple = chars_of("apple");
    let music = chars_of("music");
    let itunes = chars_of("itunes");
    contains_seq(text.as_slice(), apple.as_slice()) && (contains_seq(
        text.as_slice(),
        music.as_slice(),
    ) || contains_seq(text.as_slice(), itunes.as_slice()))
}

/// Whether a media session's application is Apple Music.
pub fn is_apple_music_app(app_id: &str) -> (r: bool)
    ensures
        r == is_apple_music_spec(app_id@),
{
    let lower = to_lowercase(app_id);
    names_apple_music_lowercase(lower.as_str())
}

/// Which media session to read.
#[derive(Debug, Clone, Copy, PartialEq, Eq)]
pub enum SessionChoice {
    /// The listed session at this index.
    Listed(usize),
    /// The session Windows considers current.
    Current,
    /// None: no track is reported.
    NoSession,
}

/// A listed session belongs to Apple Music (`None` stands for a session whose
/// application could not be read).
pub open spec fn apple_music_session() -> spec_fn(Option<String>) -> bool {
    |id: Option<String>| id matches Some(x) && is_apple_music_spec(x@)
}

/// The session to follow: the first Apple Music session; without one, the
/// current session unless only Apple Music is wanted.
pub open spec fn session_choice_spec(app_ids: Seq<Option<String>>, apple_music_only: bool) -> SessionChoice {
    match first_index(app_ids, apple_music_session()) {
        Some(i) => SessionChoice::Listed(i as usize),
        None => if !apple_music_only {
            SessionChoice::Current
        } else {
            SessionChoice::NoSession
        },
    }
}

/// Chooses the media session to follow, given the application IDs of the
/// listed sessions in order.
pub fn choose_session(app_ids: &Vec<Option<String>>, apple_music_only: bool) -> (r: SessionChoice)
    ensures
        r == session_choice_spec(app_ids@, apple_music_only),
        r matches SessionChoice::Listed(i) ==> i < app_ids.len(),
{
    let ghost p = apple_music_session();
    let mut i: usize = 0;
    while i < app_ids.len()
        invariant
            p == apple_music_session(),
            i <= app_ids.len(),
            forall|j: int| 0 <= j < i ==> !#[trigger] p(app_ids@[j]),
        decreases app_ids.len() - i,
    {
        match &app_ids[i] {
            Some(id) => {
                if is_apple_music_app(id.as_str()) {
                    proof {
                        lemma_first_index_at(app_ids@, p, i as int);
                    }
                    return SessionChoice::Listed(i);
                }
            },
            None => {},
        }
        i += 1;
    }
    assert(first_index(app_ids@, p) is None);
    if !apple_music_only {
        SessionChoice::Current
    } else {
        SessionChoice::NoSession
    }
}

/// Ticks of 100 nanoseconds in one second.
pub const TICKS_PER_SECOND: i64 = 10_000_000;

/// Whole seconds in a timeline value given in 100 ns ticks, as the signed
/// division rounds (towards zero), then reinterpreted as unsigned.
pub fn ticks_to_secs(ticks: i64) -> (r: u64)
    ensures
        ticks >= 0 ==> r == ticks / TICKS_PER_SECOND,
        ticks < 0 ==> r == (-((-(ticks as int)) / (TICKS_PER_SECOND as int))) as u64,
{
    if ticks >= 0 {
        (ticks / TICKS_PER_SECOND) as u64
    } else {
        // `-i64::MIN` does not fit; its quotient equals that of `i64::MAX`
        let magnitude: i64 = if ticks == i64::MIN {
            assert((-(i64::MIN as int)) / (TICKS_PER_SECOND as int) == (i64::MAX as int) / (
            TICKS_PER_SECOND as int));
            i64::MAX / TICKS_PER_SECOND
        } else {
            (-ticks) / TICKS_PER_SECOND
        };
        assert(magnitude == (-(ticks as int)) / (TICKS_PER_SECOND as int));
        (0i64 - magnitude) as u64
    }
}

/// The track of a session: none when the title is blank.
pub fn track_from_properties(
    title: String,
    artist: String,
    album: String,
    state: PlaybackState,
    position_secs: u64,
    duration_secs: u64,
    app_id: String,
) -> (r: Option<TrackInfo>)
    ensures
        trim_spec(title@).len() == 0 ==> r is None,
        trim_spec(title@).len() > 0 ==> r == Some(
            TrackInfo { title, artist, album, state, position_secs, duration_secs, app_id },
        ),
{
    let trimmed = trim_chars(title.as_str());
    if trimmed.len() == 0 {
        None
    } else {
        Some(TrackInfo { title, artist, album, state, position_secs, duration_secs, app_id })
    }
}

} // verus!
