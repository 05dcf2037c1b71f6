//! The decisions of the polling loop: when the presence must be refreshed,
//! what activity a track shows (or that it hides the presence), the tray
//! status that goes with it, and how the polling interval is sliced.
use vstd::prelude::*;
use vstd::string::StringExecFns;
use crate::config::{format_listening_title, listening_title_spec, Config};
use crate::discord_ipc::{Activity, Assets, Button, Timestamps};
use crate::itunes::ItunesMetadata;
use crate::media::{PlaybackState, TrackInfo};
use crate::text::same_text;

verus! {

/// Activity type "Listening to".
pub const ACTIVITY_TYPE_LISTENING: u32 = 2;

/// Artwork shown when no album cover was found.
pub const FALLBACK_ARTWORK_URL: &'static str = "https://cdn.rcd.gg/PreMiD/websites/A/Apple%20Music/assets/logo.png";

/// Button target when the track's own page is unknown.
pub const APPLE_MUSIC_URL: &'static str = "https://music.apple.com";

/// Label of the button under the activity.
pub const LISTEN_BUTTON_LABEL: &'static str = "Listen on Apple Music";

/// Separator between artist and album in the activity state.
pub const ARTIST_ALBUM_SEPARATOR: &'static str = " — ";

/// Separator between title and artist in the tray status.
pub const TRAY_TITLE_SEPARATOR: &'static str = " - ";

/// Tray status before any track was seen.
pub const STATUS_WAITING: &'static str = "Waiting for Apple Music...";

/// Tray status when the presence is hidden for a paused or stopped track.
pub const STATUS_PAUSED: &'static str = "Music paused";

/// Tray status once playback has ended.
pub const STATUS_IDLE: &'static str = "Idle (no playback)";

/// Seconds after which the presence is sent again even if nothing changed.
pub const PRESENCE_REFRESH_SECS: u64 = 10;

/// A jump of the playing position by more than this many seconds counts as
/// a change (the user seeked).
pub const POSITION_JUMP_SECS: u64 = 5;

/// The polling wait is cut into slices of this many milliseconds, so that a
/// quit request is noticed quickly.
pub const POLL_SLICE_MS: u64 = 50;

/// Absolute difference of two positions.
pub open spec fn abs_diff_spec(a: u64, b: u64) -> int {
    if a >= b {
        a - b
    } else {
        b - a
    }
}

/// The track differs from the previous one in what the presence shows, or
/// its position jumped while playing.
pub open spec fn track_changed_spec(prev: Option<TrackInfo>, cur: TrackInfo) -> bool {
    match prev {
        None => true,
        Some(p) => {
            ||| p.title@ != cur.title@
            ||| p.artist@ != cur.artist@
            ||| p.album@ != cur.album@
            ||| p.state != cur.state
            ||| (abs_diff_spec(cur.position_secs, p.position_secs) > POSITION_JUMP_SECS
                && cur.state == PlaybackState::Playing)
        },
    }
}

/// Whether the presence must be sent again for `cur`, given the previous
/// poll's track and the seconds since the presence was last sent.
pub fn needs_refresh(prev: &Option<TrackInfo>, cur: &TrackInfo, secs_since_display: u64) -> (r:
    bool)
    ensures
        r == (track_changed_spec(*prev, *cur) || secs_since_display >= PRESENCE_REFRESH_SECS),
        prev is None ==> r,
        secs_since_display >= PRESENCE_REFRESH_SECS ==> r,
        prev matches Some(p) ==> (p.title@ != cur.title@ || p.artist@ != cur.artist@ || p.album@
            != cur.album@ || p.state != cur.state ==> r),
        prev matches Some(p) ==> (cur.state == PlaybackState::Playing && (cur.position_secs
            > p.position_secs + POSITION_JUMP_SECS || p.position_secs > cur.position_secs
            + POSITION_JUMP_SECS) ==> r),
        prev matches Some(p) ==> (p.title@ == cur.title@ && p.artist@ == cur.artist@ && p.album@
            == cur.album@ && p.state == cur.state && secs_since_display < PRESENCE_REFRESH_SECS
            && cur.position_secs <= p.position_secs + POSITION_JUMP_SECS && p.position_secs
            <= cur.position_secs + POSITION_JUMP_SECS ==> !r),
        prev matches Some(p) ==> (p.title@ == cur.title@ && p.artist@ == cur.artist@ && p.album@
            == cur.album@ && p.state == cur.state && secs_since_display < PRESENCE_REFRESH_SECS
            && cur.state != PlaybackState::Playing ==> !r),
{
    let changed = match prev {
        None => true,
        Some(p) => {
            let jump = if cur.position_secs >= p.position_secs {
                cur.position_secs - p.position_secs
            } else {
                p.position_secs - cur.position_secs
            };
            !same_text(p.title.as_str(), cur.title.as_str()) || !same_text(
                p.artist.as_str(),
                cur.artist.as_str(),
            ) || !same_text(p.album.as_str(), cur.album.as_str()) || p.state != cur.state || (
            jump > POSITION_JUMP_SECS && cur.state == PlaybackState::Playing)
        },
    };
    changed || secs_since_display >= PRESENCE_REFRESH_SECS
}

/// The distance between two positions does not depend on their order, and
/// exceeds a bound exactly when either position lies beyond the other by
/// more than that bound.
pub proof fn lemma_position_distance_symmetric(a: u64, b: u64, bound: u64)
    ensures
        abs_diff_spec(a, b) == abs_diff_spec(b, a),
        abs_diff_spec(a, b) >= 0,
        abs_diff_spec(a, b) > bound <==> (a > b + bound || b > a + bound),
{
}

/// For two polls of the same playing track (same title, artist, album and
/// state), the track counts as changed exactly when the position moved by
/// more than [`POSITION_JUMP_SECS`] forwards or backwards; swapping the two
/// positions never changes the decision.
pub proof fn lemma_seek_detection_symmetric(p: TrackInfo, c: TrackInfo)
    requires
        p.title@ == c.title@,
        p.artist@ == c.artist@,
        p.album@ == c.album@,
        p.state == c.state,
        c.state == PlaybackState::Playing,
    ensures
        track_changed_spec(Some(p), c) <==> (c.position_secs > p.position_secs
            + POSITION_JUMP_SECS || p.position_secs > c.position_secs + POSITION_JUMP_SECS),
        track_changed_spec(Some(p), c) == track_changed_spec(Some(c), p),
{
}

/// What a poll of the media sessions leads to.
#[derive(Debug, Clone, Copy, PartialEq, Eq)]
pub enum PollAction {
    /// Send the presence for the current track again.
    Refresh,
    /// Playback ended: clear the presence and show [`STATUS_IDLE`].
    ClearIdle,
    /// Nothing to do.
    Wait,
}

/// Decides on one poll, given the previous poll's track, the current one,
/// and the seconds since the presence was last sent: a track is refreshed
/// when it changed or the presence is due again; a track that disappears
/// clears the presence once.
pub fn poll_action(prev: &Option<TrackInfo>, cur: &Option<TrackInfo>, secs_since_display: u64) -> (r:
    PollAction)
    ensures
        cur matches Some(c) ==> r == (if track_changed_spec(*prev, *c) || secs_since_display
            >= PRESENCE_REFRESH_SECS {
            PollAction::Refresh
        } else {
            PollAction::Wait
        }),
        cur is None ==> r == (if prev is Some {
            PollAction::ClearIdle
        } else {
            PollAction::Wait
        }),
{
    match cur {
        Some(c) => if needs_refresh(prev, c, secs_since_display) {
            PollAction::Refresh
        } else {
            PollAction::Wait
        },
        None => if prev.is_some() {
            PollAction::ClearIdle
        } else {
            PollAction::Wait
        },
    }
}

/// The presence is shown while playing, and while paused if so configured.
pub open spec fn shows_presence_spec(state: PlaybackState, show_paused: bool) -> bool {
    state == PlaybackState::Playing || (state == PlaybackState::Paused && show_paused)
}

/// A playing track is always shown, whatever `show_paused` says; a paused
/// track is shown exactly when `show_paused` is set; a stopped track never
/// is. So `show_paused` changes the outcome for paused tracks only.
pub proof fn lemma_show_paused_only_affects_paused(state: PlaybackState, show_paused: bool)
    ensures
        state == PlaybackState::Playing ==> shows_presence_spec(state, show_paused),
        state == PlaybackState::Paused ==> (shows_presence_spec(state, show_paused)
            == show_paused),
        state != PlaybackState::Playing && state != PlaybackState::Paused ==> !shows_presence_spec(
            state,
            show_paused,
        ),
        state != PlaybackState::Paused ==> shows_presence_spec(state, true) == shows_presence_spec(
            state,
            false,
        ),
{
}

/// Start of the progress bar: now minus the position, not below zero.
pub open spec fn timeline_start(now_secs: u64, position_secs: u64) -> u64 {
    if now_secs >= position_secs {
        (now_secs - position_secs) as u64
    } else {
        0
    }
}

/// The progress bar is shown for a playing track of known duration.
pub open spec fn shows_timestamps(track: TrackInfo) -> bool {
    track.state == PlaybackState::Playing && track.duration_secs > 0
}

/// The end of the progress bar fits in a `u64`.
pub open spec fn timestamps_fit(track: TrackInfo, now_secs: u64) -> bool {
    shows_timestamps(track) ==> timeline_start(now_secs, track.position_secs) + track.duration_secs
        <= u64::MAX
}

/// The activity state line: "artist — album", or the artist alone.
pub open spec fn state_line_spec(artist: Seq<char>, album: Seq<char>) -> Seq<char> {
    if album.len() == 0 {
        artist
    } else {
        artist + ARTIST_ALBUM_SEPARATOR@ + album
    }
}

/// The large image: the album cover found, or the Apple Music logo.
pub open spec fn artwork_url_spec(meta: Option<ItunesMetadata>) -> Seq<char> {
    match meta {
        Some(m) => m.artwork_url@,
        None => FALLBACK_ARTWORK_URL@,
    }
}

/// The button's target: the track's page, or Apple Music.
pub open spec fn button_url_spec(meta: Option<ItunesMetadata>) -> Seq<char> {
    match meta {
        Some(m) => match m.track_url {
            Some(u) => u@,
            None => APPLE_MUSIC_URL@,
        },
        None => APPLE_MUSIC_URL@,
    }
}

/// What the presence does for a track.
#[derive(Debug, Clone)]
pub enum PresencePlan {
    /// Show this activity.
    Show(Activity),
    /// Hide the presence.
    Clear,
}

/// The activity shown for a track.
pub open spec fn activity_matches(
    a: Activity,
    track: TrackInfo,
    cfg: Config,
    meta: Option<ItunesMetadata>,
    now_secs: u64,
) -> bool {
    let playing = track.state == PlaybackState::Playing;
    &&& a.activity_type == Some(ACTIVITY_TYPE_LISTENING)
    &&& a.name matches Some(n) && n@ == listening_title_spec(track.title@)
    &&& a.details matches Some(d) && d@ == track.title@
    &&& a.state matches Some(s) && s@ == state_line_spec(track.artist@, track.album@)
    &&& (shows_timestamps(track) ==> a.timestamps == Some(
        Timestamps {
            start: Some(timeline_start(now_secs, track.position_secs)),
            end: Some(
                (timeline_start(now_secs, track.position_secs) + track.duration_secs) as u64,
            ),
        },
    ))
    &&& (!shows_timestamps(track) ==> a.timestamps is None)
    &&& a.assets matches Some(assets) && {
        &&& assets.large_image matches Some(li) && li@ == artwork_url_spec(meta)
        &&& assets.large_text matches Some(lt) && lt@ == (if track.album@.len() == 0 {
            track.title@
        } else {
            track.album@
        })
        &&& assets.small_image matches Some(si) && si@ == (if playing {
            "play"@
        } else {
            "pause"@
        })
        &&& assets.small_text matches Some(st) && st@ == (if playing {
            "Playing"@
        } else {
            "Paused"@
        })
    }
    &&& (cfg.enable_listen_button ==> (a.buttons matches Some(bs) && bs@.len() == 1
        && bs@[0].label@ == LISTEN_BUTTON_LABEL@ && bs@[0].url@ == button_url_spec(meta)))
    &&& (!cfg.enable_listen_button ==> a.buttons is None)
}

/// Decides what the presence shows for a track: nothing unless playing (or
/// paused, when paused tracks are shown); otherwise a "Listening to"
/// activity named after the track, with artist and album, a progress bar
/// while playing, the album cover (or the Apple Music logo) and, if enabled,
/// a button to the track's page.
pub fn plan_presence(
    track: &TrackInfo,
    cfg: &Config,
    meta: &Option<ItunesMetadata>,
    now_secs: u64,
) -> (r: PresencePlan)
    requires
        timestamps_fit(*track, now_secs),
    ensures
        !shows_presence_spec(track.state, cfg.show_paused) ==> r is Clear,
        shows_presence_spec(track.state, cfg.show_paused) ==> (r matches PresencePlan::Show(a)
            && activity_matches(a, *track, *cfg, *meta, now_secs)),
        track.state == PlaybackState::Playing ==> (r matches PresencePlan::Show(a)
            && activity_matches(a, *track, *cfg, *meta, now_secs)),
        track.state == PlaybackState::Paused ==> (r is Show <==> cfg.show_paused),
        track.state != PlaybackState::Playing && track.state != PlaybackState::Paused ==> r is Clear,
{
    broadcast use vstd::string::group_string_axioms;

    let playing = track.state == PlaybackState::Playing;
    let paused = track.state == PlaybackState::Paused;
    if !(playing || (paused && cfg.show_paused)) {
        return PresencePlan::Clear;
    }
    let name = format_listening_title(track.title.as_str());
    let details = track.title.clone();
    let state = if track.album.as_str().is_empty() {
        track.artist.clone()
    } else {
        let mut s = track.artist.clone();
        s.append(ARTIST_ALBUM_SEPARATOR);
        s.append(track.album.as_str());
        s
    };
    let timestamps = if playing && track.duration_secs > 0 {
        let start: u64 = if now_secs >= track.position_secs {
            now_secs - track.position_secs
        } else {
            0
        };
        let end: u64 = start + track.duration_secs;
        Some(Timestamps { start: Some(start), end: Some(end) })
    } else {
        None
    };
    let large_image = match meta {
        Some(m) => m.artwork_url.clone(),
        None => FALLBACK_ARTWORK_URL.to_string(),
    };
    let large_text = if track.album.as_str().is_empty() {
        track.title.clone()
    } else {
        track.album.clone()
    };
    let (small_image, small_text) = if playing {
        ("play".to_string(), "Playing".to_string())
    } else {
        ("pause".to_string(), "Paused".to_string())
    };
    let assets = Assets {
        large_image: Some(large_image),
        large_text: Some(large_text),
        small_image: Some(small_image),
        small_text: Some(small_text),
    };
    let buttons = if cfg.enable_listen_button {
        let url = match meta {
            Some(m) => match &m.track_url {
                Some(u) => u.clone(),
                None => APPLE_MUSIC_URL.to_string(),
            },
            None => APPLE_MUSIC_URL.to_string(),
        };
        let mut v: Vec<Button> = Vec::new();
        v.push(Button { label: LISTEN_BUTTON_LABEL.to_string(), url });
        Some(v)
    } else {
        None
    };
    PresencePlan::Show(
        Activity {
            activity_type: Some(ACTIVITY_TYPE_LISTENING),
            name: Some(name),
            details: Some(details),
            state: Some(state),
            timestamps,
            assets: Some(assets),
            buttons,
        },
    )
}

/// The tray status while a track is shown: "title - artist".
pub fn track_status(track: &TrackInfo) -> (r: String)
    ensures
        r@ == track.title@ + TRAY_TITLE_SEPARATOR@ + track.artist@,
{
    let mut s = track.title.clone();
    s.append(TRAY_TITLE_SEPARATOR);
    s.append(track.artist.as_str());
    s
}

/// Number of slices the polling wait is cut into: one per
/// [`POLL_SLICE_MS`], at least one.
pub fn poll_slices(poll_interval_ms: u64) -> (r: u64)
    ensures
        r == if poll_interval_ms / POLL_SLICE_MS >= 1 {
            poll_interval_ms / POLL_SLICE_MS
        } else {
            1
        },
        r >= 1,
{
    let n = poll_interval_ms / POLL_SLICE_MS;
    if n >= 1 {
        n
    } else {
        1
    }
}

} // verus!
