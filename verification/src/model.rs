//! Playback state shared by the agent and the API: what is playing, the
//! agent's update payload, the API's response, and position extrapolation.
use vstd::prelude::*;

verus! {

/// A point in time: whole seconds since the Unix epoch plus a sub-second part
/// in nanoseconds (as `DateTime<Utc>::timestamp` and `timestamp_subsec_nanos` give them).
#[derive(Clone, Copy, Debug)]
pub struct Timestamp {
    pub secs: i64,
    pub nanos: u32,
}

impl Timestamp {
    /// The instant in nanoseconds since the epoch.
    pub open spec fn total_nanos(self) -> int {
        self.secs * 1_000_000_000 + self.nanos
    }
}

/// Whole seconds from `since` to `at`, rounded toward zero (what
/// `(at - since).num_seconds()` gives).
pub open spec fn whole_seconds_between(since: Timestamp, at: Timestamp) -> int {
    let d = at.total_nanos() - since.total_nanos();
    if d >= 0 {
        d / 1_000_000_000
    } else {
        -((-d) / 1_000_000_000)
    }
}

/// Canonical representation of the currently playing track.
#[derive(Debug)]
pub struct NowPlaying {
    pub track_name: String,
    pub artist_name: String,
    pub album_name: String,
    pub artwork_url: Option<String>,
    pub duration_seconds: Option<u32>,
    pub position_seconds: Option<u32>,
    pub is_playing: bool,
    pub listened_at: Timestamp,
}

/// Both records hold the same values.
pub open spec fn same_now_playing(a: NowPlaying, b: NowPlaying) -> bool {
    &&& a.track_name@ == b.track_name@
    &&& a.artist_name@ == b.artist_name@
    &&& a.album_name@ == b.album_name@
    &&& opt_string_view(a.artwork_url) == opt_string_view(b.artwork_url)
    &&& a.duration_seconds == b.duration_seconds
    &&& a.position_seconds == b.position_seconds
    &&& a.is_playing == b.is_playing
    &&& a.listened_at == b.listened_at
}

impl Clone for NowPlaying {
    fn clone(&self) -> (res: Self)
        ensures
            same_now_playing(res, *self),
    {
        NowPlaying {
            track_name: self.track_name.clone(),
            artist_name: self.artist_name.clone(),
            album_name: self.album_name.clone(),
            artwork_url: clone_opt_string(&self.artwork_url),
            duration_seconds: self.duration_seconds,
            position_seconds: self.position_seconds,
            is_playing: self.is_playing,
            listened_at: self.listened_at,
        }
    }
}

/// Payload sent by the menu bar agent when playback state changes.
#[derive(Clone, Debug)]
pub struct UpdateNowPlayingRequest {
    pub track_name: String,
    pub artist_name: String,
    pub album_name: String,
    pub artwork_url: Option<String>,
    pub artwork_base64: Option<String>,
    pub duration_seconds: Option<u32>,
    pub position_seconds: Option<u32>,
    pub is_playing: bool,
}

/// Public API response for the current playback state.
#[derive(Clone, Debug)]
pub struct GetNowPlayingResponse {
    pub track_name: String,
    pub artist_name: String,
    pub album_name: String,
    pub artwork_url: Option<String>,
    pub duration_seconds: Option<u32>,
    pub position_seconds: Option<u32>,
    pub is_playing: bool,
    pub listened_at: Timestamp,
}

pub open spec fn opt_string_view(o: Option<String>) -> Option<Seq<char>> {
    match o {
        Some(s) => Some(s@),
        None => None,
    }
}

/// Copies an optional string, keeping its contents.
pub fn clone_opt_string(o: &Option<String>) -> (res: Option<String>)
    ensures
        opt_string_view(res) == opt_string_view(*o),
{
    match o {
        Some(s) => Some(s.clone()),
        None => None,
    }
}

/// The record `update` becomes once the server stamps it with `at` and the
/// artwork URL it chose (`artwork_url`, else the one the agent sent).
pub open spec fn spec_now_playing_from_update(
    update: UpdateNowPlayingRequest,
    artwork_url: Option<Seq<char>>,
    at: Timestamp,
    res: NowPlaying,
) -> bool {
    &&& res.track_name@ == update.track_name@
    &&& res.artist_name@ == update.artist_name@
    &&& res.album_name@ == update.album_name@
    &&& opt_string_view(res.artwork_url) == (match artwork_url {
        Some(u) => Some(u),
        None => opt_string_view(update.artwork_url),
    })
    &&& res.duration_seconds == update.duration_seconds
    &&& res.position_seconds == update.position_seconds
    &&& res.is_playing == update.is_playing
    &&& res.listened_at == at
}

impl UpdateNowPlayingRequest {
    /// Merge incoming fields with the timestamp `at`.
    pub fn into_now_playing_at(self, artwork_url: Option<String>, at: Timestamp) -> (res: NowPlaying)
        ensures
            spec_now_playing_from_update(self, opt_string_view(artwork_url), at, res),
    {
        let url = match artwork_url {
            Some(u) => Some(u),
            None => self.artwork_url,
        };
        NowPlaying {
            track_name: self.track_name,
            artist_name: self.artist_name,
            album_name: self.album_name,
            artwork_url: url,
            duration_seconds: self.duration_seconds,
            position_seconds: self.position_seconds,
            is_playing: self.is_playing,
            listened_at: at,
        }
    }

    /// The update that reports `value` (no artwork attached).
    pub fn from_now_playing(value: NowPlaying) -> (res: UpdateNowPlayingRequest)
        ensures
            res.track_name@ == value.track_name@,
            res.artist_name@ == value.artist_name@,
            res.album_name@ == value.album_name@,
            opt_string_view(res.artwork_url) == opt_string_view(value.artwork_url),
            res.artwork_base64 is None,
            res.duration_seconds == value.duration_seconds,
            res.position_seconds == value.position_seconds,
            res.is_playing == value.is_playing,
    {
        UpdateNowPlayingRequest {
            track_name: value.track_name,
            artist_name: value.artist_name,
            album_name: value.album_name,
            artwork_url: value.artwork_url,
            artwork_base64: None,
            duration_seconds: value.duration_seconds,
            position_seconds: value.position_seconds,
            is_playing: value.is_playing,
        }
    }
}

impl GetNowPlayingResponse {
    /// The response that shows `value`, field for field.
    pub fn from_now_playing(value: NowPlaying) -> (res: GetNowPlayingResponse)
        ensures
            res.track_name@ == value.track_name@,
            res.artist_name@ == value.artist_name@,
            res.album_name@ == value.album_name@,
            opt_string_view(res.artwork_url) == opt_string_view(value.artwork_url),
            res.duration_seconds == value.duration_seconds,
            res.position_seconds == value.position_seconds,
            res.is_playing == value.is_playing,
            res.listened_at == value.listened_at,
    {
        GetNowPlayingResponse {
            track_name: value.track_name,
            artist_name: value.artist_name,
            album_name: value.album_name,
            artwork_url: value.artwork_url,
            duration_seconds: value.duration_seconds,
            position_seconds: value.position_seconds,
            is_playing: value.is_playing,
            listened_at: value.listened_at,
        }
    }
}

/// Seconds elapsed since `listened_at`, as the server computes them:
/// negative spans count as zero and the count is cut to 32 bits (`as u32`).
pub open spec fn elapsed_seconds_u32(now: NowPlaying, at: Timestamp) -> u32 {
    let e = whole_seconds_between(now.listened_at, at);
    if e <= 0 {
        0
    } else {
        (e % 0x1_0000_0000) as u32
    }
}

/// Playback position at `at`: the reported position, advanced by the time
/// elapsed while playing (saturating), and never past the duration when known.
pub open spec fn spec_extrapolated_position(now: NowPlaying, at: Timestamp) -> u32 {
    let base: u32 = match now.position_seconds {
        Some(p) => p,
        None => 0,
    };
    if !now.is_playing {
        base
    } else {
        let sum = base + elapsed_seconds_u32(now, at);
        let current: u32 = if sum > u32::MAX { u32::MAX } else { sum as u32 };
        match now.duration_seconds {
            Some(d) => if current < d { current } else { d },
            None => current,
        }
    }
}

/// Playback position at `at`, extrapolating from `listened_at` while the track is playing.
pub fn extrapolated_position_seconds(now: &NowPlaying, at: Timestamp) -> (res: u32)
    ensures
        res == spec_extrapolated_position(*now, at),
{
    let base: u32 = match now.position_seconds {
        Some(p) => p,
        None => 0,
    };
    if !now.is_playing {
        return base;
    }
    let d: i128 = (at.secs as i128 - now.listened_at.secs as i128) * 1_000_000_000i128
        + (at.nanos as i128 - now.listened_at.nanos as i128);
    let whole: i128 = if d >= 0 { d / 1_000_000_000i128 } else { -((-d) / 1_000_000_000i128) };
    assert(whole == whole_seconds_between(now.listened_at, at));
    let elapsed: u32 = if whole <= 0 { 0 } else { (whole % 0x1_0000_0000i128) as u32 };
    let current: u32 = base.saturating_add(elapsed);
    match now.duration_seconds {
        Some(duration) => if current < duration { current } else { duration },
        None => current,
    }
}

} // verus!

verus! {

/// A paused track stays where it was reported, whatever the time.
pub proof fn lemma_paused_position_frozen(now: NowPlaying, a: Timestamp, b: Timestamp)
    requires
        !now.is_playing,
    ensures
        spec_extrapolated_position(now, a) == spec_extrapolated_position(now, b),
{
}

/// While playing, the position never passes a known duration.
pub proof fn lemma_position_within_duration(now: NowPlaying, at: Timestamp)
    requires
        now.duration_seconds is Some,
        now.is_playing,
    ensures
        spec_extrapolated_position(now, at) <= now.duration_seconds->0,
{
}

/// While playing, the position does not go back as time goes on (for spans
/// shorter than 2^32 seconds, beyond which the count wraps as `as u32` cuts it).
pub proof fn lemma_position_monotone(now: NowPlaying, a: Timestamp, b: Timestamp)
    requires
        now.is_playing,
        a.total_nanos() <= b.total_nanos(),
        whole_seconds_between(now.listened_at, b) < 0x1_0000_0000,
    ensures
        spec_extrapolated_position(now, a) <= spec_extrapolated_position(now, b),
{
    let da = a.total_nanos() - now.listened_at.total_nanos();
    let db = b.total_nanos() - now.listened_at.total_nanos();
    assert(da <= db);
    if da >= 0 {
        assert(da / 1_000_000_000 <= db / 1_000_000_000) by (nonlinear_arith)
            requires 0 <= da <= db;
    }
    if db >= 0 && da < 0 {
        assert(db / 1_000_000_000 >= 0) by (nonlinear_arith)
            requires db >= 0;
    }
}

} // verus!
