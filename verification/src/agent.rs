//! The menu bar agent's state and decisions: configuration and its checks,
//! the preferences form, change detection between polls, status labels and
//! the update it sends.
use vstd::prelude::*;
use vstd::std_specs::cmp::PartialEqSpecImpl;

use crate::encoding::{base64_decoded, base64_encode, is_base64_char};
use crate::model::{opt_string_view, NowPlaying, UpdateNowPlayingRequest};
use crate::music::TrackArtwork;
use crate::text::{chars_of, decimal, decimal_string, parse_u64, parse_u64_spec, trim_spec};

verus! {

/// Lightweight view of playback state used for change detection between poll cycles.
#[derive(Clone, Debug)]
pub struct PlaybackSnapshot {
    pub track_name: String,
    pub artist_name: String,
    pub album_name: String,
    pub is_playing: bool,
}

/// Both snapshots name the same track in the same play state.
pub open spec fn same_snapshot(a: PlaybackSnapshot, b: PlaybackSnapshot) -> bool {
    &&& a.track_name@ == b.track_name@
    &&& a.artist_name@ == b.artist_name@
    &&& a.album_name@ == b.album_name@
    &&& a.is_playing == b.is_playing
}

impl PartialEq for PlaybackSnapshot {
    fn eq(&self, other: &Self) -> (res: bool) {
        self.track_name == other.track_name && self.artist_name == other.artist_name
            && self.album_name == other.album_name && self.is_playing == other.is_playing
    }
}

impl PartialEqSpecImpl for PlaybackSnapshot {
    open spec fn obeys_eq_spec() -> bool {
        true
    }

    open spec fn eq_spec(&self, other: &Self) -> bool {
        same_snapshot(*self, *other)
    }
}

/// Snapshot of a poll result: the playing track, or the empty snapshot.
pub open spec fn spec_snapshot_of(track: Option<NowPlaying>, res: PlaybackSnapshot) -> bool {
    match track {
        Some(np) => res.track_name@ == np.track_name@ && res.artist_name@ == np.artist_name@
            && res.album_name@ == np.album_name@ && res.is_playing == np.is_playing,
        None => res.track_name@.len() == 0 && res.artist_name@.len() == 0
            && res.album_name@.len() == 0 && !res.is_playing,
    }
}

impl PlaybackSnapshot {
    pub fn empty() -> (res: Self)
        ensures
            spec_snapshot_of(None, res),
    {
        PlaybackSnapshot {
            track_name: String::new(),
            artist_name: String::new(),
            album_name: String::new(),
            is_playing: false,
        }
    }

    /// The snapshot of a poll result: track identity and play state.
    pub fn from_track(track: Option<&NowPlaying>) -> (res: Self)
        ensures
            spec_snapshot_of(
                match track {
                    Some(t) => Some(*t),
                    None => None,
                },
                res,
            ),
    {
        match track {
            Some(now_playing) => PlaybackSnapshot {
                track_name: now_playing.track_name.clone(),
                artist_name: now_playing.artist_name.clone(),
                album_name: now_playing.album_name.clone(),
                is_playing: now_playing.is_playing,
            },
            None => Self::empty(),
        }
    }

    /// Returns true when track identity or play/pause state changed.
    pub fn has_changed(&self, other: &Self) -> (res: bool)
        ensures
            res == !same_snapshot(*self, *other),
    {
        !(self.track_name == other.track_name && self.artist_name == other.artist_name
            && self.album_name == other.album_name && self.is_playing == other.is_playing)
    }
}

/// The snapshot to post after a poll, if any: nothing when the player could
/// not be read (`polled` is `None`) or when its state (`Some(track)`) is the
/// one last posted, `previous`; otherwise the new state's snapshot.
pub fn sync_decision(previous: &PlaybackSnapshot, polled: Option<Option<&NowPlaying>>) -> (res:
    Option<PlaybackSnapshot>)
    ensures
        match polled {
            None => res is None,
            Some(track) => {
                let t = match track {
                    Some(np) => Some(*np),
                    None => None,
                };
                match res {
                    None => spec_snapshot_of(t, *previous),
                    Some(next) => spec_snapshot_of(t, next) && !same_snapshot(*previous, next),
                }
            },
        },
{
    match polled {
        None => None,
        Some(track) => {
            let next = PlaybackSnapshot::from_track(track);
            if previous.has_changed(&next) {
                Some(next)
            } else {
                proof {
                    if track is None {
                        assert(previous.track_name@ =~= next.track_name@);
                    }
                }
                None
            }
        },
    }
}

/// Records the outcome of posting `next`: the last posted state advances to
/// `next` only when the post went through.
pub fn after_post(previous: &mut PlaybackSnapshot, next: PlaybackSnapshot, posted: bool)
    ensures
        posted ==> *final(previous) == next,
        !posted ==> *final(previous) == *old(previous),
{
    if posted {
        *previous = next;
    }
}

/// Outcome of one poll cycle.
pub enum CycleOutcome {
    /// Nothing was posted (the player could not be read, or nothing changed).
    NothingSent,
    /// The update was posted.
    Sent,
    /// Posting failed with this message.
    Failed(String),
}

/// Status after a poll cycle: idle when nothing was sent, the track just
/// posted (`previous`, already advanced) after a post, the error otherwise.
pub fn cycle_status(outcome: CycleOutcome, previous: &PlaybackSnapshot) -> (res: AgentStatus)
    ensures
        match outcome {
            CycleOutcome::NothingSent => res matches AgentStatus::Idle,
            CycleOutcome::Sent => res matches AgentStatus::LastTrack(label) && label@
                == spec_sent_label(*previous),
            CycleOutcome::Failed(m) => res matches AgentStatus::Error(e) && e@ == m@,
        },
{
    match outcome {
        CycleOutcome::NothingSent => AgentStatus::Idle,
        CycleOutcome::Sent => AgentStatus::after_update(previous),
        CycleOutcome::Failed(m) => AgentStatus::Error(m),
    }
}

/// A poll that finds the state already sent sends nothing: a snapshot has
/// not changed with respect to itself or to an equal one.
pub proof fn lemma_unchanged_state_is_not_resent(
    a: PlaybackSnapshot,
    b: PlaybackSnapshot,
    track: Option<NowPlaying>,
)
    requires
        spec_snapshot_of(track, a),
        spec_snapshot_of(track, b),
    ensures
        same_snapshot(a, b),
{
    if track is None {
        assert(a.track_name@ =~= b.track_name@);
        assert(a.artist_name@ =~= b.artist_name@);
        assert(a.album_name@ =~= b.album_name@);
    }
}

/// Status shown in the menu bar.
#[derive(Clone, Debug)]
pub enum AgentStatus {
    Idle,
    Syncing,
    LastTrack(String),
    Error(String),
}

pub open spec fn spec_menu_label(status: AgentStatus) -> Seq<char> {
    match status {
        AgentStatus::Idle => "Status: Idle"@,
        AgentStatus::Syncing => "Status: Syncing\u{2026}"@,
        AgentStatus::LastTrack(track) => "Status: "@ + track@,
        AgentStatus::Error(message) => "Status: Error \u{2014} "@ + message@,
    }
}

/// Label of the status entry after an update was sent for `sent`.
pub open spec fn spec_sent_label(sent: PlaybackSnapshot) -> Seq<char> {
    if sent.track_name@.len() == 0 {
        "Nothing playing"@
    } else {
        sent.track_name@ + " \u{2014} "@ + sent.artist_name@
    }
}

impl AgentStatus {
    pub fn menu_label(&self) -> (res: String)
        ensures
            res@ == spec_menu_label(*self),
    {
        match self {
            AgentStatus::Idle => String::from_str("Status: Idle"),
            AgentStatus::Syncing => String::from_str("Status: Syncing\u{2026}"),
            AgentStatus::LastTrack(track) => {
                let mut s = String::from_str("Status: ");
                s.append(track.as_str());
                s
            },
            AgentStatus::Error(message) => {
                let mut s = String::from_str("Status: Error \u{2014} ");
                s.append(message.as_str());
                s
            },
        }
    }

    /// Status after an update for `sent` was delivered: the track and artist,
    /// or "Nothing playing".
    pub fn after_update(sent: &PlaybackSnapshot) -> (res: AgentStatus)
        ensures
            res matches AgentStatus::LastTrack(label) && label@ == spec_sent_label(*sent),
    {
        if sent.track_name.as_str().is_empty() {
            AgentStatus::LastTrack(String::from_str("Nothing playing"))
        } else {
            let mut label = sent.track_name.clone();
            label.append(" \u{2014} ");
            label.append(sent.artist_name.as_str());
            AgentStatus::LastTrack(label)
        }
    }
}

/// Label of the login menu entry: what choosing it will do.
pub open spec fn spec_login_menu_label(enabled: bool) -> Seq<char> {
    if enabled {
        "Disable at Login"@
    } else {
        "Enable at Login"@
    }
}

pub fn login_menu_label(enabled: bool) -> (res: &'static str)
    ensures
        res@ == spec_login_menu_label(enabled),
{
    if enabled {
        "Disable at Login"
    } else {
        "Enable at Login"
    }
}

} // verus!

verus! {

/// The duration of `secs` whole seconds, as `std::time::Duration::from_secs`
/// builds it.
pub uninterp spec fn secs_duration(secs: u64) -> std::time::Duration;

/// `std::time::Duration::from_secs`. Claimed: the result is `secs_duration`
/// of the argument (the constructor is a pure function of the seconds); the
/// duration itself stays opaque here.
#[verifier::external_body]
fn duration_from_secs(secs: u64) -> (res: std::time::Duration)
    ensures
        res == secs_duration(secs),
{
    std::time::Duration::from_secs(secs)
}

/// Agent configuration: where to post, with which token, how often.
#[derive(Clone, Debug)]
pub struct AgentConfig {
    pub api_base_url: String,
    pub auth_token: String,
    pub poll_interval_secs: u64,
}

/// Why a configuration was refused.
#[derive(Clone, Copy, Debug, PartialEq, Eq)]
pub enum ConfigError {
    /// `NOW_PLAYING_TOKEN` is not set.
    MissingToken,
    /// The auth token is empty or only whitespace.
    EmptyAuthToken,
    /// The poll interval is outside 2..=5 seconds.
    PollIntervalOutOfRange,
    /// The poll interval typed in the preferences is not a number.
    PollIntervalNotNumber,
}

pub open spec fn spec_config_error_message(e: ConfigError) -> Seq<char> {
    match e {
        ConfigError::MissingToken => "NOW_PLAYING_TOKEN must be set in the environment"@,
        ConfigError::EmptyAuthToken => "auth token must not be empty"@,
        ConfigError::PollIntervalOutOfRange => "poll_interval_secs must be between 2 and 5"@,
        ConfigError::PollIntervalNotNumber => "poll interval must be a number"@,
    }
}

impl ConfigError {
    pub fn message(&self) -> (res: String)
        ensures
            res@ == spec_config_error_message(*self),
    {
        match self {
            ConfigError::MissingToken => String::from_str("NOW_PLAYING_TOKEN must be set in the environment"),
            ConfigError::EmptyAuthToken => String::from_str("auth token must not be empty"),
            ConfigError::PollIntervalOutOfRange => String::from_str("poll_interval_secs must be between 2 and 5"),
            ConfigError::PollIntervalNotNumber => String::from_str("poll interval must be a number"),
        }
    }
}

/// Default API address of the agent.
pub const DEFAULT_API_BASE_URL: &'static str = "http://localhost:3000";

/// Default poll interval in seconds.
pub const DEFAULT_POLL_INTERVAL_SECS: u64 = 3;

/// Poll intervals the agent accepts: 2 to 5 seconds.
pub open spec fn poll_interval_ok(secs: u64) -> bool {
    2 <= secs && secs <= 5
}

/// A configuration the agent can run with: a token that is not blank and
/// an accepted poll interval.
pub open spec fn spec_config_valid(config: AgentConfig) -> bool {
    trim_spec(config.auth_token@).len() > 0 && poll_interval_ok(config.poll_interval_secs)
}

/// What `validate` answers: blank tokens first, then the interval.
pub open spec fn spec_validate(config: AgentConfig) -> Result<(), ConfigError> {
    if trim_spec(config.auth_token@).len() == 0 {
        Err(ConfigError::EmptyAuthToken)
    } else if !poll_interval_ok(config.poll_interval_secs) {
        Err(ConfigError::PollIntervalOutOfRange)
    } else {
        Ok(())
    }
}

/// Configuration from the environment's values (each `None` when unset):
/// the default URL when none is given, a token that must be given, and the
/// interval parsed as a number (the default when unset or not a number),
/// which must be in range.
pub open spec fn spec_config_from_env(
    api_base_url: Option<Seq<char>>,
    auth_token: Option<Seq<char>>,
    poll_interval: Option<Seq<char>>,
    res: Result<AgentConfig, ConfigError>,
) -> bool {
    let url = match api_base_url {
        Some(u) => u,
        None => DEFAULT_API_BASE_URL@,
    };
    let secs: u64 = match poll_interval {
        Some(p) => match parse_u64_spec(p) {
            Some(v) => v,
            None => DEFAULT_POLL_INTERVAL_SECS,
        },
        None => DEFAULT_POLL_INTERVAL_SECS,
    };
    match auth_token {
        None => res == Err::<AgentConfig, ConfigError>(ConfigError::MissingToken),
        Some(token) => if !poll_interval_ok(secs) {
            res == Err::<AgentConfig, ConfigError>(ConfigError::PollIntervalOutOfRange)
        } else {
            res matches Ok(c) && c.api_base_url@ == url && c.auth_token@ == token
                && c.poll_interval_secs == secs
        },
    }
}

impl AgentConfig {
    /// Configuration from the values of `API_BASE_URL`, `NOW_PLAYING_TOKEN`
    /// and `POLL_INTERVAL_SECS` as read from the environment.
    pub fn from_env_values(
        api_base_url: Option<String>,
        auth_token: Option<String>,
        poll_interval: Option<String>,
    ) -> (res: Result<AgentConfig, ConfigError>)
        ensures
            spec_config_from_env(
                opt_string_view(api_base_url),
                opt_string_view(auth_token),
                opt_string_view(poll_interval),
                res,
            ),
    {
        let api_base_url = match api_base_url {
            Some(u) => u,
            None => String::from_str(DEFAULT_API_BASE_URL),
        };
        let auth_token = match auth_token {
            Some(t) => t,
            None => return Err(ConfigError::MissingToken),
        };
        let requested: u64 = match poll_interval {
            Some(p) => match parse_u64(p.as_str()) {
                Some(v) => v,
                None => DEFAULT_POLL_INTERVAL_SECS,
            },
            None => DEFAULT_POLL_INTERVAL_SECS,
        };
        let poll_interval_secs = match Self::parse_poll_interval(requested) {
            Ok(v) => v,
            Err(e) => return Err(e),
        };
        Ok(AgentConfig { api_base_url, auth_token, poll_interval_secs })
    }

    pub fn default_template() -> (res: Self)
        ensures
            res.api_base_url@ == DEFAULT_API_BASE_URL@,
            res.auth_token@.len() == 0,
            res.poll_interval_secs == DEFAULT_POLL_INTERVAL_SECS,
    {
        AgentConfig {
            api_base_url: String::from_str(DEFAULT_API_BASE_URL),
            auth_token: String::new(),
            poll_interval_secs: DEFAULT_POLL_INTERVAL_SECS,
        }
    }

    /// How long the agent waits between polls: `poll_interval_secs` seconds.
    pub fn poll_interval(&self) -> (res: std::time::Duration)
        ensures
            res == secs_duration(self.poll_interval_secs),
    {
        duration_from_secs(self.poll_interval_secs)
    }

    pub fn validate(&self) -> (res: Result<(), ConfigError>)
        ensures
            res == spec_validate(*self),
            res is Ok <==> spec_config_valid(*self),
    {
        if self.auth_token.as_str().trim().is_empty() {
            return Err(ConfigError::EmptyAuthToken);
        }
        match Self::parse_poll_interval(self.poll_interval_secs) {
            Ok(_) => Ok(()),
            Err(e) => Err(e),
        }
    }

    pub fn parse_poll_interval(poll_interval_secs: u64) -> (res: Result<u64, ConfigError>)
        ensures
            poll_interval_ok(poll_interval_secs) ==> res == Ok::<u64, ConfigError>(poll_interval_secs),
            !poll_interval_ok(poll_interval_secs) ==> res == Err::<u64, ConfigError>(ConfigError::PollIntervalOutOfRange),
    {
        if !(2 <= poll_interval_secs && poll_interval_secs <= 5) {
            return Err(ConfigError::PollIntervalOutOfRange);
        }
        Ok(poll_interval_secs)
    }

    /// Whether a poll tick may go ahead: without a token the tick is skipped
    /// and the status asks for one.
    pub fn ready_to_poll(&self) -> (res: Result<(), AgentStatus>)
        ensures
            self.auth_token@.len() > 0 ==> res is Ok,
            self.auth_token@.len() == 0 ==> (res matches Err(AgentStatus::Error(m)) && m@
                == "Configure auth token in Preferences"@),
    {
        if self.auth_token.as_str().is_empty() {
            Err(AgentStatus::Error(String::from_str("Configure auth token in Preferences")))
        } else {
            Ok(())
        }
    }
}

} // verus!

verus! {

/// The preferences form: the fields as typed, the messages shown and
/// whether the window is open.
#[derive(Clone, Debug)]
pub struct PreferencesState {
    pub api_base_url: String,
    pub auth_token: String,
    pub poll_interval_secs: String,
    pub validation_error: Option<String>,
    pub saved_message: Option<String>,
    pub visible: bool,
}

/// Button the user pressed in the preferences window.
#[derive(Clone, Copy, Debug, PartialEq, Eq)]
pub enum PreferencesAction {
    /// No button was pressed this frame.
    NoAction,
    Save,
    Cancel,
}

/// What became of a configuration the form produced.
#[derive(Clone, Debug)]
pub enum SaveOutcome {
    /// Written to disk and handed to the agent.
    Saved,
    /// Writing the file failed with this message.
    StoreFailed(String),
    /// Written, but the agent no longer listens.
    AgentStopped,
}

/// The form filled from `config`, closed and without messages.
pub open spec fn spec_form_of(config: AgentConfig, p: PreferencesState) -> bool {
    &&& p.api_base_url@ == config.api_base_url@
    &&& p.auth_token@ == config.auth_token@
    &&& p.poll_interval_secs@ == decimal(config.poll_interval_secs as nat)
    &&& p.validation_error is None
    &&& p.saved_message is None
    &&& !p.visible
}

/// What the form gives: the interval must be a number, the URL and token
/// are trimmed, and the result must pass `validate`.
pub open spec fn spec_build_config(p: PreferencesState, res: Result<AgentConfig, ConfigError>) -> bool {
    match parse_u64_spec(trim_spec(p.poll_interval_secs@)) {
        None => res == Err::<AgentConfig, ConfigError>(ConfigError::PollIntervalNotNumber),
        Some(secs) => {
            let candidate_token = trim_spec(p.auth_token@);
            if trim_spec(candidate_token).len() == 0 {
                res == Err::<AgentConfig, ConfigError>(ConfigError::EmptyAuthToken)
            } else if !poll_interval_ok(secs) {
                res == Err::<AgentConfig, ConfigError>(ConfigError::PollIntervalOutOfRange)
            } else {
                res matches Ok(c) && c.api_base_url@ == trim_spec(p.api_base_url@) && c.auth_token@
                    == candidate_token && c.poll_interval_secs == secs
            }
        },
    }
}

impl PreferencesState {
    pub fn from_config(config: &AgentConfig) -> (res: Self)
        ensures
            spec_form_of(*config, res),
    {
        PreferencesState {
            api_base_url: config.api_base_url.clone(),
            auth_token: config.auth_token.clone(),
            poll_interval_secs: decimal_string(config.poll_interval_secs),
            validation_error: None,
            saved_message: None,
            visible: false,
        }
    }

    /// Opens the window on a fresh copy of `config`.
    pub fn open(&mut self, config: &AgentConfig)
        ensures
            final(self).api_base_url@ == config.api_base_url@,
            final(self).auth_token@ == config.auth_token@,
            final(self).poll_interval_secs@ == decimal(config.poll_interval_secs as nat),
            final(self).validation_error is None,
            final(self).saved_message is None,
            final(self).visible,
    {
        *self = Self::from_config(config);
        self.visible = true;
    }

    /// Closes the window and clears its messages; the fields stay as typed.
    pub fn close(&mut self)
        ensures
            final(self).api_base_url == old(self).api_base_url,
            final(self).auth_token == old(self).auth_token,
            final(self).poll_interval_secs == old(self).poll_interval_secs,
            !final(self).visible,
            final(self).validation_error is None,
            final(self).saved_message is None,
    {
        self.visible = false;
        self.validation_error = None;
        self.saved_message = None;
    }

    pub fn build_config(&self) -> (res: Result<AgentConfig, ConfigError>)
        ensures
            spec_build_config(*self, res),
    {
        let poll_interval_secs: u64 = match parse_u64(self.poll_interval_secs.as_str().trim()) {
            Some(v) => v,
            None => return Err(ConfigError::PollIntervalNotNumber),
        };
        let config = AgentConfig {
            api_base_url: self.api_base_url.as_str().trim().to_owned(),
            auth_token: self.auth_token.as_str().trim().to_owned(),
            poll_interval_secs,
        };
        match config.validate() {
            Ok(()) => Ok(config),
            Err(e) => Err(e),
        }
    }

    /// Shows what became of pressing Save: the refusal, the store error,
    /// a stopped agent, or "Settings saved".
    pub fn apply_save_result(&mut self, built: Result<(), ConfigError>, outcome: SaveOutcome)
        ensures
            final(self).api_base_url == old(self).api_base_url,
            final(self).auth_token == old(self).auth_token,
            final(self).poll_interval_secs == old(self).poll_interval_secs,
            final(self).visible == old(self).visible,
            match built {
                Err(e) => final(self).validation_error matches Some(m) && m@
                    == spec_config_error_message(e) && final(self).saved_message
                    == old(self).saved_message,
                Ok(()) => match outcome {
                    SaveOutcome::StoreFailed(msg) => final(self).validation_error matches Some(m)
                        && m@ == msg@ && final(self).saved_message == old(self).saved_message,
                    SaveOutcome::AgentStopped => final(self).validation_error matches Some(m)
                        && m@ == "Agent is not running"@ && final(self).saved_message
                        == old(self).saved_message,
                    SaveOutcome::Saved => final(self).validation_error is None
                        && (final(self).saved_message matches Some(m) && m@ == "Settings saved"@),
                },
            },
    {
        match built {
            Err(e) => {
                self.validation_error = Some(e.message());
            },
            Ok(()) => match outcome {
                SaveOutcome::StoreFailed(msg) => {
                    self.validation_error = Some(msg);
                },
                SaveOutcome::AgentStopped => {
                    self.validation_error = Some(String::from_str("Agent is not running"));
                },
                SaveOutcome::Saved => {
                    self.validation_error = None;
                    self.saved_message = Some(String::from_str("Settings saved"));
                },
            },
        }
    }
}

} // verus!

verus! {

/// The update the agent sends for a poll result: the track's fields with its
/// artwork in base64, or an empty update when nothing plays.
pub open spec fn spec_update_request(
    track: Option<NowPlaying>,
    artwork: Option<TrackArtwork>,
    res: UpdateNowPlayingRequest,
) -> bool {
    match track {
        Some(np) => {
            &&& res.track_name@ == np.track_name@
            &&& res.artist_name@ == np.artist_name@
            &&& res.album_name@ == np.album_name@
            &&& opt_string_view(res.artwork_url) == opt_string_view(np.artwork_url)
            &&& res.duration_seconds == np.duration_seconds
            &&& res.position_seconds == np.position_seconds
            &&& res.is_playing == np.is_playing
            &&& match artwork {
                Some(a) => res.artwork_base64 matches Some(t) && t@
                    == crate::encoding::base64_encoded(a.bytes@),
                None => res.artwork_base64 is None,
            }
        },
        None => {
            &&& res.track_name@.len() == 0
            &&& res.artist_name@.len() == 0
            &&& res.album_name@.len() == 0
            &&& res.artwork_url is None
            &&& res.artwork_base64 is None
            &&& res.duration_seconds is None
            &&& res.position_seconds is None
            &&& !res.is_playing
        },
    }
}

/// Artwork small enough for base64 to encode.
pub open spec fn track_artwork_fits(artwork: Option<TrackArtwork>) -> bool {
    artwork matches Some(a) ==> a.bytes@.len() <= usize::MAX / 2
}

/// The update to send for `track`; `artwork` is what the provider returned
/// for it (`None` when it had none or failed).
pub fn build_update_request(track: Option<&NowPlaying>, artwork: Option<TrackArtwork>) -> (res:
    UpdateNowPlayingRequest)
    requires
        track_artwork_fits(artwork),
    ensures
        spec_update_request(
            match track {
                Some(t) => Some(*t),
                None => None,
            },
            artwork,
            res,
        ),
        res.artwork_base64 matches Some(t) ==> (artwork matches Some(a) && base64_decoded(t@)
            == Some(a.bytes@) && forall|i: int| 0 <= i < t@.len() ==> is_base64_char(#[trigger] t@[i])),
{
    match track {
        Some(now_playing) => {
            let mut request = UpdateNowPlayingRequest::from_now_playing(now_playing.clone());
            request.artwork_base64 = match artwork {
                Some(art) => Some(base64_encode(art.bytes.as_slice())),
                None => None,
            };
            request
        },
        None => UpdateNowPlayingRequest {
            track_name: String::new(),
            artist_name: String::new(),
            album_name: String::new(),
            artwork_url: None,
            artwork_base64: None,
            duration_seconds: None,
            position_seconds: None,
            is_playing: false,
        },
    }
}

/// Reopening the preferences on a valid configuration whose URL and token
/// carry no surrounding whitespace and saving without edits gives the same
/// configuration back.
pub proof fn lemma_preferences_roundtrip(
    config: AgentConfig,
    form: PreferencesState,
    res: Result<AgentConfig, ConfigError>,
)
    requires
        spec_config_valid(config),
        trim_spec(config.api_base_url@) == config.api_base_url@,
        trim_spec(config.auth_token@) == config.auth_token@,
        spec_form_of(config, form),
        spec_build_config(form, res),
    ensures
        res matches Ok(c) && c.api_base_url@ == config.api_base_url@ && c.auth_token@
            == config.auth_token@ && c.poll_interval_secs == config.poll_interval_secs,
{
    crate::text::lemma_trim_decimal(config.poll_interval_secs as nat);
    crate::text::lemma_parse_decimal_roundtrip(config.poll_interval_secs);
}

} // verus!

verus! {

/// `s` without its trailing `/` characters (`trim_end_matches('/')`).
pub open spec fn spec_trim_trailing_slashes(s: Seq<char>) -> Seq<char>
    decreases s.len(),
{
    if s.len() > 0 && s.last() == '/' {
        spec_trim_trailing_slashes(s.drop_last())
    } else {
        s
    }
}

/// The API base URL as the client keeps it: without trailing slashes.
pub fn normalize_base_url(base_url: &str) -> (res: String)
    ensures
        res@ == spec_trim_trailing_slashes(base_url@),
{
    let chars = chars_of(base_url);
    let mut end: usize = chars.len();
    assert(chars@.take(end as int) =~= chars@);
    while end > 0 && chars[end - 1] == '/'
        invariant
            end <= chars@.len(),
            chars@ == base_url@,
            spec_trim_trailing_slashes(base_url@) == spec_trim_trailing_slashes(chars@.take(end as int)),
        decreases end,
    {
        assert(chars@.take(end as int).drop_last() =~= chars@.take(end - 1));
        end = end - 1;
    }
    let mut out = String::new();
    let mut i: usize = 0;
    while i < end
        invariant
            i <= end,
            end <= chars@.len(),
            out@ == chars@.take(i as int),
        decreases end - i,
    {
        out.push(chars[i]);
        assert(chars@.take(i + 1) =~= chars@.take(i as int).push(chars@[i as int]));
        i = i + 1;
    }
    out
}

/// Endpoint the agent posts updates to.
pub fn now_playing_url(base_url: &str) -> (res: String)
    ensures
        res@ == base_url@ + "/api/now-playing"@,
{
    let mut url = base_url.to_owned();
    url.append("/api/now-playing");
    url
}

} // verus!
