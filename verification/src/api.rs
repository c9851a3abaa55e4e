//! Decisions of the HTTP API: who may post, what a posted artwork becomes,
//! and what a read of the current state answers.
use vstd::prelude::*;

use crate::encoding::{base64_decode, base64_decoded};
use crate::encoding::is_base64_char;
use crate::model::{opt_string_view, spec_now_playing_from_update, GetNowPlayingResponse, NowPlaying, Timestamp, UpdateNowPlayingRequest};
use crate::text::{is_whitespace, lemma_trim_without_whitespace, trim_spec};

verus! {

/// Path under which the API serves the stored artwork.
pub const ARTWORK_URL: &'static str = "/api/now-playing/artwork";

/// Errors the handlers answer with.
#[derive(Debug)]
pub enum ApiError {
    /// The shared state could not be read or written.
    Internal,
    /// Nothing has been posted yet.
    NotFound,
    /// The request body was not acceptable.
    BadRequest(String),
}

/// Album artwork held by the API.
#[derive(Clone, Debug)]
pub struct StoredArtwork {
    pub bytes: Vec<u8>,
    pub content_type: String,
}

/// The PNG signature's first four bytes: `\x89PNG`.
pub open spec fn has_png_magic(bytes: Seq<u8>) -> bool {
    bytes.len() >= 4 && bytes[0] == 0x89u8 && bytes[1] == 0x50u8 && bytes[2] == 0x4eu8
        && bytes[3] == 0x47u8
}

/// Content type by signature: PNG when the bytes start with it, JPEG otherwise.
pub open spec fn spec_content_type(bytes: Seq<u8>) -> Seq<char> {
    if has_png_magic(bytes) {
        "image/png"@
    } else {
        "image/jpeg"@
    }
}

pub fn content_type_for(bytes: &Vec<u8>) -> (res: String)
    ensures
        res@ == spec_content_type(bytes@),
{
    if bytes.len() >= 4 && bytes[0] == 0x89u8 && bytes[1] == 0x50u8 && bytes[2] == 0x4eu8
        && bytes[3] == 0x47u8 {
        String::from_str("image/png")
    } else {
        String::from_str("image/jpeg")
    }
}

/// What posting `artwork_base64` makes of the artwork slot: `Ok(None)` clears
/// it (no artwork, or artwork that decodes to nothing); undecodable text is a
/// bad request; otherwise the decoded bytes with their content type, served
/// under `ARTWORK_URL`.
pub open spec fn spec_artwork_update(
    artwork_base64: Option<Seq<char>>,
    res: Result<(Option<StoredArtwork>, Option<String>), ApiError>,
) -> bool {
    match artwork_base64 {
        None => res matches Ok((None, None)),
        Some(text) => match base64_decoded(trim_spec(text)) {
            None => res matches Err(ApiError::BadRequest(m)) && m@ == "invalid artwork_base64"@,
            Some(bytes) => if bytes.len() == 0 {
                res matches Ok((None, None))
            } else {
                res matches Ok((Some(art), Some(url))) && art.bytes@ == bytes
                    && art.content_type@ == spec_content_type(bytes) && url@ == ARTWORK_URL@
            },
        },
    }
}

/// Decodes the artwork of an update: the stored artwork and the URL the
/// record points to.
pub fn artwork_from_base64(artwork_base64: Option<&str>) -> (res: Result<
    (Option<StoredArtwork>, Option<String>),
    ApiError,
>)
    ensures
        spec_artwork_update(
            match artwork_base64 {
                Some(t) => Some(t@),
                None => None,
            },
            res,
        ),
{
    let encoded = match artwork_base64 {
        Some(e) => e,
        None => return Ok((None, None)),
    };
    let bytes = match base64_decode(encoded.trim()) {
        Some(b) => b,
        None => return Err(ApiError::BadRequest(String::from_str("invalid artwork_base64"))),
    };
    if bytes.len() == 0 {
        return Ok((None, None));
    }
    let content_type = content_type_for(&bytes);
    Ok((Some(StoredArtwork { bytes, content_type }), Some(String::from_str(ARTWORK_URL))))
}

/// `Authorization` value that the protected routes accept for `token`.
pub open spec fn expected_authorization(token: Seq<char>) -> Seq<char> {
    "Bearer "@ + token
}

/// Whether an `Authorization` header value grants access: it must be exactly
/// `Bearer <token>`.
pub fn bearer_token_matches(header_value: Option<&str>, token: &str) -> (res: bool)
    ensures
        res == (header_value matches Some(h) && h@ == expected_authorization(token@)),
{
    match header_value {
        None => false,
        Some(h) => {
            let mut expected = String::from_str("Bearer ");
            expected.append(token);
            let given = h.to_owned();
            given == expected
        },
    }
}

/// The response shows the record field for field.
pub open spec fn spec_response_of(np: NowPlaying, r: GetNowPlayingResponse) -> bool {
    &&& r.track_name@ == np.track_name@
    &&& r.artist_name@ == np.artist_name@
    &&& r.album_name@ == np.album_name@
    &&& opt_string_view(r.artwork_url) == opt_string_view(np.artwork_url)
    &&& r.duration_seconds == np.duration_seconds
    &&& r.position_seconds == np.position_seconds
    &&& r.is_playing == np.is_playing
    &&& r.listened_at == np.listened_at
}

/// Answer to a read of the current state: the stored record, or `NotFound`
/// while nothing has been posted.
pub fn now_playing_response(current: Option<&NowPlaying>) -> (res: Result<
    GetNowPlayingResponse,
    ApiError,
>)
    ensures
        match current {
            None => res matches Err(ApiError::NotFound),
            Some(np) => res matches Ok(r) && spec_response_of(*np, r),
        },
{
    match current {
        None => Err(ApiError::NotFound),
        Some(np) => Ok(GetNowPlayingResponse::from_now_playing(np.clone())),
    }
}

/// What the API holds between requests: the last record posted and the
/// artwork that came with it.
pub struct NowPlayingStore {
    pub now_playing: Option<NowPlaying>,
    pub artwork: Option<StoredArtwork>,
}

/// The artwork text of an update, as characters.
pub open spec fn artwork_text(payload: UpdateNowPlayingRequest) -> Option<Seq<char>> {
    opt_string_view(payload.artwork_base64)
}

/// Whether the server refuses `payload`: its artwork is present but is not
/// base64 once surrounding whitespace is trimmed.
pub open spec fn update_refused(payload: UpdateNowPlayingRequest) -> bool {
    artwork_text(payload) matches Some(t) && base64_decoded(trim_spec(t)) is None
}

/// The artwork an accepted update leaves in the store: the decoded bytes with
/// their content type, or nothing when none was sent or it decodes to nothing.
pub open spec fn artwork_after_update(payload: UpdateNowPlayingRequest, art: Option<StoredArtwork>) -> bool {
    match artwork_text(payload) {
        Some(t) => match base64_decoded(trim_spec(t)) {
            Some(bytes) if bytes.len() > 0 => art matches Some(a) && a.bytes@ == bytes
                && a.content_type@ == spec_content_type(bytes),
            _ => art is None,
        },
        None => art is None,
    }
}

/// The artwork URL the server records for an accepted update: `ARTWORK_URL`
/// when artwork was stored, else none of its own.
pub open spec fn server_artwork_url(art: Option<StoredArtwork>) -> Option<Seq<char>> {
    match art {
        Some(_) => Some(ARTWORK_URL@),
        None => None,
    }
}

/// The store after `payload` was posted at `at`: a refused update changes
/// nothing and answers `BadRequest`; an accepted one replaces the artwork and
/// the record, which carries the payload's fields and the time of receipt `at`.
pub open spec fn spec_store_update(
    before: NowPlayingStore,
    payload: UpdateNowPlayingRequest,
    at: Timestamp,
    after: NowPlayingStore,
    res: Result<(), ApiError>,
) -> bool {
    if update_refused(payload) {
        &&& res matches Err(ApiError::BadRequest(m)) && m@ == "invalid artwork_base64"@
        &&& after == before
    } else {
        &&& res is Ok
        &&& artwork_after_update(payload, after.artwork)
        &&& after.now_playing matches Some(np) && spec_now_playing_from_update(
            payload,
            server_artwork_url(after.artwork),
            at,
            np,
        )
    }
}

/// What a read of the record answers: the record field for field, or
/// `NotFound` while nothing has been posted.
pub open spec fn spec_read(store: NowPlayingStore, res: Result<GetNowPlayingResponse, ApiError>) -> bool {
    match store.now_playing {
        None => res matches Err(ApiError::NotFound),
        Some(np) => res matches Ok(r) && spec_response_of(np, r),
    }
}

/// What a read of the artwork answers: the stored artwork, or `NotFound`.
pub open spec fn spec_artwork_read(store: NowPlayingStore, res: Result<StoredArtwork, ApiError>) -> bool {
    match store.artwork {
        None => res matches Err(ApiError::NotFound),
        Some(a) => res == Ok::<StoredArtwork, ApiError>(a),
    }
}

impl NowPlayingStore {
    /// The store before anything was posted.
    pub fn new() -> (res: Self)
        ensures
            res.now_playing is None,
            res.artwork is None,
    {
        NowPlayingStore { now_playing: None, artwork: None }
    }

    /// Handles an update posted at `at`, stamping the record with that time.
    pub fn apply_update_at(&mut self, payload: UpdateNowPlayingRequest, at: Timestamp) -> (res:
        Result<(), ApiError>)
        ensures
            spec_store_update(*old(self), payload, at, *final(self), res),
    {
        let text: Option<&str> = match &payload.artwork_base64 {
            Some(t) => Some(t.as_str()),
            None => None,
        };
        let (artwork, url) = match artwork_from_base64(text) {
            Ok(pair) => pair,
            Err(e) => return Err(e),
        };
        let np = payload.into_now_playing_at(url, at);
        self.artwork = artwork;
        self.now_playing = Some(np);
        Ok(())
    }

    /// Answer to `GET /api/now-playing`.
    pub fn read(&self) -> (res: Result<GetNowPlayingResponse, ApiError>)
        ensures
            spec_read(*self, res),
    {
        now_playing_response(self.now_playing.as_ref())
    }

    /// Answer to `GET /api/now-playing/artwork`: the stored artwork, or
    /// `NotFound`.
    pub fn stored_artwork(&self) -> (res: Result<&StoredArtwork, ApiError>)
        ensures
            spec_artwork_read(
                *self,
                match res {
                    Ok(r) => Ok(*r),
                    Err(e) => Err(e),
                },
            ),
    {
        match &self.artwork {
            Some(a) => Ok(a),
            None => Err(ApiError::NotFound),
        }
    }
}

} // verus!

verus! {

/// A read after an accepted update answers what was posted: the agent's
/// fields, the artwork URL the server chose (else the agent's), stamped with
/// the time of receipt.
pub proof fn lemma_read_returns_posted(
    before: NowPlayingStore,
    payload: UpdateNowPlayingRequest,
    at: Timestamp,
    after: NowPlayingStore,
    answer: Result<GetNowPlayingResponse, ApiError>,
)
    requires
        spec_store_update(before, payload, at, after, Ok(())),
        spec_read(after, answer),
    ensures
        answer matches Ok(r) && {
            &&& r.track_name@ == payload.track_name@
            &&& r.artist_name@ == payload.artist_name@
            &&& r.album_name@ == payload.album_name@
            &&& opt_string_view(r.artwork_url) == (match server_artwork_url(after.artwork) {
                Some(u) => Some(u),
                None => opt_string_view(payload.artwork_url),
            })
            &&& r.duration_seconds == payload.duration_seconds
            &&& r.position_seconds == payload.position_seconds
            &&& r.is_playing == payload.is_playing
            &&& r.listened_at == at
        },
{
}

/// A refused update leaves what a later read answers unchanged.
pub proof fn lemma_refused_update_is_invisible(
    before: NowPlayingStore,
    payload: UpdateNowPlayingRequest,
    at: Timestamp,
    after: NowPlayingStore,
    res: Result<(), ApiError>,
    answer: Result<GetNowPlayingResponse, ApiError>,
)
    requires
        spec_store_update(before, payload, at, after, res),
        res is Err,
    ensures
        spec_read(after, answer) == spec_read(before, answer),
        after.artwork == before.artwork,
{
}

/// Artwork the agent encodes is served back byte for byte: an update whose
/// artwork is base64 text of non-empty `bytes` (as `base64_encode` makes it)
/// is accepted, and the artwork read afterwards holds exactly `bytes`.
pub proof fn lemma_posted_artwork_served(
    before: NowPlayingStore,
    payload: UpdateNowPlayingRequest,
    bytes: Seq<u8>,
    at: Timestamp,
    after: NowPlayingStore,
    res: Result<(), ApiError>,
    served: Result<StoredArtwork, ApiError>,
)
    requires
        payload.artwork_base64 matches Some(t) && base64_decoded(t@) == Some(bytes)
            && forall|i: int| 0 <= i < t@.len() ==> is_base64_char(#[trigger] t@[i]),
        bytes.len() > 0,
        spec_store_update(before, payload, at, after, res),
        spec_artwork_read(after, served),
    ensures
        res is Ok,
        served matches Ok(a) && a.bytes@ == bytes && a.content_type@ == spec_content_type(bytes),
        after.now_playing matches Some(np) && np.artwork_url matches Some(u) && u@ == ARTWORK_URL@,
{
    let t = payload.artwork_base64->Some_0@;
    assert forall|i: int| 0 <= i < t.len() implies !is_whitespace(#[trigger] t[i]) by {
        assert(is_base64_char(t[i]));
    }
    lemma_trim_without_whitespace(t);
}

} // verus!
