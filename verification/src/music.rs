//! Apple Music through AppleScript: the scripts the agent runs and what
//! their output means.
use vstd::prelude::*;

use crate::model::{NowPlaying, Timestamp};
use crate::text::{chars_of, trim_spec};

verus! {

/// `std::io::Error`, carried opaque inside `MusicProviderError::Io`.
#[verifier::external_type_specification]
#[verifier::external_body]
pub struct ExIoError(std::io::Error);

/// Errors of the music provider.
#[derive(Debug)]
pub enum MusicProviderError {
    AppleScriptFailed(String),
    UnexpectedOutput(String),
    Io(std::io::Error),
}

/// Album artwork bytes extracted from the Music app.
#[derive(Clone, Debug)]
pub struct TrackArtwork {
    pub bytes: Vec<u8>,
    pub content_type: &'static str,
}

/// Reads the current Apple Music playback state via `osascript`.
#[derive(Debug, Default, Clone, Copy)]
pub struct AppleMusicProvider;

/// Script that reports the player state: `NOT_PLAYING`, or the track's name,
/// artist, album, duration, position and playing flag joined by `||`.
pub const TRACK_APPLESCRIPT: &'static str = "\ntell application \"Music\"\n    set ps to player state as string\n    if ps is \"playing\" or ps is \"paused\" then\n        set t to current track\n        set isPlaying to ps is \"playing\"\n        return name of t & \"||\" & artist of t & \"||\" & album of t & \"||\" & (duration of t as string) & \"||\" & (player position as string) & \"||\" & isPlaying\n    else\n        return \"NOT_PLAYING\"\n    end if\nend tell\n";

/// What the player reported, before the seconds are read as numbers.
#[derive(Clone, Debug)]
pub struct PlayerReport {
    pub track_name: String,
    pub artist_name: String,
    pub album_name: String,
    pub duration_text: String,
    pub position_text: String,
    pub is_playing: bool,
}

/// Index of the first `||` in `s`, if any.
pub open spec fn first_bars(s: Seq<char>) -> Option<nat>
    decreases s.len(),
{
    if s.len() < 2 {
        None
    } else if s[0] == '|' && s[1] == '|' {
        Some(0)
    } else {
        match first_bars(s.drop_first()) {
            Some(i) => Some(i + 1),
            None => None,
        }
    }
}

/// `s.split("||")`: the pieces between non-overlapping `||`, left to right.
pub open spec fn split_bars(s: Seq<char>) -> Seq<Seq<char>>
    decreases s.len(),
{
    match first_bars(s) {
        None => seq![s],
        Some(i) => if i + 2 <= s.len() {
            seq![s.take(i as int)] + split_bars(s.skip(i + 2 as int))
        } else {
            seq![s]
        },
    }
}

/// The playing flag as AppleScript prints it: `true` or `1`.
pub open spec fn is_true_flag(s: Seq<char>) -> bool {
    s == "true"@ || s == "1"@
}

/// What the player's output means: `NOT_PLAYING` is nothing playing; six
/// `||`-separated fields are a track (each trimmed); anything else is unexpected.
pub open spec fn spec_parse_report(raw: Seq<char>, res: Result<Option<PlayerReport>, MusicProviderError>) -> bool {
    if raw == "NOT_PLAYING"@ {
        res matches Ok(None)
    } else if split_bars(raw).len() != 6 {
        res matches Err(MusicProviderError::UnexpectedOutput(m)) && m@ == raw
    } else {
        let parts = split_bars(raw);
        res matches Ok(Some(r)) && r.track_name@ == trim_spec(parts[0]) && r.artist_name@
            == trim_spec(parts[1]) && r.album_name@ == trim_spec(parts[2]) && r.duration_text@
            == parts[3] && r.position_text@ == parts[4] && r.is_playing == is_true_flag(
            trim_spec(parts[5]),
        )
    }
}

proof fn lemma_first_bars_at(s: Seq<char>, i: int)
    requires
        0 <= i,
        i + 1 < s.len(),
        s[i] == '|' && s[i + 1] == '|',
        forall|j: int| 0 <= j < i ==> !(#[trigger] s[j] == '|' && s[j + 1] == '|'),
    ensures
        first_bars(s) == Some(i as nat),
    decreases i,
{
    if i > 0 {
        assert forall|j: int| 0 <= j < i - 1 implies !(#[trigger] s.drop_first()[j] == '|' && s.drop_first()[j + 1] == '|') by {
            assert(s.drop_first()[j] == s[j + 1] && s.drop_first()[j + 1] == s[j + 2]);
        }
        lemma_first_bars_at(s.drop_first(), i - 1);
    }
}

proof fn lemma_first_bars_none(s: Seq<char>)
    requires
        forall|j: int| 0 <= j && j + 1 < s.len() ==> !(#[trigger] s[j] == '|' && s[j + 1] == '|'),
    ensures
        first_bars(s) is None,
    decreases s.len(),
{
    if s.len() >= 2 {
        assert forall|j: int| 0 <= j && j + 1 < s.len() - 1 implies !(#[trigger] s.drop_first()[j] == '|' && s.drop_first()[j + 1] == '|') by {
            assert(s.drop_first()[j] == s[j + 1] && s.drop_first()[j + 1] == s[j + 2]);
        }
        lemma_first_bars_none(s.drop_first());
    }
}

fn string_of(chars: &Vec<char>, from: usize, to: usize) -> (res: String)
    requires
        from <= to <= chars@.len(),
    ensures
        res@ == chars@.subrange(from as int, to as int),
{
    let mut out = String::new();
    let mut i: usize = from;
    while i < to
        invariant
            from <= i <= to,
            to <= chars@.len(),
            out@ == chars@.subrange(from as int, i as int),
        decreases to - i,
    {
        out.push(chars[i]);
        assert(chars@.subrange(from as int, i + 1) =~= chars@.subrange(from as int, i as int).push(chars@[i as int]));
        i = i + 1;
    }
    out
}

/// The pieces of `raw` between `||` separators (`raw.split("||")`).
pub fn split_on_bars(raw: &str) -> (res: Vec<String>)
    ensures
        res@.len() == split_bars(raw@).len(),
        forall|i: int| 0 <= i < res@.len() ==> #[trigger] res@[i]@ == split_bars(raw@)[i],
{
    let chars = chars_of(raw);
    let n: usize = chars.len();
    let mut parts: Vec<String> = Vec::new();
    let ghost mut pieces: Seq<Seq<char>> = Seq::empty();
    let mut start: usize = 0;
    let mut i: usize = 0;
    assert(chars@.skip(0) =~= chars@);
    while i < n && i + 1 < n
        invariant
            n == chars@.len(),
            chars@ == raw@,
            start <= i <= n,
            parts@.len() == pieces.len(),
            forall|k: int| 0 <= k < parts@.len() ==> #[trigger] parts@[k]@ == pieces[k],
            split_bars(raw@) == pieces + split_bars(chars@.skip(start as int)),
            forall|j: int| start <= j < i && j + 1 < n ==> !(#[trigger] chars@[j] == '|' && chars@[j + 1] == '|'),
        decreases n - i,
    {
        if chars[i] == '|' && chars[i + 1] == '|' {
            let ghost rest = chars@.skip(start as int);
            proof {
                assert forall|j: int| 0 <= j < i - start implies !(#[trigger] rest[j] == '|' && rest[j + 1] == '|') by {
                    assert(rest[j] == chars@[start + j] && rest[j + 1] == chars@[start + j + 1]);
                }
                assert(rest[i - start] == '|' && rest[i - start + 1] == '|');
                lemma_first_bars_at(rest, i - start);
                assert(rest.take(i - start) =~= chars@.subrange(start as int, i as int));
                assert(rest.skip(i - start + 2) =~= chars@.skip(i + 2));
            }
            let part = string_of(&chars, start, i);
            parts.push(part);
            proof {
                pieces = pieces.push(chars@.subrange(start as int, i as int));
                assert(split_bars(rest) == seq![rest.take(i - start)] + split_bars(rest.skip(i - start + 2)));
            }
            start = i + 2;
            i = i + 2;
        } else {
            i = i + 1;
        }
    }
    proof {
        let rest = chars@.skip(start as int);
        assert forall|j: int| 0 <= j && j + 1 < rest.len() implies !(#[trigger] rest[j] == '|' && rest[j + 1] == '|') by {
            assert(rest[j] == chars@[start + j] && rest[j + 1] == chars@[start + j + 1]);
        }
        lemma_first_bars_none(rest);
        assert(rest =~= chars@.subrange(start as int, n as int));
    }
    let last = string_of(&chars, start, n);
    parts.push(last);
    proof {
        pieces = pieces.push(chars@.subrange(start as int, n as int));
    }
    parts
}

} // verus!

verus! {

fn str_equals(a: &str, b: &str) -> (res: bool)
    ensures
        res == (a@ == b@),
{
    let x = a.to_owned();
    let y = b.to_owned();
    x == y
}

impl AppleMusicProvider {
    /// Reads the output of `TRACK_APPLESCRIPT`.
    pub fn parse_report(raw: &str) -> (res: Result<Option<PlayerReport>, MusicProviderError>)
        ensures
            spec_parse_report(raw@, res),
    {
        if str_equals(raw, "NOT_PLAYING") {
            return Ok(None);
        }
        let parts = split_on_bars(raw);
        if parts.len() != 6 {
            return Err(MusicProviderError::UnexpectedOutput(raw.to_owned()));
        }
        let flag = parts[5].as_str().trim();
        let is_playing = str_equals(flag, "true") || str_equals(flag, "1");
        Ok(
            Some(
                PlayerReport {
                    track_name: parts[0].as_str().trim().to_owned(),
                    artist_name: parts[1].as_str().trim().to_owned(),
                    album_name: parts[2].as_str().trim().to_owned(),
                    duration_text: parts[3].clone(),
                    position_text: parts[4].clone(),
                    is_playing,
                },
            ),
        )
    }

    /// Script that exports the current track's artwork to `path` (or to the
    /// same path ending in `.png` for PNG artwork) and prints the path it
    /// wrote, `NOT_PLAYING` or `NO_ART`.
    pub fn artwork_script(path: &str) -> (res: String)
        ensures
            res@ == spec_artwork_script(path@),
    {
        let mut s = String::from_str(ARTWORK_SCRIPT_HEAD);
        s.append(path);
        s.append(ARTWORK_SCRIPT_TAIL);
        s
    }

    /// Content type of the artwork the script wrote, from the path it
    /// printed; `None` when it wrote none (`NOT_PLAYING` or `NO_ART`).
    pub fn artwork_content_type(raw: &str) -> (res: Option<&'static str>)
        ensures
            res == spec_artwork_content_type(raw@),
    {
        if str_equals(raw, "NOT_PLAYING") || str_equals(raw, "NO_ART") {
            return None;
        }
        let chars = chars_of(raw);
        let n: usize = chars.len();
        proof {
            reveal_strlit(".png");
        }
        if n >= 4 && chars[n - 4] == '.' && chars[n - 3] == 'p' && chars[n - 2] == 'n' && chars[n - 1] == 'g' {
            assert(raw@.skip(n - 4) =~= ".png"@);
            Some("image/png")
        } else {
            assert(n >= 4 ==> raw@.skip(n - 4)[0] == chars@[n - 4]);
            assert(n >= 4 ==> raw@.skip(n - 4)[1] == chars@[n - 3]);
            assert(n >= 4 ==> raw@.skip(n - 4)[2] == chars@[n - 2]);
            assert(n >= 4 ==> raw@.skip(n - 4)[3] == chars@[n - 1]);
            Some("image/jpeg")
        }
    }

    /// The artwork read back from the file: `None` when the file is empty.
    pub fn artwork_from_file(bytes: Vec<u8>, content_type: &'static str) -> (res: Option<TrackArtwork>)
        ensures
            bytes@.len() == 0 ==> res is None,
            bytes@.len() > 0 ==> (res matches Some(a) && a.bytes@ == bytes@ && a.content_type == content_type),
    {
        if bytes.len() == 0 {
            None
        } else {
            Some(TrackArtwork { bytes, content_type })
        }
    }
}

pub const ARTWORK_SCRIPT_HEAD: &'static str = "\ntell application \"Music\"\n    set ps to player state as string\n    if ps is not \"playing\" and ps is not \"paused\" then\n        return \"NOT_PLAYING\"\n    end if\n    set t to current track\n    if (count of artworks of t) is 0 then\n        return \"NO_ART\"\n    end if\n    set artPath to \"";

pub const ARTWORK_SCRIPT_TAIL: &'static str = "\"\n    tell artwork 1 of t\n        if format is «class PNG » then\n            set ext to \".png\"\n        else\n            set ext to \".jpg\"\n        end if\n        set srcBytes to raw data\n    end tell\n    if ext is \".png\" then\n        set artPath to my replace_text(artPath, \".jpg\", \".png\")\n    end if\n    set outFile to open for access POSIX file artPath with write permission\n    set eof outFile to 0\n    write srcBytes to outFile\n    close access outFile\n    return artPath\nend tell\n\non replace_text(sourceText, findText, replaceText)\n    set AppleScript's text item delimiters to findText\n    set parts to text items of sourceText\n    set AppleScript's text item delimiters to replaceText\n    return parts as text\nend replace_text\n";

pub open spec fn spec_artwork_script(path: Seq<char>) -> Seq<char> {
    ARTWORK_SCRIPT_HEAD@ + path + ARTWORK_SCRIPT_TAIL@
}

/// `raw` ends with `.png`.
pub open spec fn ends_with_png(raw: Seq<char>) -> bool {
    raw.len() >= 4 && raw.skip(raw.len() - 4) == ".png"@
}

pub open spec fn spec_artwork_content_type(raw: Seq<char>) -> Option<&'static str> {
    if raw == "NOT_PLAYING"@ || raw == "NO_ART"@ {
        None
    } else if ends_with_png(raw) {
        Some("image/png")
    } else {
        Some("image/jpeg")
    }
}

impl PlayerReport {
    /// The record of the reported track, with the seconds read by the caller
    /// and the instant of the reading; no artwork URL yet.
    pub fn into_now_playing(
        self,
        duration_seconds: Option<u32>,
        position_seconds: Option<u32>,
        listened_at: Timestamp,
    ) -> (res: NowPlaying)
        ensures
            res.track_name@ == self.track_name@,
            res.artist_name@ == self.artist_name@,
            res.album_name@ == self.album_name@,
            res.artwork_url is None,
            res.duration_seconds == duration_seconds,
            res.position_seconds == position_seconds,
            res.is_playing == self.is_playing,
            res.listened_at == listened_at,
    {
        NowPlaying {
            track_name: self.track_name,
            artist_name: self.artist_name,
            album_name: self.album_name,
            artwork_url: None,
            duration_seconds,
            position_seconds,
            is_playing: self.is_playing,
            listened_at,
        }
    }
}

} // verus!
