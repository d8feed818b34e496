//! The typed snapshot of playback state that the polled source reports.

use crate::decimal::{parse_u8, u8_of};
use crate::now_playing_raw_parser::{parse_raw, parsed, ParsingError, ParsingErrorView};
use crate::raw_snapshot::RawSnapshot;
use crate::text::{str_eq, trim, trim_str};
use vstd::prelude::*;

verus! {

/// The key whose value is the playback rate, `1` while playing.
pub const PLAYBACK_RATE: &'static str = "kMRMediaRemoteNowPlayingInfoPlaybackRate";

/// The key whose value is the title.
pub const TITLE: &'static str = "kMRMediaRemoteNowPlayingInfoTitle";

/// The key whose value is the artist.
pub const ARTIST: &'static str = "kMRMediaRemoteNowPlayingInfoArtist";

/// The key whose value names the kind of media.
pub const MEDIA_TYPE: &'static str = "kMRMediaRemoteNowPlayingInfoMediaType";

/// The value of `MEDIA_TYPE` that stands for music.
pub const MUSIC_MEDIA_TYPE: &'static str = "MRMediaRemoteMediaTypeMusic";

/// What an absent optional field reads as.
pub const NULL_TEXT: &'static str = "null";

/// One observation of what is playing.
#[derive(Debug)]
pub struct NowPlaying {
    pub is_music: bool,
    pub is_playing: bool,
    pub title: String,
    pub artist: Option<String>,
}

/// A `NowPlaying` with its texts as character sequences.
pub struct NowPlayingView {
    pub is_music: bool,
    pub is_playing: bool,
    pub title: Seq<char>,
    pub artist: Option<Seq<char>>,
}

impl View for NowPlaying {
    type V = NowPlayingView;

    open spec fn view(&self) -> NowPlayingView {
        NowPlayingView {
            is_music: self.is_music,
            is_playing: self.is_playing,
            title: self.title@,
            artist: match self.artist {
                Some(artist) => Some(artist@),
                None => None,
            },
        }
    }
}

/// Why a record gave no snapshot.
#[derive(Debug)]
pub enum SnapshotError {
    /// The record, or one of its values, cannot be read.
    Malformed(ParsingError),
    /// The record lacks the key carried here.
    MissingRequiredField(String),
}

/// What a `SnapshotError` says, with the texts it carries as character sequences.
pub enum SnapshotErrorView {
    Malformed(ParsingErrorView),
    MissingRequiredField(Seq<char>),
}

impl View for SnapshotError {
    type V = SnapshotErrorView;

    open spec fn view(&self) -> SnapshotErrorView {
        match self {
            SnapshotError::Malformed(e) => SnapshotErrorView::Malformed(e@),
            SnapshotError::MissingRequiredField(key) => SnapshotErrorView::MissingRequiredField(
                key@,
            ),
        }
    }
}

/// The snapshot that a mapping stands for.
///
/// A playback rate that is no unsigned byte fails the mapping, and so does,
/// after that, a missing title. Music is what carries the music media type;
/// playing is what carries the rate `1`.
pub open spec fn projected(fields: Map<Seq<char>, Seq<char>>) -> Result<
    NowPlayingView,
    SnapshotErrorView,
> {
    if fields.contains_key(PLAYBACK_RATE@) && u8_of(fields[PLAYBACK_RATE@]) is None {
        Err(
            SnapshotErrorView::Malformed(
                ParsingErrorView::MalformedValue(fields[PLAYBACK_RATE@]),
            ),
        )
    } else if !fields.contains_key(TITLE@) {
        Err(SnapshotErrorView::MissingRequiredField(TITLE@))
    } else {
        Ok(
            NowPlayingView {
                is_music: fields.contains_key(MEDIA_TYPE@) && fields[MEDIA_TYPE@]
                    == MUSIC_MEDIA_TYPE@,
                is_playing: fields.contains_key(PLAYBACK_RATE@) && u8_of(fields[PLAYBACK_RATE@])
                    == Some(1u8),
                title: fields[TITLE@],
                artist: if fields.contains_key(ARTIST@) {
                    Some(fields[ARTIST@])
                } else {
                    None
                },
            },
        )
    }
}

/// The snapshot that a record stands for.
pub open spec fn now_playing_of(output: Seq<char>) -> Result<NowPlayingView, SnapshotErrorView> {
    match parsed(output) {
        Ok(fields) => projected(fields),
        Err(e) => Err(SnapshotErrorView::Malformed(e)),
    }
}

/// What the text of an optional field holds: the text without the white space
/// at its ends, unless that is empty or the word `null`.
pub open spec fn optional_text(output: Seq<char>) -> Option<Seq<char>> {
    let text = trim(output);
    if text.len() == 0 || text == NULL_TEXT@ {
        None
    } else {
        Some(text)
    }
}

/// Reader of what the polled source prints.
#[derive(Default)]
pub struct NowPlayingService;

impl NowPlayingService {
    /// Reads a record into a snapshot.
    pub fn get_now_playing(output: &String) -> (result: Result<NowPlaying, SnapshotError>)
        ensures
            match result {
                Ok(state) => now_playing_of(output@) == Ok::<NowPlayingView, SnapshotErrorView>(
                    state@,
                ),
                Err(e) => now_playing_of(output@) == Err::<NowPlayingView, SnapshotErrorView>(e@),
            },
    {
        match Self::get_hashmap(output) {
            Ok(fields) => Self::project(&fields),
            Err(e) => Err(SnapshotError::Malformed(e)),
        }
    }

    /// Reads a record into the mapping of its keys to its values.
    pub fn get_hashmap(output: &String) -> (result: Result<RawSnapshot, ParsingError>)
        ensures
            match result {
                Ok(fields) => parsed(output@) == Ok::<Map<Seq<char>, Seq<char>>, ParsingErrorView>(
                    fields@,
                ),
                Err(e) => parsed(output@) == Err::<Map<Seq<char>, Seq<char>>, ParsingErrorView>(
                    e@,
                ),
            },
    {
        parse_raw(output)
    }

    /// Reads the snapshot out of a mapping.
    pub fn project(fields: &RawSnapshot) -> (result: Result<NowPlaying, SnapshotError>)
        ensures
            match result {
                Ok(state) => projected(fields@) == Ok::<NowPlayingView, SnapshotErrorView>(state@),
                Err(e) => projected(fields@) == Err::<NowPlayingView, SnapshotErrorView>(e@),
            },
    {
        let is_music = match fields.get(MEDIA_TYPE) {
            Some(value) => str_eq(value.as_str(), MUSIC_MEDIA_TYPE),
            None => false,
        };
        let is_playing = match fields.get(PLAYBACK_RATE) {
            Some(value) => match parse_u8(value.as_str()) {
                Some(rate) => rate == 1,
                None => {
                    return Err(
                        SnapshotError::Malformed(ParsingError::MalformedValue(value.clone())),
                    );
                },
            },
            None => false,
        };
        let title = match fields.get(TITLE) {
            Some(value) => value.clone(),
            None => {
                return Err(SnapshotError::MissingRequiredField(TITLE.to_owned()));
            },
        };
        let artist = match fields.get(ARTIST) {
            Some(value) => Some(value.clone()),
            None => None,
        };
        Ok(NowPlaying { is_music, is_playing, title, artist })
    }

    /// Reads what the source printed for one optional field.
    pub fn optional_field(output: &str) -> (result: Option<String>)
        ensures
            match result {
                Some(text) => optional_text(output@) == Some(text@),
                None => optional_text(output@) is None,
            },
    {
        let text = trim_str(output);
        if text.is_empty() || str_eq(text, NULL_TEXT) {
            None
        } else {
            Some(text.to_owned())
        }
    }
}

} // verus!
