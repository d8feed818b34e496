//! The event that the producers emit and the consumer stores.

use crate::artwork::Artwork;
use crate::clock::now_millis;
use crate::medias::media::Media;
use crate::medias::music_media::MusicMedia;
use crate::now_playing::NowPlaying;
use vstd::prelude::*;

verus! {

/// The type under which a music event is stored.
pub const MUSIC_TYPE: &'static str = "music";

/// The type under which a generic event is stored.
pub const GENERIC_TYPE: &'static str = "generic";

/// One observation, of either kind.
#[derive(Debug)]
pub enum Snapshot {
    /// A track that the music player told of.
    Music(MusicMedia),
    /// What the polled source reported.
    Generic(NowPlaying),
}

/// One observation together with its artwork and the time of its emission, in
/// milliseconds since the Unix epoch.
#[derive(Debug)]
#[allow(inconsistent_fields)]
pub enum MediaEvent {
    Music { media: MusicMedia, artwork: Option<Artwork>, emitted_at: i64 },
    Generic { media: NowPlaying, artwork: Option<Artwork>, emitted_at: i64 },
}

/// The event of `snapshot` with `artwork`, emitted at `now`.
pub open spec fn stamped(snapshot: Snapshot, artwork: Option<Artwork>, now: i64) -> MediaEvent {
    match snapshot {
        Snapshot::Music(media) => MediaEvent::Music { media, artwork, emitted_at: now },
        Snapshot::Generic(media) => MediaEvent::Generic { media, artwork, emitted_at: now },
    }
}

impl MediaEvent {
    /// The text that the media of the event is told from others by.
    pub open spec fn id(&self) -> Seq<char> {
        match self {
            MediaEvent::Music { media, .. } => media.id(),
            MediaEvent::Generic { media, .. } => media.id(),
        }
    }

    /// Whether the media of the event is playing.
    pub open spec fn playing(&self) -> bool {
        match self {
            MediaEvent::Music { media, .. } => media.playing(),
            MediaEvent::Generic { media, .. } => media.playing(),
        }
    }

    /// The type under which the event is stored.
    pub open spec fn stored_type(&self) -> Seq<char> {
        match self {
            MediaEvent::Music { .. } => MUSIC_TYPE@,
            MediaEvent::Generic { .. } => GENERIC_TYPE@,
        }
    }

    /// The time of the emission.
    pub open spec fn emitted_at(&self) -> i64 {
        match self {
            MediaEvent::Music { emitted_at, .. } => *emitted_at,
            MediaEvent::Generic { emitted_at, .. } => *emitted_at,
        }
    }

    /// The artwork of the event, if it has any.
    pub open spec fn artwork(&self) -> Option<Artwork> {
        match self {
            MediaEvent::Music { artwork, .. } => *artwork,
            MediaEvent::Generic { artwork, .. } => *artwork,
        }
    }

    /// The text that the media of the event is told from others by.
    pub fn get_id(&self) -> (id: &String)
        ensures
            id@ == self.id(),
    {
        match self {
            MediaEvent::Music { media, artwork: _, emitted_at: _ } => media.get_id(),
            MediaEvent::Generic { media, artwork: _, emitted_at: _ } => media.get_id(),
        }
    }

    /// Whether the media of the event is playing.
    pub fn get_is_playing(&self) -> (playing: bool)
        ensures
            playing == self.playing(),
    {
        match self {
            MediaEvent::Music { media, artwork: _, emitted_at: _ } => media.get_is_playing(),
            MediaEvent::Generic { media, artwork: _, emitted_at: _ } => media.get_is_playing(),
        }
    }

    /// The type under which the event is stored.
    pub fn get_type(&self) -> (name: &'static str)
        ensures
            name@ == self.stored_type(),
    {
        match self {
            MediaEvent::Music { media: _, artwork: _, emitted_at: _ } => MUSIC_TYPE,
            MediaEvent::Generic { media: _, artwork: _, emitted_at: _ } => GENERIC_TYPE,
        }
    }

    /// The time of the emission.
    pub fn get_emitted_at(&self) -> (at: &i64)
        ensures
            *at == self.emitted_at(),
    {
        match self {
            MediaEvent::Music { media: _, artwork: _, emitted_at } => emitted_at,
            MediaEvent::Generic { media: _, artwork: _, emitted_at } => emitted_at,
        }
    }

    /// The artwork of the event, if it has any.
    pub fn get_artwork(&self) -> (artwork: &Option<Artwork>)
        ensures
            *artwork == self.artwork(),
    {
        match self {
            MediaEvent::Music { media: _, artwork, emitted_at: _ } => artwork,
            MediaEvent::Generic { media: _, artwork, emitted_at: _ } => artwork,
        }
    }
}

/// The event of `snapshot` with `artwork`, emitted at `now`.
pub fn normalize_at(snapshot: Snapshot, artwork: Option<Artwork>, now: i64) -> (event: MediaEvent)
    ensures
        event == stamped(snapshot, artwork, now),
{
    match snapshot {
        Snapshot::Music(media) => MediaEvent::Music { media, artwork, emitted_at: now },
        Snapshot::Generic(media) => MediaEvent::Generic { media, artwork, emitted_at: now },
    }
}

/// The event of `snapshot` with `artwork`, emitted at the time that the wall
/// clock shows during the call.
pub fn normalize(snapshot: Snapshot, artwork: Option<Artwork>) -> (event: MediaEvent)
    ensures
        event == stamped(snapshot, artwork, event.emitted_at()),
{
    normalize_at(snapshot, artwork, now_millis())
}

} // verus!
