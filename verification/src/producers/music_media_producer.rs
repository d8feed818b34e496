//! The producer for the music player, which tells of each change by itself.
//! Every track it tells of is emitted, once its artwork is there.

use crate::artwork_cache::{ArtworkRecord, CacheError};
use crate::clock::now_millis;
use crate::media_event::{normalize_at, stamped, MediaEvent, Snapshot};
use crate::medias::media::Media;
use crate::medias::music_media::MusicMedia;
use crate::now_playing::NowPlaying;
use crate::text::str_eq;
use vstd::prelude::*;

verus! {

/// The event of a track whose artwork was read with the result `resolved`: the
/// track with that artwork, emitted at `now`, or nothing where the read failed.
pub open spec fn music_event_of(
    media: MusicMedia,
    resolved: Result<ArtworkRecord, CacheError>,
    now: i64,
) -> Option<MediaEvent> {
    match resolved {
        Ok(record) => Some(stamped(Snapshot::Music(media), record.payload, now)),
        Err(_) => None,
    }
}

/// Whether a track named `name` is still one to wait for, given what the polled
/// source reports now: it is, while that source reports media of the music kind
/// with the same title. A poll that gave no snapshot says that it is not.
pub fn still_eligible(polled: Option<&NowPlaying>, name: &str) -> (eligible: bool)
    ensures
        eligible == (polled matches Some(state) && state.is_music && state.title@ == name@),
{
    match polled {
        Some(state) => state.is_music && str_eq(state.title.as_str(), name),
        None => false,
    }
}

/// The event of a track whose artwork was read with the result `resolved`: the
/// track with that artwork, emitted at `now`, or nothing where the read failed.
pub fn music_event_at(
    media: MusicMedia,
    resolved: Result<ArtworkRecord, CacheError>,
    now: i64,
) -> (event: Option<MediaEvent>)
    ensures
        event == music_event_of(media, resolved, now),
{
    match resolved {
        Ok(record) => Some(normalize_at(Snapshot::Music(media), record.payload, now)),
        Err(_) => None,
    }
}

/// The event of a track whose artwork was read with the result `resolved`,
/// emitted at the time that the wall clock shows during the call, or nothing
/// where the read failed.
pub fn music_event_handler(media: MusicMedia, resolved: Result<ArtworkRecord, CacheError>) -> (event:
    Option<MediaEvent>)
    ensures
        match resolved {
            Ok(_) => event matches Some(emitted) && event == music_event_of(
                media,
                resolved,
                emitted.emitted_at(),
            ),
            Err(_) => event is None,
        },
{
    music_event_at(media, resolved, now_millis())
}

/// Tracks are not told apart from the ones before them: a track whose artwork
/// was read is emitted as a music event with its own name, state, artwork and
/// time, whatever was emitted before, so that a notification that comes twice
/// gives two events.
pub proof fn lemma_music_is_not_deduplicated(
    media: MusicMedia,
    first: ArtworkRecord,
    second: ArtworkRecord,
    earlier: i64,
    later: i64,
)
    ensures
        music_event_of(media, Ok(first), earlier) == Some(
            MediaEvent::Music { media, artwork: first.payload, emitted_at: earlier },
        ),
        music_event_of(media, Ok(second), later) == Some(
            MediaEvent::Music { media, artwork: second.payload, emitted_at: later },
        ),
        music_event_of(media, Ok(second), later)->0.id() == media.name@,
        music_event_of(media, Ok(second), later)->0.playing() == media.is_playing,
        music_event_of(media, Ok(second), later)->0.emitted_at() == later,
{
}

/// A track whose artwork could not be read is dropped, whatever the reason.
pub proof fn lemma_music_without_artwork_is_dropped(media: MusicMedia, reason: CacheError, now: i64)
    ensures
        music_event_of(media, Err(reason), now) is None,
{
}

} // verus!
