//! What every kind of media tells of itself.

use super::music_media::MusicMedia;
use crate::now_playing::NowPlaying;
use vstd::prelude::*;

verus! {

/// A piece of media that can be told from others and is playing or not.
pub trait Media {
    /// The text that the media is told from others by.
    spec fn id(&self) -> Seq<char>;

    /// Whether the media is playing.
    spec fn playing(&self) -> bool;

    /// The text that the media is told from others by.
    fn get_id(&self) -> (id: &String)
        ensures
            id@ == self.id(),
    ;

    /// Whether the media is playing.
    fn get_is_playing(&self) -> (playing: bool)
        ensures
            playing == self.playing(),
    ;
}

impl Media for MusicMedia {
    open spec fn id(&self) -> Seq<char> {
        self.name@
    }

    open spec fn playing(&self) -> bool {
        self.is_playing
    }

    fn get_id(&self) -> (id: &String) {
        &self.name
    }

    fn get_is_playing(&self) -> (playing: bool) {
        self.is_playing
    }
}

impl Media for NowPlaying {
    open spec fn id(&self) -> Seq<char> {
        self.title@
    }

    open spec fn playing(&self) -> bool {
        self.is_playing
    }

    fn get_id(&self) -> (id: &String) {
        &self.title
    }

    fn get_is_playing(&self) -> (playing: bool) {
        self.is_playing
    }
}

} // verus!
