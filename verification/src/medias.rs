//! The kinds of media that events are made of.

pub mod media;
pub mod music_media;
