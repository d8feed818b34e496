//! What the two producers of events decide for each observation they get.

pub mod generic_media_producer;
pub mod music_media_producer;
