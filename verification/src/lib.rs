//! Watches what is playing. Two sources tell of it: the music player, which
//! notifies of each change, and a polled source, which is asked again and again.
//! What they tell is read into snapshots, repeated snapshots are told from
//! transitions, each emitted snapshot gets its cover artwork from a cache of one
//! record, and the resulting event is what the store keeps as the current one.
//!
//! This library holds the rules of all that, each with its contract. Running
//! the programs that are asked, waiting, queueing and writing to the store are
//! left to the program around it.

pub mod artwork;
pub mod artwork_cache;
pub mod clock;
pub mod consumer;
pub mod decimal;
pub mod media_cache;
pub mod media_event;
pub mod medias;
pub mod now_playing;
pub mod now_playing_raw_parser;
pub mod producers;
pub mod raw_snapshot;
pub mod text;
