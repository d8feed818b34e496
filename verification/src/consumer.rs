//! What the consumer of the queue decides for each event it takes: where the
//! event is stored, what is stored as its artwork, and what is reported once it
//! is stored.

use crate::clock::now_millis;
use crate::media_event::MediaEvent;
use vstd::prelude::*;

verus! {

/// The slot of the store that holds the current event. There is one slot for
/// all kinds of events: the latest event, of whatever kind, replaces the one
/// stored before.
pub const STORE_SLOT: &'static str = "music";

/// What is reported of an event that was stored.
#[derive(Debug)]
pub struct SyncReport {
    /// The type under which the event is stored.
    pub stored_type: &'static str,
    /// The text that its media is told from others by.
    pub name: String,
    /// Whether its media is playing.
    pub state: bool,
    /// The milliseconds that passed between its emission and its storing.
    pub latency_ms: i128,
}

/// What became of an event that the consumer took. Either way the consumer goes
/// on to the next event.
#[derive(Debug)]
pub enum Outcome {
    /// The event was stored, and this is reported.
    Synced(SyncReport),
    /// The write failed and the event is dropped.
    Dropped,
}

/// The milliseconds between an emission and `now`.
pub open spec fn latency(now: i64, emitted_at: i64) -> int {
    now - emitted_at
}

/// Whether `report` is what is reported of `event` when it is stored at `now`.
pub open spec fn reports(report: SyncReport, event: MediaEvent, now: i64) -> bool {
    &&& report.stored_type@ == event.stored_type()
    &&& report.name@ == event.id()
    &&& report.state == event.playing()
    &&& report.latency_ms == latency(now, event.emitted_at())
}

/// The slot of the store that `event` is written to: the same for every event.
pub fn store_slot(event: &MediaEvent) -> (slot: &'static str)
    ensures
        slot@ == STORE_SLOT@,
{
    STORE_SLOT
}

/// What is stored as the artwork of `event`: the text of its artwork, if it has
/// any.
pub fn attached_artwork(event: &MediaEvent) -> (text: Option<String>)
    ensures
        match text {
            Some(text) => event.artwork() matches Some(artwork) && text@ == artwork@,
            None => event.artwork() is None,
        },
{
    match event.get_artwork() {
        Some(artwork) => Some(artwork.get_string()),
        None => None,
    }
}

/// What is reported of `event` when it is stored at `now`.
pub fn sync_report_at(event: &MediaEvent, now: i64) -> (report: SyncReport)
    ensures
        reports(report, *event, now),
{
    SyncReport {
        stored_type: event.get_type(),
        name: event.get_id().clone(),
        state: event.get_is_playing(),
        latency_ms: now as i128 - *event.get_emitted_at() as i128,
    }
}

/// What became of `event` once its write has ended at `now`: reported where the
/// write succeeded, dropped where it failed.
pub fn settle_at(event: &MediaEvent, written: bool, now: i64) -> (outcome: Outcome)
    ensures
        match outcome {
            Outcome::Synced(report) => written && reports(report, *event, now),
            Outcome::Dropped => !written,
        },
{
    if written {
        Outcome::Synced(sync_report_at(event, now))
    } else {
        Outcome::Dropped
    }
}

/// What became of `event` once its write has ended, at the time that the wall
/// clock shows during the call.
pub fn media_event_handler(event: &MediaEvent, written: bool) -> (outcome: Outcome)
    ensures
        match outcome {
            Outcome::Synced(report) => written && exists|now: i64| reports(report, *event, now),
            Outcome::Dropped => !written,
        },
{
    settle_at(event, written, now_millis())
}

} // verus!
