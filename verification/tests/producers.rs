use beam::artwork::Artwork;
use beam::artwork_cache::{ArtworkCache, ArtworkRecord, CacheError, ForceReadStep};
use beam::media_cache::MediaIdentity;
use beam::media_event::MediaEvent;
use beam::medias::music_media::MusicMedia;
use beam::now_playing::{NowPlaying, SnapshotError};
use beam::producers::generic_media_producer::{reconcile, GenericMediaProducer};
use beam::producers::music_media_producer::{
    music_event_at, music_event_handler, still_eligible,
};
use beam::raw_snapshot::RawSnapshot;
use std::cell::Cell;

fn art(text: &str) -> Option<Artwork> {
    Some(Artwork::new(text.to_string()))
}

fn video(title: &str, is_playing: bool) -> NowPlaying {
    NowPlaying { is_music: false, is_playing, title: title.to_string(), artist: None }
}

fn music_kind(title: &str, is_playing: bool) -> NowPlaying {
    NowPlaying { is_music: true, is_playing, title: title.to_string(), artist: None }
}

fn force_read(
    cache: &mut ArtworkCache,
    identity: &str,
    fetch: impl Fn() -> Option<Artwork>,
    is_still_eligible: impl Fn() -> bool,
) -> Result<ArtworkRecord, CacheError> {
    let mut step = cache.force_read_begin(identity);
    loop {
        step = match step {
            ForceReadStep::Fetch => cache.force_read_fetched(identity, fetch()),
            ForceReadStep::AskEligibility => cache.force_read_answered(is_still_eligible()),
            ForceReadStep::Done(result) => return result,
        };
    }
}

fn notification() -> RawSnapshot {
    let mut fields = RawSnapshot::new();
    fields.insert("Player State".to_string(), "Playing".to_string());
    fields.insert("Name".to_string(), "Song A".to_string());
    fields
}

#[test]
fn repeated_notification_is_emitted_again_with_the_kept_artwork() {
    let fetches = Cell::new(0);
    let fetch = || {
        fetches.set(fetches.get() + 1);
        art("cover of Song A")
    };
    let mut cache = ArtworkCache::init();
    let mut events: Vec<MediaEvent> = Vec::new();
    for _ in 0..2 {
        let media = MusicMedia::from_cf_dictionary(&notification()).unwrap();
        let resolved = force_read(&mut cache, media.name.as_str(), fetch, || true);
        if let Some(event) = music_event_handler(media, resolved) {
            events.push(event);
        }
    }
    assert_eq!(events.len(), 2);
    assert_eq!(fetches.get(), 1);
    for event in &events {
        assert_eq!(event.get_type(), "music");
        assert_eq!(event.get_id(), "Song A");
        assert!(event.get_is_playing());
        assert_eq!(event.get_artwork().as_ref().unwrap().get_string(), "cover of Song A");
    }
}

#[test]
fn track_without_artwork_is_dropped_once_not_eligible() {
    let mut cache = ArtworkCache::init();
    let media = MusicMedia::from_cf_dictionary(&notification()).unwrap();
    let resolved = force_read(&mut cache, media.name.as_str(), || None, || false);
    assert_eq!(resolved.as_ref().unwrap_err(), &CacheError::NotEligible);
    assert!(music_event_handler(media, resolved).is_none());
    let media = MusicMedia::from_cf_dictionary(&notification()).unwrap();
    assert!(music_event_at(media, Err(CacheError::ArtworkUnavailable), 7).is_none());
}

#[test]
fn track_is_emitted_with_the_artwork_that_was_read() {
    let media = MusicMedia::from_cf_dictionary(&notification()).unwrap();
    let record = ArtworkRecord { identity_key: "Song A".to_string(), payload: art("cover") };
    match music_event_at(media, Ok(record), 42) {
        Some(MediaEvent::Music { media, artwork, emitted_at }) => {
            assert_eq!(media.name, "Song A");
            assert_eq!(artwork.unwrap().get_string(), "cover");
            assert_eq!(emitted_at, 42);
        }
        other => panic!("unexpected: {:?}", other),
    }
}

#[test]
fn polled_video_is_emitted_on_transitions_only() {
    let fetches = Cell::new(0);
    let fetch = || {
        fetches.set(fetches.get() + 1);
        art("cover of Video 1")
    };
    let mut producer = GenericMediaProducer::new();
    let mut events: Vec<MediaEvent> = Vec::new();
    for _ in 0..3 {
        events.extend(producer.on_snapshot_at(video("Video 1", true), fetch, 100));
    }
    assert_eq!(events.len(), 1);
    assert_eq!(events[0].get_type(), "generic");
    assert_eq!(events[0].get_id(), "Video 1");
    assert!(events[0].get_is_playing());

    events.extend(producer.on_snapshot_at(video("Video 1", false), fetch, 200));
    assert_eq!(events.len(), 2);
    assert!(!events[1].get_is_playing());
    assert_eq!(*events[1].get_emitted_at(), 200);

    events.extend(producer.on_snapshot_at(music_kind("Song A", true), fetch, 300));
    events.extend(producer.on_snapshot_at(music_kind("Song A", true), fetch, 400));
    assert_eq!(events.len(), 2);
    assert_eq!(fetches.get(), 1);
}

#[test]
fn pause_is_made_up_once_when_the_music_player_takes_over() {
    let fetches = Cell::new(0);
    let fetch = || {
        fetches.set(fetches.get() + 1);
        art("cover of Video 1")
    };
    let mut producer = GenericMediaProducer::new();
    let mut events: Vec<MediaEvent> = Vec::new();
    for _ in 0..3 {
        events.extend(producer.on_snapshot_at(video("Video 1", true), fetch, 100));
    }
    assert_eq!(events.len(), 1);
    for at in [200, 300, 400] {
        events.extend(producer.on_snapshot_at(music_kind("Song A", true), fetch, at));
    }
    assert_eq!(events.len(), 2);
    match &events[1] {
        MediaEvent::Generic { media, artwork, emitted_at } => {
            assert_eq!(media.title, "Video 1");
            assert!(!media.is_playing);
            assert!(!media.is_music);
            assert_eq!(media.artist, None);
            assert_eq!(artwork.as_ref().unwrap().get_string(), "cover of Video 1");
            assert_eq!(*emitted_at, 200);
        }
        other => panic!("unexpected: {:?}", other),
    }
    assert_eq!(fetches.get(), 1);
    events.extend(producer.on_snapshot_at(video("Video 1", true), fetch, 500));
    assert_eq!(events.len(), 3);
    assert!(events[2].get_is_playing());
}

#[test]
fn music_kind_is_never_emitted_by_the_polled_producer() {
    let mut producer = GenericMediaProducer::new();
    assert!(producer.on_snapshot(music_kind("Song A", true), || panic!("no fetch")).is_none());
    assert!(producer.on_snapshot(music_kind("Song B", false), || panic!("no fetch")).is_none());
    assert!(reconcile(None, music_kind("Song A", true)).is_none());
}

#[test]
fn reconciling_decides_what_is_emitted() {
    let playing = MediaIdentity { title: "Video 1".to_string(), is_playing: true };
    let paused = MediaIdentity { title: "Video 1".to_string(), is_playing: false };
    let pause = reconcile(Some(&playing), music_kind("Song A", true)).unwrap();
    assert_eq!((pause.title.as_str(), pause.is_playing, pause.is_music), ("Video 1", false, false));
    assert!(reconcile(Some(&paused), music_kind("Song A", true)).is_none());
    assert!(reconcile(Some(&playing), video("Video 1", true)).is_none());
    assert!(reconcile(Some(&playing), video("Video 1", false)).is_some());
    assert!(reconcile(Some(&playing), video("Video 2", true)).is_some());
    assert!(reconcile(None, video("Video 1", false)).is_some());
}

#[test]
fn producer_keeps_what_it_emitted() {
    let mut producer = GenericMediaProducer::new();
    assert!(producer.on_snapshot(video("a", true), || None).is_some());
    assert!(producer.on_snapshot(video("a", true), || None).is_none());
    let mut with_artist = video("a", true);
    with_artist.artist = Some("x".to_string());
    assert!(producer.on_snapshot(with_artist, || None).is_none());
    assert!(producer.on_snapshot(video("b", true), || None).is_some());
}

#[test]
fn artwork_of_a_new_title_is_fetched_anew() {
    let fetches = Cell::new(0);
    let mut producer = GenericMediaProducer::new();
    let first = producer.on_snapshot(video("a", true), || {
        fetches.set(fetches.get() + 1);
        None
    });
    assert!(first.unwrap().get_artwork().is_none());
    let paused = producer.on_snapshot(video("a", false), || {
        fetches.set(fetches.get() + 1);
        art("late")
    });
    assert!(paused.unwrap().get_artwork().is_none());
    assert_eq!(fetches.get(), 1);
    let second = producer.on_snapshot(video("b", true), || {
        fetches.set(fetches.get() + 1);
        art("cover of b")
    });
    assert_eq!(second.unwrap().get_artwork().as_ref().unwrap().get_string(), "cover of b");
    assert_eq!(fetches.get(), 2);
}

#[test]
fn poll_that_gives_no_snapshot_fails_alone() {
    let mut producer = GenericMediaProducer::new();
    let good = "{kMRMediaRemoteNowPlayingInfoTitle = \"Video 1\";\n\
                kMRMediaRemoteNowPlayingInfoPlaybackRate = 1}"
        .to_string();
    let event = producer.on_poll(&good, || art("cover")).unwrap().unwrap();
    assert_eq!(event.get_id(), "Video 1");
    assert!(event.get_is_playing());
    let untitled = "{kMRMediaRemoteNowPlayingInfoPlaybackRate = 0}".to_string();
    assert!(matches!(
        producer.on_poll(&untitled, || panic!("no fetch")),
        Err(SnapshotError::MissingRequiredField(_))
    ));
    assert!(matches!(
        producer.on_poll(&"garbage".to_string(), || panic!("no fetch")),
        Err(SnapshotError::Malformed(_))
    ));
    assert!(producer.on_poll(&good, || panic!("no fetch")).unwrap().is_none());
    let paused = "{kMRMediaRemoteNowPlayingInfoTitle = \"Video 1\";\n\
                  kMRMediaRemoteNowPlayingInfoPlaybackRate = 0}"
        .to_string();
    let event = producer.on_poll(&paused, || panic!("no fetch")).unwrap().unwrap();
    assert!(!event.get_is_playing());
    assert_eq!(event.get_artwork().as_ref().unwrap().get_string(), "cover");
}

#[test]
fn track_is_eligible_while_the_polled_source_reports_it_as_music() {
    assert!(still_eligible(Some(&music_kind("Song A", true)), "Song A"));
    assert!(still_eligible(Some(&music_kind("Song A", false)), "Song A"));
    assert!(!still_eligible(Some(&music_kind("Song B", true)), "Song A"));
    assert!(!still_eligible(Some(&video("Song A", true)), "Song A"));
    assert!(!still_eligible(None, "Song A"));
}

#[test]
fn two_equal_tracks_give_two_events_with_their_own_times() {
    let record = || ArtworkRecord { identity_key: "Song A".to_string(), payload: art("cover") };
    let first = MusicMedia::from_cf_dictionary(&notification()).unwrap();
    let second = MusicMedia::from_cf_dictionary(&notification()).unwrap();
    let events =
        [music_event_at(first, Ok(record()), 10), music_event_at(second, Ok(record()), 20)];
    let times: Vec<i64> = events.iter().map(|e| *e.as_ref().unwrap().get_emitted_at()).collect();
    assert_eq!(times, vec![10, 20]);
    for event in events.iter().flatten() {
        assert_eq!(event.get_id(), "Song A");
        assert!(event.get_is_playing());
        assert_eq!(event.get_type(), "music");
    }
}
