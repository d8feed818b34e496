use beam::artwork::Artwork;
use beam::artwork_cache::{ArtworkCache, ArtworkRecord, CacheError, ForceReadStep};
use std::cell::Cell;

fn art(text: &str) -> Option<Artwork> {
    Some(Artwork::new(text.to_string()))
}

fn text(record: &ArtworkRecord) -> Option<String> {
    record.payload.as_ref().map(|artwork| artwork.get_string())
}

fn force_read(
    cache: &mut ArtworkCache,
    identity: &str,
    fetch: impl Fn() -> Option<Artwork>,
    is_still_eligible: impl Fn() -> bool,
) -> Result<ArtworkRecord, CacheError> {
    let mut step = cache.force_read_begin(identity);
    loop {
        step = match step {
            ForceReadStep::Fetch => cache.force_read_fetched(identity, fetch()),
            ForceReadStep::AskEligibility => cache.force_read_answered(is_still_eligible()),
            ForceReadStep::Done(result) => return result,
        };
    }
}

#[test]
fn reading_one_identity_twice_fetches_once() {
    let fetches = Cell::new(0);
    let fetch = || {
        fetches.set(fetches.get() + 1);
        art("cover of A")
    };
    let mut cache = ArtworkCache::init();
    let first = cache.read("A", fetch);
    let second = cache.read("A", fetch);
    assert_eq!(fetches.get(), 1);
    assert_eq!(first.identity_key, "A");
    assert_eq!(second.identity_key, "A");
    assert_eq!(text(&first).as_deref(), Some("cover of A"));
    assert_eq!(text(&second).as_deref(), Some("cover of A"));
}

#[test]
fn reading_another_identity_fetches_again_and_discards_the_first() {
    let fetches = Cell::new(0);
    let mut cache = ArtworkCache::init();
    let a = cache.read("A", || {
        fetches.set(fetches.get() + 1);
        art("cover of A")
    });
    let b = cache.read("B", || {
        fetches.set(fetches.get() + 1);
        art("cover of B")
    });
    assert_eq!(fetches.get(), 2);
    assert_eq!(text(&a).as_deref(), Some("cover of A"));
    assert_eq!(b.identity_key, "B");
    assert_eq!(text(&b).as_deref(), Some("cover of B"));
    assert!(cache.lookup("A").is_none());
    assert_eq!(text(&cache.lookup("B").unwrap()).as_deref(), Some("cover of B"));
    let again = cache.read("A", || {
        fetches.set(fetches.get() + 1);
        art("new cover of A")
    });
    assert_eq!(fetches.get(), 3);
    assert_eq!(text(&again).as_deref(), Some("new cover of A"));
}

#[test]
fn empty_result_is_kept_and_not_fetched_again() {
    let fetches = Cell::new(0);
    let fetch = || {
        fetches.set(fetches.get() + 1);
        None
    };
    let mut cache = ArtworkCache::init();
    assert!(cache.read("A", fetch).payload.is_none());
    assert!(cache.read("A", fetch).payload.is_none());
    assert_eq!(fetches.get(), 1);
    let held = cache.lookup("A").unwrap();
    assert_eq!(held.identity_key, "A");
    assert!(held.payload.is_none());
}

#[test]
fn stored_record_replaces_what_was_held() {
    let mut cache = ArtworkCache::init();
    assert!(cache.lookup("A").is_none());
    let record = cache.store("A", art("one"));
    assert_eq!((record.identity_key.as_str(), text(&record).as_deref()), ("A", Some("one")));
    cache.store("A", art("two"));
    assert_eq!(text(&cache.lookup("A").unwrap()).as_deref(), Some("two"));
    cache.store("B", None);
    assert!(cache.lookup("A").is_none());
    assert!(cache.lookup("B").unwrap().payload.is_none());
    let copy = cache.lookup("B").unwrap().clone();
    assert_eq!(copy.identity_key, "B");
}

#[test]
fn cleared_cache_holds_nothing() {
    let mut cache = ArtworkCache::init();
    cache.store("A", art("one"));
    assert!(cache.clear().lookup("A").is_none());
    let fetches = Cell::new(0);
    cache.read("A", || {
        fetches.set(fetches.get() + 1);
        art("again")
    });
    assert_eq!(fetches.get(), 1);
}

#[test]
fn get_gives_the_artwork_and_keeps_it() {
    let fetches = Cell::new(0);
    let fetch = || {
        fetches.set(fetches.get() + 1);
        art("cover")
    };
    let mut cache = ArtworkCache::init();
    assert_eq!(cache.get("A", fetch).unwrap().get_string(), "cover");
    assert_eq!(cache.get("A", fetch).unwrap().get_string(), "cover");
    assert_eq!(fetches.get(), 1);
    assert_eq!(cache.get("B", fetch).unwrap().get_string(), "cover");
    assert_eq!(fetches.get(), 2);
    assert!(cache.lookup("A").is_none());
}

#[test]
fn get_without_artwork_is_unavailable_and_keeps_the_empty_record() {
    let fetches = Cell::new(0);
    let mut cache = ArtworkCache::init();
    let nothing = || {
        fetches.set(fetches.get() + 1);
        None
    };
    assert_eq!(cache.get("A", nothing).unwrap_err(), CacheError::ArtworkUnavailable);
    assert_eq!(fetches.get(), 1);
    let held = cache.lookup("A").unwrap();
    assert_eq!(held.identity_key, "A");
    assert!(held.payload.is_none());
    assert_eq!(cache.get("A", nothing).unwrap_err(), CacheError::ArtworkUnavailable);
    assert_eq!(
        cache.get("A", || panic!("an empty record is not fetched again")).unwrap_err(),
        CacheError::ArtworkUnavailable
    );
    assert_eq!(fetches.get(), 1);
    assert!(cache.read("A", || panic!("no fetch is due")).payload.is_none());
    let other = cache.get("B", || {
        fetches.set(fetches.get() + 1);
        art("cover of B")
    });
    assert_eq!(other.unwrap().get_string(), "cover of B");
    assert_eq!(fetches.get(), 2);
    assert!(cache.lookup("A").is_none());
}

#[test]
fn get_on_a_kept_record_makes_no_fetch() {
    let mut cache = ArtworkCache::init();
    let first = cache.get("A", || art("cover")).unwrap();
    let second = cache.get("A", || panic!("no fetch is due")).unwrap();
    assert_eq!(first.get_string(), second.get_string());
    assert_eq!(cache.lookup("A").unwrap().payload.unwrap().get_string(), "cover");
    cache.store("A", None);
    assert_eq!(
        cache.get("A", || panic!("no fetch is due")).unwrap_err(),
        CacheError::ArtworkUnavailable
    );
    cache.clear();
    assert_eq!(cache.get("A", || art("new cover")).unwrap().get_string(), "new cover");
}

#[test]
fn forced_read_ends_once_not_eligible_without_any_payload() {
    let fetches = Cell::new(0);
    let answers = Cell::new(0);
    let mut cache = ArtworkCache::init();
    let result = force_read(
        &mut cache,
        "A",
        || {
            fetches.set(fetches.get() + 1);
            None
        },
        || {
            answers.set(answers.get() + 1);
            answers.get() < 4
        },
    );
    assert_eq!(result.unwrap_err(), CacheError::NotEligible);
    assert_eq!(answers.get(), 4);
    assert_eq!(fetches.get(), 4);
}

#[test]
fn forced_read_ends_at_once_where_never_eligible() {
    let fetches = Cell::new(0);
    let mut cache = ArtworkCache::init();
    let result = force_read(
        &mut cache,
        "A",
        || {
            fetches.set(fetches.get() + 1);
            None
        },
        || false,
    );
    assert_eq!(result.unwrap_err(), CacheError::NotEligible);
    assert_eq!(fetches.get(), 1);
    let held = cache.lookup("A").unwrap();
    assert!(held.payload.is_none());
}

#[test]
fn forced_read_fetches_until_the_payload_is_there() {
    let fetches = Cell::new(0);
    let mut cache = ArtworkCache::init();
    let result = force_read(
        &mut cache,
        "A",
        || {
            fetches.set(fetches.get() + 1);
            if fetches.get() < 3 {
                None
            } else {
                art("late cover")
            }
        },
        || true,
    );
    let record = result.unwrap();
    assert_eq!(record.identity_key, "A");
    assert_eq!(text(&record).as_deref(), Some("late cover"));
    assert_eq!(fetches.get(), 3);
    let again = force_read(&mut cache, "A", || panic!("no fetch is due"), || panic!("no question"));
    assert_eq!(text(&again.unwrap()).as_deref(), Some("late cover"));
}

#[test]
fn steps_of_a_forced_read() {
    let mut cache = ArtworkCache::init();
    assert!(matches!(cache.force_read_begin("A"), ForceReadStep::Fetch));
    assert!(matches!(cache.force_read_fetched("A", None), ForceReadStep::AskEligibility));
    assert!(matches!(cache.force_read_begin("A"), ForceReadStep::AskEligibility));
    assert!(matches!(cache.force_read_begin("B"), ForceReadStep::Fetch));
    assert!(matches!(cache.force_read_answered(true), ForceReadStep::Fetch));
    assert!(cache.lookup("A").is_none());
    assert!(matches!(cache.force_read_fetched("A", None), ForceReadStep::AskEligibility));
    assert!(matches!(
        cache.force_read_answered(false),
        ForceReadStep::Done(Err(CacheError::NotEligible))
    ));
    assert!(cache.lookup("A").is_some());
    match cache.force_read_fetched("A", art("cover")) {
        ForceReadStep::Done(Ok(record)) => assert_eq!(text(&record).as_deref(), Some("cover")),
        other => panic!("unexpected: {:?}", other),
    }
    assert!(matches!(cache.force_read_begin("A"), ForceReadStep::Done(Ok(_))));
}
