use beam::media_cache::{update, MediaCache, MediaIdentity};
use beam::now_playing::NowPlaying;

fn state(title: &str, is_playing: bool, artist: Option<&str>) -> NowPlaying {
    NowPlaying {
        is_music: false,
        is_playing,
        title: title.to_string(),
        artist: artist.map(|a| a.to_string()),
    }
}

fn run(cache: &mut MediaCache, states: &[NowPlaying]) -> Vec<(String, bool)> {
    let mut emitted = Vec::new();
    for candidate in states {
        if cache.update(candidate) {
            emitted.push((candidate.title.clone(), candidate.is_playing));
        }
    }
    emitted
}

#[test]
fn first_candidate_is_emitted() {
    let (emit, identity) = update(None, &state("a", false, None));
    assert!(emit);
    assert_eq!(identity.title, "a");
    assert!(!identity.is_playing);
}

#[test]
fn same_title_and_flag_is_not_emitted() {
    let last = MediaIdentity { title: "a".to_string(), is_playing: true };
    let (emit, identity) = update(Some(&last), &state("a", true, Some("x")));
    assert!(!emit);
    assert_eq!(identity.title, "a");
    assert!(identity.is_playing);
}

#[test]
fn other_flag_or_other_title_is_emitted() {
    let last = MediaIdentity { title: "a".to_string(), is_playing: true };
    assert!(update(Some(&last), &state("a", false, None)).0);
    assert!(update(Some(&last), &state("b", true, None)).0);
    assert!(update(Some(&last), &state("b", false, None)).0);
}

#[test]
fn emitted_identities_are_the_transitions() {
    let states = vec![
        state("a", true, None),
        state("a", true, Some("x")),
        state("a", true, Some("y")),
        state("a", false, Some("y")),
        state("a", false, None),
        state("b", false, None),
        state("b", true, None),
        state("a", true, None),
        state("a", true, None),
    ];
    let mut cache = MediaCache::init();
    let emitted = run(&mut cache, &states);
    let expected: Vec<(String, bool)> =
        [("a", true), ("a", false), ("b", false), ("b", true), ("a", true)]
            .iter()
            .map(|(t, p)| (t.to_string(), *p))
            .collect();
    assert_eq!(emitted, expected);
    let last = cache.last_emitted().unwrap();
    assert_eq!((last.title.as_str(), last.is_playing), ("a", true));
}

#[test]
fn artist_only_changes_are_never_emitted() {
    let states = vec![
        state("a", true, None),
        state("a", true, Some("x")),
        state("a", true, Some("y")),
        state("a", true, None),
    ];
    let mut cache = MediaCache::init();
    assert_eq!(run(&mut cache, &states), vec![("a".to_string(), true)]);
}

#[test]
fn candidate_that_is_not_emitted_leaves_the_cache() {
    let mut cache = MediaCache::init();
    assert!(cache.last_emitted().is_none());
    assert!(cache.update(&state("a", true, None)));
    assert!(!cache.update(&state("a", true, Some("x"))));
    let last = cache.last_emitted().unwrap();
    assert_eq!((last.title.as_str(), last.is_playing), ("a", true));
}

#[test]
fn cleared_cache_emits_again() {
    let mut cache = MediaCache::init();
    assert!(cache.update(&state("a", true, None)));
    assert!(!cache.update(&state("a", true, None)));
    assert!(cache.clear().last_emitted().is_none());
    assert!(cache.update(&state("a", true, None)));
    assert!(cache.clear().update(&state("a", true, None)));
}

#[test]
fn recorded_identity_is_the_last_emitted() {
    let mut cache = MediaCache::init();
    cache.record(MediaIdentity { title: "a".to_string(), is_playing: false });
    assert!(!cache.update(&state("a", false, None)));
    assert!(cache.update(&state("a", true, None)));
    let copy = cache.last_emitted().unwrap().clone();
    assert_eq!((copy.title.as_str(), copy.is_playing), ("a", true));
    let of = MediaIdentity::of(&state("t", true, Some("x")));
    assert_eq!((of.title.as_str(), of.is_playing), ("t", true));
}

#[test]
fn identities_are_equal_by_title_and_flag() {
    let a = MediaIdentity { title: "a".to_string(), is_playing: true };
    assert_eq!(a, MediaIdentity { title: "a".to_string(), is_playing: true });
    assert_ne!(a, MediaIdentity { title: "a".to_string(), is_playing: false });
    assert_ne!(a, MediaIdentity { title: "b".to_string(), is_playing: true });
    assert_eq!(a, a.clone());
}
