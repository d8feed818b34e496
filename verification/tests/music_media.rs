use beam::medias::media::Media;
use beam::medias::music_media::MusicMedia;
use beam::now_playing::SnapshotError;
use beam::now_playing_raw_parser::ParsingError;
use beam::raw_snapshot::RawSnapshot;

fn dictionary(entries: &[(&str, &str)]) -> RawSnapshot {
    let mut fields = RawSnapshot::new();
    for (key, value) in entries {
        fields.insert(key.to_string(), value.to_string());
    }
    fields
}

fn pairs(list: &[(&str, &str)]) -> Vec<(String, String)> {
    list.iter().map(|(name, value)| (name.to_string(), value.to_string())).collect()
}

#[test]
fn track_of_a_full_notification() {
    let fields = dictionary(&[
        ("Player State", "Playing"),
        ("Store URL", "itmss://itunes.com/album?p=1440857781&i=1440857788"),
        ("Genre", "Rock"),
        ("Album", "Album A"),
        ("Artist", "Artist A"),
        ("Name", "Song A"),
    ]);
    let media = MusicMedia::from_cf_dictionary(&fields).unwrap();
    assert!(media.is_playing);
    assert_eq!(media.genre.as_deref(), Some("Rock"));
    assert_eq!(media.album.as_deref(), Some("Album A"));
    assert_eq!(media.artist.as_deref(), Some("Artist A"));
    assert_eq!(media.name, "Song A");
    assert_eq!(media.link.as_deref(), Some("https://music.apple.com/us/song/1440857788"));
    assert_eq!(media.get_id(), "Song A");
    assert!(media.get_is_playing());
    let copy = media.clone();
    assert_eq!(copy.name, "Song A");
    assert_eq!(copy.link, media.link);
}

#[test]
fn track_of_a_notification_with_state_and_name_only() {
    let fields = dictionary(&[("Player State", "Playing"), ("Name", "Song A")]);
    let media = MusicMedia::from_cf_dictionary(&fields).unwrap();
    assert!(media.is_playing);
    assert_eq!(media.name, "Song A");
    assert_eq!(media.genre, None);
    assert_eq!(media.album, None);
    assert_eq!(media.artist, None);
    assert_eq!(media.link, None);
}

#[test]
fn track_plays_in_the_state_playing_only() {
    for state in ["Paused", "Stopped", "playing", "Playing ", ""] {
        let fields = dictionary(&[("Player State", state), ("Name", "n")]);
        assert!(!MusicMedia::from_cf_dictionary(&fields).unwrap().is_playing, "{:?}", state);
    }
    let fields = dictionary(&[("Name", "n")]);
    assert!(!MusicMedia::from_cf_dictionary(&fields).unwrap().is_playing);
}

#[test]
fn notification_without_name_lacks_a_field() {
    let fields = dictionary(&[("Player State", "Playing")]);
    match MusicMedia::from_cf_dictionary(&fields) {
        Err(SnapshotError::MissingRequiredField(key)) => assert_eq!(key, "Name"),
        other => panic!("unexpected: {:?}", other),
    }
}

#[test]
fn store_address_that_is_no_url_fails_the_notification() {
    for address in ["", "not a url", "/relative/path?i=1", "//host/path?i=1"] {
        let fields = dictionary(&[("Store URL", address), ("Name", "n")]);
        match MusicMedia::from_cf_dictionary(&fields) {
            Err(SnapshotError::Malformed(ParsingError::MalformedValue(value))) => {
                assert_eq!(value, address)
            }
            other => panic!("unexpected for {:?}: {:?}", address, other),
        }
    }
    let fields = dictionary(&[("Store URL", "nonsense")]);
    assert!(matches!(
        MusicMedia::from_cf_dictionary(&fields),
        Err(SnapshotError::Malformed(ParsingError::MalformedValue(_)))
    ));
}

#[test]
fn link_is_made_of_the_first_song_parameter() {
    let link = |address: &str| {
        let fields = dictionary(&[("Store URL", address), ("Name", "n")]);
        MusicMedia::from_cf_dictionary(&fields).unwrap().link
    };
    assert_eq!(
        link("https://music.apple.com/us/album/x/1?i=22&i=33").as_deref(),
        Some("https://music.apple.com/us/song/22")
    );
    assert_eq!(
        link("https://music.apple.com/us/album/x/1?a=1&i=a%20b%2Fc&z=2").as_deref(),
        Some("https://music.apple.com/us/song/a b/c")
    );
    assert_eq!(
        link("https://music.apple.com/us/album/x/1?i=").as_deref(),
        Some("https://music.apple.com/us/song/")
    );
    assert_eq!(link("https://music.apple.com/us/album/x/1?I=22&id=3"), None);
    assert_eq!(link("https://music.apple.com/us/album/x/1"), None);
    assert_eq!(link("https://music.apple.com/us/album/x/1#i=22"), None);
}

#[test]
fn link_of_given_pairs() {
    assert_eq!(MusicMedia::purchase_link(&pairs(&[])), None);
    assert_eq!(MusicMedia::purchase_link(&pairs(&[("a", "1"), ("ii", "2")])), None);
    assert_eq!(
        MusicMedia::purchase_link(&pairs(&[("a", "1"), ("i", "2"), ("i", "3")])).as_deref(),
        Some("https://music.apple.com/us/song/2")
    );
}

#[test]
fn optional_value_of_a_key() {
    let fields = dictionary(&[("Genre", "Rock")]);
    assert_eq!(MusicMedia::optional(&fields, "Genre").as_deref(), Some("Rock"));
    assert_eq!(MusicMedia::optional(&fields, "Album"), None);
}
