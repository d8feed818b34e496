//! What the music player tells of the track it plays.

use crate::now_playing::{SnapshotError, SnapshotErrorView};
use crate::now_playing_raw_parser::{ParsingError, ParsingErrorView};
use crate::raw_snapshot::RawSnapshot;
use crate::text::str_eq;
use vstd::prelude::*;
use vstd::string::StringExecFns;

verus! {

/// The reason why the `url` crate could not read a text as a URL.
#[verifier::external_type_specification]
#[verifier::external_body]
pub struct ExUrlParseError(url::ParseError);

/// The name/value pairs of the query of the absolute URL that `input` is, in
/// order and percent-decoded, or nothing where `input` is no absolute URL.
pub uninterp spec fn url_query_pairs(input: Seq<char>) -> Option<Seq<(Seq<char>, Seq<char>)>>;

/// The character sequences of a list of pairs of texts.
pub open spec fn pair_views(pairs: Seq<(String, String)>) -> Seq<(Seq<char>, Seq<char>)> {
    pairs.map_values(|pair: (String, String)| (pair.0@, pair.1@))
}

/// `Url::parse` of the `url` crate on `input`, and `Url::query_pairs` of what it
/// gives, each pair as owned texts. Which texts are URLs, and what their pairs
/// are, is for that crate to say; it says the same of the same text every time.
#[verifier::external_body]
fn query_pairs(input: &str) -> (result: Result<Vec<(String, String)>, url::ParseError>)
    ensures
        match result {
            Ok(pairs) => url_query_pairs(input@) == Some(pair_views(pairs@)),
            Err(_) => url_query_pairs(input@) is None,
        },
{
    let parsed = url::Url::parse(input)?;
    Ok(parsed.query_pairs().map(|(name, value)| (name.into_owned(), value.into_owned())).collect())
}

/// The key whose value is `Playing` while the track plays.
pub const PLAYER_STATE: &'static str = "Player State";

/// The value of `PLAYER_STATE` that stands for playing.
pub const PLAYING: &'static str = "Playing";

/// The key whose value is the address of the track in the store.
pub const STORE_URL: &'static str = "Store URL";

/// The key whose value is the genre.
pub const GENRE: &'static str = "Genre";

/// The key whose value is the album.
pub const ALBUM: &'static str = "Album";

/// The key whose value is the artist.
pub const ARTIST: &'static str = "Artist";

/// The key whose value is the name of the track.
pub const NAME: &'static str = "Name";

/// The name of the query parameter that identifies the track in the store.
pub const SONG_PARAMETER: &'static str = "i";

/// What a link to a track starts with; the identifier of the track follows.
pub const SONG_LINK_PREFIX: &'static str = "https://music.apple.com/us/song/";

/// One track as the music player tells of it.
#[derive(Debug)]
pub struct MusicMedia {
    pub is_playing: bool,
    pub genre: Option<String>,
    pub album: Option<String>,
    pub artist: Option<String>,
    pub name: String,
    pub link: Option<String>,
}

/// A `MusicMedia` with its texts as character sequences.
pub struct MusicMediaView {
    pub is_playing: bool,
    pub genre: Option<Seq<char>>,
    pub album: Option<Seq<char>>,
    pub artist: Option<Seq<char>>,
    pub name: Seq<char>,
    pub link: Option<Seq<char>>,
}

/// The view of a text that may be absent.
pub open spec fn optional_view(text: Option<String>) -> Option<Seq<char>> {
    match text {
        Some(text) => Some(text@),
        None => None,
    }
}

impl View for MusicMedia {
    type V = MusicMediaView;

    open spec fn view(&self) -> MusicMediaView {
        MusicMediaView {
            is_playing: self.is_playing,
            genre: optional_view(self.genre),
            album: optional_view(self.album),
            artist: optional_view(self.artist),
            name: self.name@,
            link: optional_view(self.link),
        }
    }
}

/// The value of the first pair named `name`, if there is one.
pub open spec fn first_value(pairs: Seq<(Seq<char>, Seq<char>)>, name: Seq<char>) -> Option<
    Seq<char>,
>
    decreases pairs.len(),
{
    if pairs.len() == 0 {
        None
    } else if pairs[0].0 == name {
        Some(pairs[0].1)
    } else {
        first_value(pairs.drop_first(), name)
    }
}

/// The link to the track that the pairs of a store address identify: the prefix
/// and the value of the first `i`, or nothing where no pair is named `i`.
pub open spec fn link_of(pairs: Seq<(Seq<char>, Seq<char>)>) -> Option<Seq<char>> {
    match first_value(pairs, SONG_PARAMETER@) {
        Some(song) => Some(SONG_LINK_PREFIX@ + song),
        None => None,
    }
}

/// The value of `key` in `fields`, if it has one.
pub open spec fn field(fields: Map<Seq<char>, Seq<char>>, key: Seq<char>) -> Option<Seq<char>> {
    if fields.contains_key(key) {
        Some(fields[key])
    } else {
        None
    }
}

/// The track that a notification stands for.
///
/// A store address that is no URL fails the notification, and so does, after
/// that, a missing name. Every other key may be missing: a track without state
/// is not playing, and one without store address has no link.
pub open spec fn notified(fields: Map<Seq<char>, Seq<char>>) -> Result<
    MusicMediaView,
    SnapshotErrorView,
> {
    if fields.contains_key(STORE_URL@) && url_query_pairs(fields[STORE_URL@]) is None {
        Err(SnapshotErrorView::Malformed(ParsingErrorView::MalformedValue(fields[STORE_URL@])))
    } else if !fields.contains_key(NAME@) {
        Err(SnapshotErrorView::MissingRequiredField(NAME@))
    } else {
        Ok(
            MusicMediaView {
                is_playing: field(fields, PLAYER_STATE@) == Some(PLAYING@),
                genre: field(fields, GENRE@),
                album: field(fields, ALBUM@),
                artist: field(fields, ARTIST@),
                name: fields[NAME@],
                link: if fields.contains_key(STORE_URL@) {
                    link_of(url_query_pairs(fields[STORE_URL@])->0)
                } else {
                    None
                },
            },
        )
    }
}

impl Clone for MusicMedia {
    fn clone(&self) -> (copy: Self)
        ensures
            copy == *self,
    {
        MusicMedia {
            is_playing: self.is_playing,
            genre: self.genre.clone(),
            album: self.album.clone(),
            artist: self.artist.clone(),
            name: self.name.clone(),
            link: self.link.clone(),
        }
    }
}

impl MusicMedia {
    /// The link to the track that the pairs of a store address identify.
    pub fn purchase_link(pairs: &Vec<(String, String)>) -> (link: Option<String>)
        ensures
            optional_view(link) == link_of(pair_views(pairs@)),
    {
        let mut i: usize = 0;
        assert(pair_views(pairs@).skip(0) =~= pair_views(pairs@));
        while i < pairs.len()
            invariant
                i <= pairs.len(),
                link_of(pair_views(pairs@)) == link_of(pair_views(pairs@).skip(i as int)),
            decreases pairs.len() - i,
        {
            let ghost rest = pair_views(pairs@).skip(i as int);
            assert(rest[0] == (pairs@[i as int].0@, pairs@[i as int].1@));
            if str_eq(pairs[i].0.as_str(), SONG_PARAMETER) {
                let mut link = String::from_str(SONG_LINK_PREFIX);
                link.append(pairs[i].1.as_str());
                return Some(link);
            }
            assert(rest.drop_first() =~= pair_views(pairs@).skip(i + 1));
            i += 1;
        }
        None
    }

    /// Reads the track out of the mapping that a notification delivers.
    pub fn from_cf_dictionary(fields: &RawSnapshot) -> (result: Result<MusicMedia, SnapshotError>)
        ensures
            match result {
                Ok(media) => notified(fields@) == Ok::<MusicMediaView, SnapshotErrorView>(media@),
                Err(e) => notified(fields@) == Err::<MusicMediaView, SnapshotErrorView>(e@),
            },
    {
        let is_playing = match fields.get(PLAYER_STATE) {
            Some(state) => str_eq(state.as_str(), PLAYING),
            None => false,
        };
        let link = match fields.get(STORE_URL) {
            Some(address) => match query_pairs(address.as_str()) {
                Ok(pairs) => Self::purchase_link(&pairs),
                Err(_) => {
                    return Err(
                        SnapshotError::Malformed(ParsingError::MalformedValue(address.clone())),
                    );
                },
            },
            None => None,
        };
        let name = match fields.get(NAME) {
            Some(name) => name.clone(),
            None => {
                return Err(SnapshotError::MissingRequiredField(NAME.to_owned()));
            },
        };
        Ok(
            MusicMedia {
                is_playing,
                genre: Self::optional(fields, GENRE),
                album: Self::optional(fields, ALBUM),
                artist: Self::optional(fields, ARTIST),
                name,
                link,
            },
        )
    }

    /// The value of `key` in `fields`, if it has one.
    pub fn optional(fields: &RawSnapshot, key: &str) -> (value: Option<String>)
        ensures
            optional_view(value) == field(fields@, key@),
    {
        match fields.get(key) {
            Some(value) => Some(value.clone()),
            None => None,
        }
    }
}

} // verus!
