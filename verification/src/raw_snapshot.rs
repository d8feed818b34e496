//! The key/value mapping read out of one record of playback state.

use vstd::hash_map::StringHashMap;
use vstd::prelude::*;

verus! {

/// A mapping of unique keys to values. The order in which the entries were added
/// is not kept; adding a key again replaces its value.
pub struct RawSnapshot {
    entries: StringHashMap<String>,
}

impl View for RawSnapshot {
    type V = Map<Seq<char>, Seq<char>>;

    closed spec fn view(&self) -> Map<Seq<char>, Seq<char>> {
        self.entries@.map_values(|value: String| value@)
    }
}

impl RawSnapshot {
    /// The mapping without entries.
    pub fn new() -> (snapshot: Self)
        ensures
            snapshot@ == Map::<Seq<char>, Seq<char>>::empty(),
    {
        let snapshot = RawSnapshot { entries: StringHashMap::new() };
        assert(snapshot@ =~= Map::<Seq<char>, Seq<char>>::empty());
        snapshot
    }

    /// Maps `key` to `value`, in place of what `key` was mapped to before.
    pub fn insert(&mut self, key: String, value: String)
        ensures
            final(self)@ == old(self)@.insert(key@, value@),
    {
        self.entries.insert(key, value);
        assert(self@ =~= old(self)@.insert(key@, value@));
    }

    /// The value that `key` is mapped to, if any.
    pub fn get(&self, key: &str) -> (value: Option<&String>)
        ensures
            match value {
                Some(found) => self@.contains_key(key@) && found@ == self@[key@],
                None => !self@.contains_key(key@),
            },
    {
        self.entries.get(key)
    }

    /// Whether `key` is mapped to a value.
    pub fn contains_key(&self, key: &str) -> (present: bool)
        ensures
            present == self@.contains_key(key@),
    {
        self.entries.contains_key(key)
    }
}

} // verus!
