//! The identity of what is playing, and the record of the identity that was
//! emitted last, by which repeated observations are told from transitions.

use crate::now_playing::{NowPlaying, NowPlayingView};
use crate::text::str_eq;
use vstd::prelude::*;
use vstd::std_specs::cmp::PartialEqSpecImpl;

verus! {

/// What tells one emission from the next: the title and whether it is playing.
#[derive(Debug)]
pub struct MediaIdentity {
    pub title: String,
    pub is_playing: bool,
}

impl View for MediaIdentity {
    type V = (Seq<char>, bool);

    open spec fn view(&self) -> (Seq<char>, bool) {
        (self.title@, self.is_playing)
    }
}

impl Clone for MediaIdentity {
    fn clone(&self) -> (copy: Self)
        ensures
            copy == *self,
    {
        MediaIdentity { title: self.title.clone(), is_playing: self.is_playing }
    }
}

impl PartialEq for MediaIdentity {
    fn eq(&self, other: &Self) -> (same: bool) {
        self.is_playing == other.is_playing && str_eq(self.title.as_str(), other.title.as_str())
    }
}

impl PartialEqSpecImpl for MediaIdentity {
    open spec fn obeys_eq_spec() -> bool {
        true
    }

    open spec fn eq_spec(&self, other: &Self) -> bool {
        self@ == other@
    }
}

/// The identity of a snapshot. The artist is no part of it.
pub open spec fn identity_of(state: NowPlayingView) -> (Seq<char>, bool) {
    (state.title, state.is_playing)
}

/// Whether `candidate` is a transition from what was emitted last: nothing was
/// emitted yet, or the title or the playing flag differs.
pub open spec fn should_emit(last_emitted: Option<(Seq<char>, bool)>, candidate: NowPlayingView) -> bool {
    match last_emitted {
        None => true,
        Some(last) => last.1 != candidate.is_playing || last.0 != candidate.title,
    }
}

/// What was emitted last once `candidate` has been seen: its identity where it
/// is a transition, and what it was before where it is none.
pub open spec fn next_emitted(
    last_emitted: Option<(Seq<char>, bool)>,
    candidate: NowPlayingView,
) -> Option<(Seq<char>, bool)> {
    if should_emit(last_emitted, candidate) {
        Some(identity_of(candidate))
    } else {
        last_emitted
    }
}

/// The view of an identity that may be absent.
pub open spec fn optional_identity(identity: Option<&MediaIdentity>) -> Option<(Seq<char>, bool)> {
    match identity {
        Some(identity) => Some(identity@),
        None => None,
    }
}

impl MediaIdentity {
    /// The identity of a snapshot.
    pub fn of(state: &NowPlaying) -> (identity: MediaIdentity)
        ensures
            identity@ == identity_of(state@),
    {
        MediaIdentity { title: state.title.clone(), is_playing: state.is_playing }
    }
}

/// Decides whether `candidate` is to be emitted, given what was emitted last,
/// and gives the identity of `candidate`. The caller keeps that identity as the
/// last emitted one only where the decision is to emit.
pub fn update(last_emitted: Option<&MediaIdentity>, candidate: &NowPlaying) -> (result: (
    bool,
    MediaIdentity,
))
    ensures
        result.0 == should_emit(optional_identity(last_emitted), candidate@),
        result.1@ == identity_of(candidate@),
{
    let identity = MediaIdentity::of(candidate);
    let emit = match last_emitted {
        None => true,
        Some(last) => *last != identity,
    };
    (emit, identity)
}

/// The identity that was emitted last, if any was.
pub struct MediaCache(Option<MediaIdentity>);

impl View for MediaCache {
    type V = Option<(Seq<char>, bool)>;

    closed spec fn view(&self) -> Option<(Seq<char>, bool)> {
        match self.0 {
            Some(identity) => Some(identity@),
            None => None,
        }
    }
}

impl MediaCache {
    /// Sees `candidate`: says whether it is to be emitted, and if so keeps its
    /// identity as the last emitted one. A candidate that is not to be emitted
    /// leaves the cache as it was.
    pub fn update(&mut self, candidate: &NowPlaying) -> (emit: bool)
        ensures
            emit == should_emit(old(self)@, candidate@),
            final(self)@ == next_emitted(old(self)@, candidate@),
    {
        let (emit, identity) = update(self.0.as_ref(), candidate);
        if emit {
            self.0 = Some(identity);
        }
        emit
    }

    /// Forgets what was emitted last.
    pub fn clear(&mut self) -> (cache: &mut MediaCache)
        ensures
            cache@ is None,
            *final(self) == *final(cache),
    {
        self.0 = None;
        self
    }

    /// The cache before anything was emitted.
    pub fn init() -> (cache: Self)
        ensures
            cache@ is None,
    {
        MediaCache(None)
    }

    /// The identity that was emitted last, if any was.
    pub fn last_emitted(&self) -> (last: Option<&MediaIdentity>)
        ensures
            optional_identity(last) == self@,
    {
        self.0.as_ref()
    }

    /// Keeps `identity` as the last emitted one, whatever was emitted before.
    pub fn record(&mut self, identity: MediaIdentity)
        ensures
            final(self)@ == Some(identity@),
    {
        self.0 = Some(identity);
    }
}

/// What was emitted last once each of `states` has been seen in turn.
pub open spec fn last_after(
    last_emitted: Option<(Seq<char>, bool)>,
    states: Seq<NowPlayingView>,
) -> Option<(Seq<char>, bool)>
    decreases states.len(),
{
    if states.len() == 0 {
        last_emitted
    } else {
        next_emitted(last_after(last_emitted, states.drop_last()), states.last())
    }
}

/// The identities that are emitted while each of `states` is seen in turn, in
/// the order of their emission.
pub open spec fn emitted(
    last_emitted: Option<(Seq<char>, bool)>,
    states: Seq<NowPlayingView>,
) -> Seq<(Seq<char>, bool)>
    decreases states.len(),
{
    if states.len() == 0 {
        Seq::empty()
    } else {
        let before = states.drop_last();
        if should_emit(last_after(last_emitted, before), states.last()) {
            emitted(last_emitted, before).push(identity_of(states.last()))
        } else {
            emitted(last_emitted, before)
        }
    }
}

/// Whether the state at position `i` differs, in its title or in whether it is
/// playing, from what was emitted last before it.
pub open spec fn is_transition(
    last_emitted: Option<(Seq<char>, bool)>,
    states: Seq<NowPlayingView>,
    i: int,
) -> bool {
    should_emit(last_after(last_emitted, states.take(i)), states[i])
}

/// The positions `0` to `n - 1`, in order.
pub open spec fn positions(n: nat) -> Seq<int> {
    Seq::new(n, |i: int| i)
}

/// The identities of the states that are transitions, in the order of the
/// states.
pub open spec fn transitions(
    last_emitted: Option<(Seq<char>, bool)>,
    states: Seq<NowPlayingView>,
) -> Seq<(Seq<char>, bool)> {
    positions(states.len()).filter(|i: int| is_transition(last_emitted, states, i)).map_values(
        |i: int| identity_of(states[i]),
    )
}

/// Two tests that agree on every item of a sequence keep the same items of it.
pub proof fn lemma_filter_agrees<A>(items: Seq<A>, p: spec_fn(A) -> bool, q: spec_fn(A) -> bool)
    requires
        forall|i: int| 0 <= i < items.len() ==> p(#[trigger] items[i]) == q(items[i]),
    ensures
        items.filter(p) == items.filter(q),
    decreases items.len(),
{
    reveal(Seq::filter);
    if items.len() > 0 {
        lemma_filter_agrees(items.drop_last(), p, q);
    }
}

/// The identities emitted for a sequence of states are exactly those of the
/// states that differ, in title or in whether they are playing, from what was
/// emitted last before them: no other is emitted, none of them is left out, and
/// their order is kept.
pub proof fn lemma_emitted_are_the_transitions(
    last_emitted: Option<(Seq<char>, bool)>,
    states: Seq<NowPlayingView>,
)
    ensures
        emitted(last_emitted, states) == transitions(last_emitted, states),
    decreases states.len(),
{
    let test = |i: int| is_transition(last_emitted, states, i);
    let pick = |i: int| identity_of(states[i]);
    if states.len() == 0 {
        reveal(Seq::filter);
        assert(positions(0).filter(test).map_values(pick) =~= Seq::empty());
    } else {
        let n = (states.len() - 1) as nat;
        let before = states.drop_last();
        let test_before = |i: int| is_transition(last_emitted, before, i);
        let pick_before = |i: int| identity_of(before[i]);
        lemma_emitted_are_the_transitions(last_emitted, before);
        assert(positions(states.len()) =~= positions(n).push(n as int));
        assert forall|i: int| 0 <= i < n implies test(#[trigger] positions(n)[i]) == test_before(
            positions(n)[i],
        ) by {
            assert(states.take(i) =~= before.take(i));
        }
        lemma_filter_agrees(positions(n), test, test_before);
        positions(n).lemma_filter_push(n as int, test);
        let kept = positions(n).filter(test);
        assert forall|j: int| 0 <= j < kept.len() implies 0 <= #[trigger] kept[j] < n by {
            assert(kept.contains(kept[j]));
            positions(n).lemma_filter_contains_rev(test, kept[j]);
            let at = choose|at: int| 0 <= at < n && positions(n)[at] == kept[j];
            assert(positions(n)[at] == at);
        }
        assert(kept.map_values(pick) =~= kept.map_values(pick_before));
        assert(states.take(n as int) =~= before);
        if test(n as int) {
            kept.lemma_push_map_commute(pick, n as int);
        }
    }
}

/// Once a state has been seen, what was emitted last is the identity of the
/// state that was seen last, whether that state was emitted or not.
pub proof fn lemma_last_emitted_is_last_seen(
    last_emitted: Option<(Seq<char>, bool)>,
    states: Seq<NowPlayingView>,
)
    requires
        states.len() > 0,
    ensures
        last_after(last_emitted, states) == Some(identity_of(states.last())),
{
}

/// A state that differs from the state before it in nothing but the artist is
/// never emitted.
pub proof fn lemma_artist_only_change_is_silent(
    last_emitted: Option<(Seq<char>, bool)>,
    states: Seq<NowPlayingView>,
    i: int,
)
    requires
        0 < i < states.len(),
        states[i].title == states[i - 1].title,
        states[i].is_playing == states[i - 1].is_playing,
    ensures
        !is_transition(last_emitted, states, i),
        emitted(last_emitted, states.take(i + 1)) == emitted(last_emitted, states.take(i)),
{
    let seen = states.take(i);
    assert(seen.last() == states[i - 1]);
    lemma_last_emitted_is_last_seen(last_emitted, seen);
    let upto = states.take(i + 1);
    assert(upto.drop_last() =~= seen);
    assert(upto.last() == states[i]);
}

} // verus!
