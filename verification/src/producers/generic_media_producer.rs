//! The producer for the polled source. It emits a snapshot only where it is a
//! transition from what it emitted last, and it makes up the pause that the
//! polled source never reports once the music player has taken over.

use crate::artwork::Artwork;
use crate::artwork_cache::{is_hit, payload_view, ArtworkCache, ArtworkRecordView};
use crate::clock::now_millis;
use crate::media_cache::{
    emitted, identity_of, last_after, optional_identity, should_emit, update, MediaCache,
    MediaIdentity,
};
use crate::media_event::{normalize_at, MediaEvent, Snapshot};
use crate::now_playing::{
    now_playing_of, NowPlaying, NowPlayingService, NowPlayingView, SnapshotError,
    SnapshotErrorView,
};
use vstd::prelude::*;

verus! {

/// The pause that is made up for the media that was emitted last.
pub open spec fn made_up_pause(last: (Seq<char>, bool)) -> NowPlayingView {
    NowPlayingView { is_music: false, is_playing: false, title: last.0, artist: None }
}

/// What is emitted for `state`, given what was emitted last.
///
/// A snapshot of the music kind says that the music player has taken over: the
/// pause of what was emitted last is made up where that was playing, and nothing
/// is emitted else. Any other snapshot is emitted where it is a transition.
pub open spec fn emission(last_emitted: Option<(Seq<char>, bool)>, state: NowPlayingView) -> Option<
    NowPlayingView,
> {
    if state.is_music {
        match last_emitted {
            Some(last) => if last.1 {
                Some(made_up_pause(last))
            } else {
                None
            },
            None => None,
        }
    } else if should_emit(last_emitted, state) {
        Some(state)
    } else {
        None
    }
}

/// What was emitted last once `state` has been seen.
pub open spec fn emitted_after(last_emitted: Option<(Seq<char>, bool)>, state: NowPlayingView) -> Option<
    (Seq<char>, bool),
> {
    match emission(last_emitted, state) {
        Some(emitted) => Some(identity_of(emitted)),
        None => last_emitted,
    }
}

/// The view of a snapshot that may be absent.
pub open spec fn optional_state(state: Option<NowPlaying>) -> Option<NowPlayingView> {
    match state {
        Some(state) => Some(state@),
        None => None,
    }
}

/// Decides what is emitted for `state`, given what was emitted last.
pub fn reconcile(last_emitted: Option<&MediaIdentity>, state: NowPlaying) -> (emitted: Option<
    NowPlaying,
>)
    ensures
        optional_state(emitted) == emission(optional_identity(last_emitted), state@),
{
    if state.is_music {
        match last_emitted {
            Some(last) => if last.is_playing {
                Some(
                    NowPlaying {
                        is_music: false,
                        is_playing: false,
                        title: last.title.clone(),
                        artist: None,
                    },
                )
            } else {
                None
            },
            None => None,
        }
    } else {
        let (emit, _) = update(last_emitted, &state);
        if emit {
            Some(state)
        } else {
            None
        }
    }
}

/// What the producer for the polled source keeps between polls.
pub struct GenericMediaProducer {
    last_emitted: MediaCache,
    artwork: ArtworkCache,
}

/// What a `GenericMediaProducer` keeps, as views.
pub struct GenericMediaProducerView {
    /// The identity that was emitted last, if any was.
    pub last_emitted: Option<(Seq<char>, bool)>,
    /// The record of artwork that is kept, if any is.
    pub artwork: Option<ArtworkRecordView>,
}

impl GenericMediaProducerView {
    /// Whether the artwork that is kept is that of what was emitted last: none
    /// where nothing was emitted, and else the record of the title emitted last.
    pub open spec fn in_step(self) -> bool {
        match self.last_emitted {
            Some(last) => is_hit(self.artwork, last.0),
            None => self.artwork is None,
        }
    }
}

impl View for GenericMediaProducer {
    type V = GenericMediaProducerView;

    closed spec fn view(&self) -> GenericMediaProducerView {
        GenericMediaProducerView { last_emitted: self.last_emitted@, artwork: self.artwork@ }
    }
}

/// Whether a producer in the state `before` has to fetch artwork for the
/// snapshot `state`: something is emitted for it, and the artwork that is kept
/// is not that of its title.
pub open spec fn fetch_is_due(before: GenericMediaProducerView, state: NowPlayingView) -> bool {
    emission(before.last_emitted, state) matches Some(emitted) && !is_hit(
        before.artwork,
        emitted.title,
    )
}

/// Whether `event` and `after` are what a producer in the state `before` makes
/// of the snapshot `state`, where `fetched` says what a fetch may bring.
///
/// Where nothing is emitted, the producer stays as it is. Where something is,
/// it is emitted as a generic event with the artwork of its title: the one kept
/// for that title, or else one that is fetched and kept in its place.
pub open spec fn handled(
    before: GenericMediaProducerView,
    state: NowPlayingView,
    fetched: spec_fn(Option<Artwork>) -> bool,
    event: Option<MediaEvent>,
    after: GenericMediaProducerView,
) -> bool {
    &&& after.last_emitted == emitted_after(before.last_emitted, state)
    &&& match emission(before.last_emitted, state) {
        None => event is None && after.artwork == before.artwork,
        Some(emitted) => {
            &&& event matches Some(MediaEvent::Generic { media, artwork, .. })
            &&& media@ == emitted
            &&& after.artwork == Some(
                ArtworkRecordView { identity_key: emitted.title, payload: payload_view(artwork) },
            )
            &&& if is_hit(before.artwork, emitted.title) {
                after.artwork == before.artwork
            } else {
                fetched(artwork)
            }
        },
    }
}

impl GenericMediaProducer {
    /// The producer before its first poll: nothing emitted, no artwork kept.
    pub fn new() -> (producer: Self)
        ensures
            producer@.last_emitted is None,
            producer@.artwork is None,
            producer@.in_step(),
    {
        GenericMediaProducer { last_emitted: MediaCache::init(), artwork: ArtworkCache::init() }
    }

    /// Sees `state`: gives what is to be emitted for it, and keeps the identity
    /// of that as the last emitted one.
    fn observe(&mut self, state: NowPlaying) -> (emitted: Option<NowPlaying>)
        ensures
            optional_state(emitted) == emission(old(self)@.last_emitted, state@),
            final(self)@.last_emitted == emitted_after(old(self)@.last_emitted, state@),
            final(self)@.artwork == old(self)@.artwork,
    {
        let emitted = reconcile(self.last_emitted.last_emitted(), state);
        match &emitted {
            Some(snapshot) => {
                self.last_emitted.record(MediaIdentity::of(snapshot));
            },
            None => {},
        }
        emitted
    }

    /// Makes the event of `state`, if one is to be emitted for it, with the time
    /// `now` and with the artwork of its title, which `fetch` is asked for where
    /// the producer keeps none for that title. Where no fetch is due, none is
    /// made: `fetch` need not even be callable then.
    pub fn on_snapshot_at<F: FnOnce() -> Option<Artwork>>(
        &mut self,
        state: NowPlaying,
        fetch: F,
        now: i64,
    ) -> (event: Option<MediaEvent>)
        requires
            fetch_is_due(old(self)@, state@) ==> call_requires(fetch, ()),
        ensures
            handled(
                old(self)@,
                state@,
                |payload: Option<Artwork>| call_ensures(fetch, (), payload),
                event,
                final(self)@,
            ),
            event matches Some(emitted) ==> emitted.emitted_at() == now,
    {
        match self.observe(state) {
            Some(snapshot) => {
                let record = self.artwork.read(snapshot.title.as_str(), fetch);
                Some(normalize_at(Snapshot::Generic(snapshot), record.payload, now))
            },
            None => None,
        }
    }

    /// Makes the event of `state`, if one is to be emitted for it, with the time
    /// that the wall clock shows during the call.
    pub fn on_snapshot<F: FnOnce() -> Option<Artwork>>(&mut self, state: NowPlaying, fetch: F) -> (event:
        Option<MediaEvent>)
        requires
            fetch_is_due(old(self)@, state@) ==> call_requires(fetch, ()),
        ensures
            handled(
                old(self)@,
                state@,
                |payload: Option<Artwork>| call_ensures(fetch, (), payload),
                event,
                final(self)@,
            ),
    {
        self.on_snapshot_at(state, fetch, now_millis())
    }

    /// Makes the event of what one poll printed, if one is to be emitted for it.
    ///
    /// A record that gives no snapshot fails the poll and leaves the producer as
    /// it is.
    pub fn on_poll<F: FnOnce() -> Option<Artwork>>(&mut self, output: &String, fetch: F) -> (result:
        Result<Option<MediaEvent>, SnapshotError>)
        requires
            now_playing_of(output@) matches Ok(state) && fetch_is_due(old(self)@, state)
                ==> call_requires(fetch, ()),
        ensures
            match result {
                Ok(event) => now_playing_of(output@) matches Ok(state) && handled(
                    old(self)@,
                    state,
                    |payload: Option<Artwork>| call_ensures(fetch, (), payload),
                    event,
                    final(self)@,
                ),
                Err(e) => now_playing_of(output@) == Err::<NowPlayingView, SnapshotErrorView>(e@)
                    && final(self)@ == old(self)@,
            },
    {
        match NowPlayingService::get_now_playing(output) {
            Ok(state) => Ok(self.on_snapshot(state, fetch)),
            Err(e) => Err(e),
        }
    }
}

/// The producer keeps the artwork in step with what it emits: handling a
/// snapshot leaves the kept artwork that of what was emitted last.
pub proof fn lemma_handling_keeps_in_step(
    before: GenericMediaProducerView,
    state: NowPlayingView,
    fetched: spec_fn(Option<Artwork>) -> bool,
    event: Option<MediaEvent>,
    after: GenericMediaProducerView,
)
    requires
        before.in_step(),
        handled(before, state, fetched, event, after),
    ensures
        after.in_step(),
{
}

/// What was emitted last once each of `states` has been seen in turn.
pub open spec fn baseline_after(
    last_emitted: Option<(Seq<char>, bool)>,
    states: Seq<NowPlayingView>,
) -> Option<(Seq<char>, bool)>
    decreases states.len(),
{
    if states.len() == 0 {
        last_emitted
    } else {
        emitted_after(baseline_after(last_emitted, states.drop_last()), states.last())
    }
}

/// The snapshots that are emitted while each of `states` is seen in turn, in the
/// order of their emission.
pub open spec fn emissions(
    last_emitted: Option<(Seq<char>, bool)>,
    states: Seq<NowPlayingView>,
) -> Seq<NowPlayingView>
    decreases states.len(),
{
    if states.len() == 0 {
        Seq::empty()
    } else {
        let before = states.drop_last();
        match emission(baseline_after(last_emitted, before), states.last()) {
            Some(emitted) => emissions(last_emitted, before).push(emitted),
            None => emissions(last_emitted, before),
        }
    }
}

/// Whether what was emitted last is playing.
pub open spec fn was_playing(last_emitted: Option<(Seq<char>, bool)>) -> bool {
    last_emitted matches Some(last) && last.1
}

/// While the music player has taken over, the producer emits one made-up pause
/// where what it emitted last was playing, and nothing where it was not:
/// however many snapshots of the music kind it sees, it emits no second one.
pub proof fn lemma_one_made_up_pause(
    last_emitted: Option<(Seq<char>, bool)>,
    states: Seq<NowPlayingView>,
)
    requires
        states.len() > 0,
        forall|i: int| 0 <= i < states.len() ==> (#[trigger] states[i]).is_music,
    ensures
        !was_playing(baseline_after(last_emitted, states)),
        emissions(last_emitted, states) == if was_playing(last_emitted) {
            seq![made_up_pause(last_emitted->0)]
        } else {
            Seq::empty()
        },
    decreases states.len(),
{
    let before = states.drop_last();
    assert(states.last().is_music);
    if before.len() > 0 {
        assert forall|i: int| 0 <= i < before.len() implies (#[trigger] before[i]).is_music by {
            assert(before[i] == states[i]);
        }
        lemma_one_made_up_pause(last_emitted, before);
    } else {
        assert(emissions(last_emitted, before) =~= Seq::empty());
        if was_playing(last_emitted) {
            assert(Seq::<NowPlayingView>::empty().push(made_up_pause(last_emitted->0))
                =~= seq![made_up_pause(last_emitted->0)]);
        }
    }
}

/// While the music player has not taken over, the producer emits exactly the
/// transitions: the snapshots that differ, in title or in whether they are
/// playing, from what was emitted last before them.
pub proof fn lemma_emissions_are_the_transitions(
    last_emitted: Option<(Seq<char>, bool)>,
    states: Seq<NowPlayingView>,
)
    requires
        forall|i: int| 0 <= i < states.len() ==> !(#[trigger] states[i]).is_music,
    ensures
        baseline_after(last_emitted, states) == last_after(last_emitted, states),
        emissions(last_emitted, states).map_values(|state: NowPlayingView| identity_of(state))
            == emitted(last_emitted, states),
    decreases states.len(),
{
    let identify = |state: NowPlayingView| identity_of(state);
    if states.len() > 0 {
        let before = states.drop_last();
        assert(!states.last().is_music);
        assert forall|i: int| 0 <= i < before.len() implies !(#[trigger] before[i]).is_music by {
            assert(before[i] == states[i]);
        }
        lemma_emissions_are_the_transitions(last_emitted, before);
        if should_emit(last_after(last_emitted, before), states.last()) {
            emissions(last_emitted, before).lemma_push_map_commute(identify, states.last());
        }
    } else {
        assert(emissions(last_emitted, states).map_values(identify) =~= emitted(
            last_emitted,
            states,
        ));
    }
}

} // verus!
