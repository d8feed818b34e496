//! The artwork of the media that was resolved last: one record, which a read for
//! another identity replaces as a whole.

use crate::artwork::Artwork;
use crate::text::str_eq;
use vstd::prelude::*;

verus! {

/// The artwork that was fetched for one identity. An absent payload is a fetch
/// that brought nothing.
#[derive(Debug)]
pub struct ArtworkRecord {
    pub identity_key: String,
    pub payload: Option<Artwork>,
}

/// An `ArtworkRecord` with its texts as character sequences.
pub struct ArtworkRecordView {
    pub identity_key: Seq<char>,
    pub payload: Option<Seq<char>>,
}

/// The view of a payload that may be absent.
pub open spec fn payload_view(payload: Option<Artwork>) -> Option<Seq<char>> {
    match payload {
        Some(artwork) => Some(artwork@),
        None => None,
    }
}

impl View for ArtworkRecord {
    type V = ArtworkRecordView;

    open spec fn view(&self) -> ArtworkRecordView {
        ArtworkRecordView { identity_key: self.identity_key@, payload: payload_view(self.payload) }
    }
}

impl Clone for ArtworkRecord {
    fn clone(&self) -> (copy: Self)
        ensures
            copy == *self,
    {
        ArtworkRecord {
            identity_key: self.identity_key.clone(),
            payload: match &self.payload {
                Some(artwork) => Some(artwork.clone()),
                None => None,
            },
        }
    }
}

/// Why a read gave no artwork.
#[derive(Debug, Clone, Copy, PartialEq, Eq, Structural)]
pub enum CacheError {
    /// The fetch brought nothing.
    ArtworkUnavailable,
    /// The fetch brought nothing, and the media is no longer one to wait for.
    NotEligible,
}

/// What is to happen next in a forced read.
#[derive(Debug)]
pub enum ForceReadStep {
    /// The artwork of the identity is to be fetched, and handed to
    /// `force_read_fetched`.
    Fetch,
    /// Whether the media is still eligible is to be found out, and handed to
    /// `force_read_answered`.
    AskEligibility,
    /// The forced read has ended, with this result.
    Done(Result<ArtworkRecord, CacheError>),
}

/// A `ForceReadStep` with the record it may carry as a view.
pub enum ForceReadStepView {
    Fetch,
    AskEligibility,
    Done(Result<ArtworkRecordView, CacheError>),
}

impl View for ForceReadStep {
    type V = ForceReadStepView;

    open spec fn view(&self) -> ForceReadStepView {
        match self {
            ForceReadStep::Fetch => ForceReadStepView::Fetch,
            ForceReadStep::AskEligibility => ForceReadStepView::AskEligibility,
            ForceReadStep::Done(Ok(record)) => ForceReadStepView::Done(Ok(record@)),
            ForceReadStep::Done(Err(e)) => ForceReadStepView::Done(Err(*e)),
        }
    }
}

/// Whether the cache holds the record of `identity`.
pub open spec fn is_hit(cache: Option<ArtworkRecordView>, identity: Seq<char>) -> bool {
    cache matches Some(record) && record.identity_key == identity
}

/// The step with which a forced read for `identity` starts: done where the
/// cache holds its artwork, the question of eligibility where it holds the
/// record of a fetch that brought nothing, and a fetch where it holds neither.
pub open spec fn begin_step(cache: Option<ArtworkRecordView>, identity: Seq<char>) -> ForceReadStepView {
    if is_hit(cache, identity) {
        step_after(cache->0)
    } else {
        ForceReadStepView::Fetch
    }
}

/// The step that follows once `record` is what the cache holds: done where it
/// has a payload, and the question of eligibility where it has none.
pub open spec fn step_after(record: ArtworkRecordView) -> ForceReadStepView {
    if record.payload is Some {
        ForceReadStepView::Done(Ok(record))
    } else {
        ForceReadStepView::AskEligibility
    }
}

/// The step that follows the answer to the question of eligibility: another
/// fetch where the media is still eligible, and the end where it is not.
pub open spec fn answer_step(still_eligible: bool) -> ForceReadStepView {
    if still_eligible {
        ForceReadStepView::Fetch
    } else {
        ForceReadStepView::Done(Err(CacheError::NotEligible))
    }
}

/// The one record of artwork that is kept.
pub struct ArtworkCache(Option<ArtworkRecord>);

impl View for ArtworkCache {
    type V = Option<ArtworkRecordView>;

    closed spec fn view(&self) -> Option<ArtworkRecordView> {
        match self.0 {
            Some(record) => Some(record@),
            None => None,
        }
    }
}

impl ArtworkCache {
    /// The artwork of `identity`, as `read` gives it.
    ///
    /// Where the cache holds the record of `identity`, nothing is fetched and the
    /// cache stays as it is. Else one fetch is made, and what it brings is kept
    /// under `identity` in place of the record held before, even where it brings
    /// nothing. The payload of the record that the cache then holds is given, and
    /// `ArtworkUnavailable` where that record has none.
    pub fn get<F: FnOnce() -> Option<Artwork>>(&mut self, identity: &str, fetch: F) -> (result:
        Result<Artwork, CacheError>)
        requires
            !is_hit(old(self)@, identity@) ==> call_requires(fetch, ()),
        ensures
            is_hit(old(self)@, identity@) ==> final(self)@ == old(self)@ && match result {
                Ok(artwork) => old(self)@->0.payload == Some(artwork@),
                Err(e) => e == CacheError::ArtworkUnavailable && old(self)@->0.payload is None,
            },
            !is_hit(old(self)@, identity@) ==> match result {
                Ok(artwork) => {
                    &&& call_ensures(fetch, (), Some(artwork))
                    &&& final(self)@ == Some(
                        ArtworkRecordView { identity_key: identity@, payload: Some(artwork@) },
                    )
                },
                Err(e) => {
                    &&& e == CacheError::ArtworkUnavailable
                    &&& call_ensures(fetch, (), None::<Artwork>)
                    &&& final(self)@ == Some(
                        ArtworkRecordView { identity_key: identity@, payload: None },
                    )
                },
            },
    {
        match self.read(identity, fetch).payload {
            Some(artwork) => Ok(artwork),
            None => Err(CacheError::ArtworkUnavailable),
        }
    }

    /// Empties the cache.
    pub fn clear(&mut self) -> (cache: &mut ArtworkCache)
        ensures
            cache@ is None,
            *final(self) == *final(cache),
    {
        self.0 = None;
        self
    }

    /// The empty cache.
    pub fn init() -> (cache: Self)
        ensures
            cache@ is None,
    {
        ArtworkCache(None)
    }

    /// The record of `identity`, where the cache holds it.
    pub fn lookup(&self, identity: &str) -> (found: Option<ArtworkRecord>)
        ensures
            match found {
                Some(record) => is_hit(self@, identity@) && Some(record@) == self@,
                None => !is_hit(self@, identity@),
            },
    {
        match &self.0 {
            Some(record) => if str_eq(record.identity_key.as_str(), identity) {
                Some(record.clone())
            } else {
                None
            },
            None => None,
        }
    }

    /// Keeps `payload` as what was fetched for `identity`, in place of whatever
    /// the cache held, and gives the record that it now holds.
    pub fn store(&mut self, identity: &str, payload: Option<Artwork>) -> (record: ArtworkRecord)
        ensures
            record.payload == payload,
            record@ == (ArtworkRecordView {
                identity_key: identity@,
                payload: payload_view(payload),
            }),
            final(self)@ == Some(record@),
    {
        let record = ArtworkRecord { identity_key: identity.to_owned(), payload };
        let copy = record.clone();
        self.0 = Some(record);
        copy
    }

    /// The record of `identity`.
    ///
    /// Where the cache holds the record of `identity`, that record is given and
    /// nothing is fetched: `fetch` need not even be callable then. Else one fetch
    /// is made, what it brings is kept under `identity` in place of the record
    /// held before, even where it brings nothing, and that new record is given.
    pub fn read<F: FnOnce() -> Option<Artwork>>(&mut self, identity: &str, fetch: F) -> (record:
        ArtworkRecord)
        requires
            !is_hit(old(self)@, identity@) ==> call_requires(fetch, ()),
        ensures
            record@.identity_key == identity@,
            final(self)@ == Some(record@),
            is_hit(old(self)@, identity@) ==> final(self)@ == old(self)@,
            !is_hit(old(self)@, identity@) ==> call_ensures(fetch, (), record.payload),
    {
        match self.lookup(identity) {
            Some(record) => record,
            None => {
                let payload = fetch();
                self.store(identity, payload)
            },
        }
    }

    /// Starts a forced read for `identity`. The cache stays as it is.
    pub fn force_read_begin(&self, identity: &str) -> (step: ForceReadStep)
        ensures
            step@ == begin_step(self@, identity@),
    {
        match self.lookup(identity) {
            Some(record) => if record.payload.is_some() {
                ForceReadStep::Done(Ok(record))
            } else {
                ForceReadStep::AskEligibility
            },
            None => ForceReadStep::Fetch,
        }
    }

    /// Goes on with a forced read for `identity` once `payload` was fetched: the
    /// cache keeps it under `identity`, even where it is nothing, and the read is
    /// done where it is something.
    pub fn force_read_fetched(&mut self, identity: &str, payload: Option<Artwork>) -> (step:
        ForceReadStep)
        ensures
            final(self)@ == Some(
                ArtworkRecordView { identity_key: identity@, payload: payload_view(payload) },
            ),
            step@ == step_after(final(self)@->0),
            step matches ForceReadStep::Done(Ok(record)) ==> record.payload == payload,
    {
        let record = self.store(identity, payload);
        if record.payload.is_some() {
            ForceReadStep::Done(Ok(record))
        } else {
            ForceReadStep::AskEligibility
        }
    }

    /// Goes on with a forced read once the question of eligibility is answered.
    ///
    /// An answer of `false` ends the read with `NotEligible` and leaves the cache
    /// as it is. An answer of `true` empties the cache and asks for another fetch.
    pub fn force_read_answered(&mut self, still_eligible: bool) -> (step: ForceReadStep)
        ensures
            step@ == answer_step(still_eligible),
            still_eligible ==> final(self)@ is None,
            !still_eligible ==> final(self)@ == old(self)@,
    {
        if still_eligible {
            self.0 = None;
            ForceReadStep::Fetch
        } else {
            ForceReadStep::Done(Err(CacheError::NotEligible))
        }
    }
}

/// The identity whose record the cache holds, if it holds one.
pub open spec fn held_identity(cache: Option<ArtworkRecordView>) -> Option<Seq<char>> {
    match cache {
        Some(record) => Some(record.identity_key),
        None => None,
    }
}

/// The number of fetches that reads for `identities`, one after the other,
/// make on a cache that holds the record of `held`: one for each identity that
/// is not the one read just before it.
pub open spec fn fetches(held: Option<Seq<char>>, identities: Seq<Seq<char>>) -> nat
    decreases identities.len(),
{
    if identities.len() == 0 {
        0
    } else {
        let first: nat = if held == Some(identities[0]) {
            0
        } else {
            1
        };
        first + fetches(Some(identities[0]), identities.drop_first())
    }
}

/// Where a forced read for `identity` stands, from `step` on, once the fetches
/// have brought `brought`, one after the other, and the questions of
/// eligibility were answered by `answers`, one after the other. The run stops
/// early where it is done, and where it waits for a fetch or an answer that the
/// sequences no longer hold.
pub open spec fn force_read_run(
    step: ForceReadStepView,
    identity: Seq<char>,
    brought: Seq<Option<Seq<char>>>,
    answers: Seq<bool>,
) -> ForceReadStepView
    decreases brought.len() + answers.len(),
{
    match step {
        ForceReadStepView::Done(_) => step,
        ForceReadStepView::Fetch => if brought.len() == 0 {
            step
        } else {
            force_read_run(
                step_after(ArtworkRecordView { identity_key: identity, payload: brought[0] }),
                identity,
                brought.drop_first(),
                answers,
            )
        },
        ForceReadStepView::AskEligibility => if answers.len() == 0 {
            step
        } else {
            force_read_run(answer_step(answers[0]), identity, brought, answers.drop_first())
        },
    }
}

/// A read is a hit exactly where the identity that the cache holds is the one
/// that is read; so a read fetches exactly where `fetches` counts one for it.
pub proof fn lemma_hit_is_held_identity(cache: Option<ArtworkRecordView>, identity: Seq<char>)
    ensures
        is_hit(cache, identity) <==> held_identity(cache) == Some(identity),
        fetches(held_identity(cache), seq![identity]) == if is_hit(cache, identity) {
            0nat
        } else {
            1nat
        },
{
    assert(seq![identity].drop_first() =~= Seq::<Seq<char>>::empty());
    reveal_with_fuel(fetches, 2);
}

/// Reads for one identity, however many, fetch once where the cache did not
/// hold its record, and never where it did.
pub proof fn lemma_repeated_reads_fetch_once(
    held: Option<Seq<char>>,
    identities: Seq<Seq<char>>,
    identity: Seq<char>,
)
    requires
        identities.len() > 0,
        forall|i: int| 0 <= i < identities.len() ==> #[trigger] identities[i] == identity,
    ensures
        fetches(held, identities) == if held == Some(identity) {
            0nat
        } else {
            1nat
        },
    decreases identities.len(),
{
    let rest = identities.drop_first();
    assert(identities[0] == identity);
    if rest.len() > 0 {
        assert forall|i: int| 0 <= i < rest.len() implies #[trigger] rest[i] == identity by {
            assert(rest[i] == identities[i + 1]);
        }
        lemma_repeated_reads_fetch_once(Some(identity), rest, identity);
    } else {
        assert(fetches(Some(identity), rest) == 0);
    }
}

/// A read for one identity and then a read for another fetch twice on a cache
/// that held the record of neither.
pub proof fn lemma_read_of_another_fetches_again(
    held: Option<Seq<char>>,
    first: Seq<char>,
    second: Seq<char>,
)
    requires
        held != Some(first),
        first != second,
    ensures
        fetches(held, seq![first, second]) == 2,
{
    let both = seq![first, second];
    assert(both.drop_first() =~= seq![second]);
    assert(seq![second].drop_first() =~= Seq::<Seq<char>>::empty());
    reveal_with_fuel(fetches, 3);
}

/// A forced read ends with `NotEligible` at the first answer that the media is
/// no longer eligible, though no fetch ever brings a payload.
pub proof fn lemma_force_read_ends_when_not_eligible(
    step: ForceReadStepView,
    identity: Seq<char>,
    brought: Seq<Option<Seq<char>>>,
    answers: Seq<bool>,
    k: int,
)
    requires
        step is Fetch || step is AskEligibility,
        forall|i: int| 0 <= i < brought.len() ==> #[trigger] brought[i] is None,
        0 <= k < answers.len(),
        forall|j: int| 0 <= j < k ==> #[trigger] answers[j],
        !answers[k],
        brought.len() >= k + (if step is Fetch {
            1int
        } else {
            0int
        }),
    ensures
        force_read_run(step, identity, brought, answers) == ForceReadStepView::Done(
            Err(CacheError::NotEligible),
        ),
    decreases brought.len() + answers.len(),
{
    match step {
        ForceReadStepView::Fetch => {
            let rest = brought.drop_first();
            assert forall|i: int| 0 <= i < rest.len() implies #[trigger] rest[i] is None by {
                assert(rest[i] == brought[i + 1]);
            }
            lemma_force_read_ends_when_not_eligible(
                ForceReadStepView::AskEligibility,
                identity,
                rest,
                answers,
                k,
            );
        },
        ForceReadStepView::AskEligibility => {
            if k > 0 {
                let rest = answers.drop_first();
                assert(answers[0]);
                assert forall|j: int| 0 <= j < k - 1 implies #[trigger] rest[j] by {
                    assert(rest[j] == answers[j + 1]);
                }
                assert(rest[k - 1] == answers[k]);
                lemma_force_read_ends_when_not_eligible(
                    ForceReadStepView::Fetch,
                    identity,
                    brought,
                    rest,
                    k - 1,
                );
            } else {
                assert(force_read_run(
                    answer_step(answers[0]),
                    identity,
                    brought,
                    answers.drop_first(),
                ) == answer_step(answers[0]));
            }
        },
        ForceReadStepView::Done(_) => {},
    }
}

/// A forced read ends with the record of the first fetch that brings a payload.
pub proof fn lemma_force_read_ends_with_artwork(
    identity: Seq<char>,
    brought: Seq<Option<Seq<char>>>,
    answers: Seq<bool>,
)
    requires
        brought.len() > 0,
        brought[0] is Some,
    ensures
        force_read_run(ForceReadStepView::Fetch, identity, brought, answers)
            == ForceReadStepView::Done(
            Ok(ArtworkRecordView { identity_key: identity, payload: brought[0] }),
        ),
{
    let record = ArtworkRecordView { identity_key: identity, payload: brought[0] };
    assert(force_read_run(step_after(record), identity, brought.drop_first(), answers)
        == step_after(record));
}

} // verus!
