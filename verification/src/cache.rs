//! The arena cache: the most recent snapshot of each arena, in front of a store.
//!
//! The cache decides and the caller acts. [`ArenaCache::get`] either hits, or
//! tells the caller to fetch the record from the store, or tells it to wait for
//! a fetch that is already under way. The caller that was told to fetch reports
//! the result through [`ArenaCache::complete_load`], whose return value is what
//! that caller and every waiting caller receive. [`ArenaCache::invalidate`]
//! marks a snapshot stale, so that the next `get` fetches again.
//!
//! Per arena the states are: absent, loading, fresh, stale. A snapshot is only
//! ever replaced as a whole. A fresh snapshot older than the cache's maximum
//! age is treated as stale, whether or not an invalidation arrived. A fetch is
//! given a bounded time; one that takes longer is reported as timed out and
//! counts as failed.
//!
//! Times and durations are plain numbers in one unit of the caller's choice.

use crate::arena::{ArenaFull, ArenaId};
use crate::error::Error;
use std::sync::Arc;
use vstd::hash_map::StringHashMap;
use vstd::prelude::*;

verus! {

/// What the cache holds for one arena. An arena without a slot is absent.
pub enum Slot {
    /// A fetch is under way. `previous` is the snapshot it will replace, if any.
    Loading { previous: Option<Arc<ArenaFull>> },
    /// `snapshot` was published at time `published_at` and not invalidated since.
    Fresh { snapshot: Arc<ArenaFull>, published_at: u64 },
    /// `snapshot` is out of date and is not served.
    Stale { snapshot: Arc<ArenaFull> },
}

/// The state of one arena in the cache.
#[derive(Debug, Clone, Copy, PartialEq, Eq, Structural)]
pub enum EntryState {
    Absent,
    Loading,
    Fresh,
    Stale,
}

/// What a caller of [`ArenaCache::get`] has to do.
pub enum Lookup {
    /// The cache holds a fresh snapshot: here it is.
    Hit(Arc<ArenaFull>),
    /// Nothing fresh and no fetch under way: fetch the record from the store,
    /// giving it no more time than `timeout`, then report how it ended through
    /// [`ArenaCache::complete_load`].
    Fetch { timeout: u64 },
    /// A fetch is under way: wait for what it delivers.
    Wait,
}

/// How a fetch from the store ended.
pub enum LoadOutcome {
    /// The store returned the record.
    Loaded(Arc<ArenaFull>),
    /// The store holds no record for the arena.
    Missing,
    /// The store failed.
    Failed,
    /// The store did not answer within the time allowed.
    TimedOut,
    /// The store returned a record that contradicts itself.
    Malformed,
}

impl LoadOutcome {
    /// What the callers that depend on the fetch receive.
    pub open spec fn delivery(self) -> Result<Arc<ArenaFull>, Error> {
        match self {
            LoadOutcome::Loaded(snapshot) => Ok(snapshot),
            LoadOutcome::Missing => Err(Error::NotFound),
            LoadOutcome::Failed => Err(Error::StoreUnavailable),
            LoadOutcome::TimedOut => Err(Error::StoreUnavailable),
            LoadOutcome::Malformed => Err(Error::MalformedRecord),
        }
    }
}

/// Whether a snapshot published at `published_at` is still young enough at `now`.
pub open spec fn within_age(now: u64, published_at: u64, max_age: u64) -> bool {
    now <= published_at || now - published_at <= max_age
}

/// The snapshot that a slot holds, served or not.
pub open spec fn held(slot: Slot) -> Option<Arc<ArenaFull>> {
    match slot {
        Slot::Loading { previous } => previous,
        Slot::Fresh { snapshot, .. } => Some(snapshot),
        Slot::Stale { snapshot } => Some(snapshot),
    }
}

/// The mathematical content of an [`ArenaCache`].
pub ghost struct CacheView {
    pub slots: Map<Seq<char>, Slot>,
    /// No snapshot older than this is served.
    pub max_age: u64,
    /// No fetch is given more time than this.
    pub load_timeout: u64,
}

impl CacheView {
    /// The cache that holds nothing.
    pub open spec fn empty(max_age: u64, load_timeout: u64) -> CacheView {
        CacheView {
            slots: Map::<Seq<char>, Slot>::empty(),
            max_age: max_age,
            load_timeout: load_timeout,
        }
    }

    /// The state of the arena `id`.
    pub open spec fn state(self, id: Seq<char>) -> EntryState {
        if !self.slots.contains_key(id) {
            EntryState::Absent
        } else {
            match self.slots[id] {
                Slot::Loading { .. } => EntryState::Loading,
                Slot::Fresh { .. } => EntryState::Fresh,
                Slot::Stale { .. } => EntryState::Stale,
            }
        }
    }

    /// The snapshot held for the arena `id`, served or not.
    pub open spec fn snapshot(self, id: Seq<char>) -> Option<Arc<ArenaFull>> {
        if self.slots.contains_key(id) {
            held(self.slots[id])
        } else {
            None
        }
    }

    /// The cache after a `get` for `id` at time `now`, and what the caller is told.
    pub open spec fn got(self, id: Seq<char>, now: u64) -> (CacheView, Lookup) {
        if !self.slots.contains_key(id) {
            (
                CacheView { slots: self.slots.insert(id, Slot::Loading { previous: None }), ..self },
                Lookup::Fetch { timeout: self.load_timeout },
            )
        } else {
            match self.slots[id] {
                Slot::Loading { .. } => (self, Lookup::Wait),
                Slot::Fresh { snapshot, published_at } => if within_age(
                    now,
                    published_at,
                    self.max_age,
                ) {
                    (self, Lookup::Hit(snapshot))
                } else {
                    (
                        CacheView {
                            slots: self.slots.insert(
                                id,
                                Slot::Loading { previous: Some(snapshot) },
                            ),
                            ..self
                        },
                        Lookup::Fetch { timeout: self.load_timeout },
                    )
                },
                Slot::Stale { snapshot } => (
                    CacheView {
                        slots: self.slots.insert(id, Slot::Loading { previous: Some(snapshot) }),
                        ..self
                    },
                    Lookup::Fetch { timeout: self.load_timeout },
                ),
            }
        }
    }

    /// The cache after the fetch for `id` ended with `outcome` at time `now`.
    /// A record that arrived is published and fresh. After a failure the arena
    /// is as it was before the fetch began: stale if it had a snapshot, absent
    /// if it had none. Nothing is remembered of the failure.
    pub open spec fn completed(self, id: Seq<char>, outcome: LoadOutcome, now: u64) -> CacheView {
        match outcome {
            LoadOutcome::Loaded(snapshot) => CacheView {
                slots: self.slots.insert(id, Slot::Fresh { snapshot: snapshot, published_at: now }),
                ..self
            },
            _ => if self.slots.contains_key(id) {
                match self.slots[id] {
                    Slot::Loading { previous: Some(snapshot) } => CacheView {
                        slots: self.slots.insert(id, Slot::Stale { snapshot: snapshot }),
                        ..self
                    },
                    Slot::Loading { previous: None } => CacheView {
                        slots: self.slots.remove(id),
                        ..self
                    },
                    _ => self,
                }
            } else {
                self
            },
        }
    }

    /// The cache after an invalidation of `id`: a fresh snapshot becomes stale,
    /// anything else stays as it is.
    pub open spec fn invalidated(self, id: Seq<char>) -> CacheView {
        if self.slots.contains_key(id) {
            match self.slots[id] {
                Slot::Fresh { snapshot, .. } => CacheView {
                    slots: self.slots.insert(id, Slot::Stale { snapshot: snapshot }),
                    ..self
                },
                _ => self,
            }
        } else {
            self
        }
    }
}

/// One thing that happens to a cache.
pub ghost enum Event {
    /// A reader asks for the arena `id` at time `now`.
    Get { id: Seq<char>, now: u64 },
    /// The fetch for the arena `id` ends with `outcome` at time `now`.
    Complete { id: Seq<char>, outcome: LoadOutcome, now: u64 },
    /// An invalidation of the arena `id` arrives.
    Invalidate { id: Seq<char> },
}

impl Event {
    /// Whether the event publishes a snapshot of the arena `id`.
    pub open spec fn publishes(self, id: Seq<char>) -> bool {
        self matches Event::Complete { id: arena, outcome: LoadOutcome::Loaded(_), .. } && arena
            == id
    }
}

impl Lookup {
    /// What a caller of `get` ends up with, where `delivered` is what the
    /// fetch under way delivers: the snapshot it hit, or else `delivered`.
    pub open spec fn received(self, delivered: Result<Arc<ArenaFull>, Error>) -> Result<
        Arc<ArenaFull>,
        Error,
    > {
        match self {
            Lookup::Hit(snapshot) => Ok(snapshot),
            _ => delivered,
        }
    }
}

/// How many of the answers in `told` tell the caller to fetch.
pub open spec fn fetch_count(told: Seq<Lookup>) -> nat
    decreases told.len(),
{
    if told.len() == 0 {
        0
    } else {
        fetch_count(told.drop_last()) + if told.last() is Fetch {
            1nat
        } else {
            0nat
        }
    }
}

impl CacheView {
    /// The cache after one `get` for `id` at each of `times`, in order, and
    /// what each caller is told.
    pub open spec fn got_each(self, id: Seq<char>, times: Seq<u64>) -> (CacheView, Seq<Lookup>)
        decreases times.len(),
    {
        if times.len() == 0 {
            (self, Seq::<Lookup>::empty())
        } else {
            let earlier = self.got_each(id, times.drop_last());
            let last = earlier.0.got(id, times.last());
            (last.0, earlier.1.push(last.1))
        }
    }

    /// The cache after `event`.
    pub open spec fn after(self, event: Event) -> CacheView {
        match event {
            Event::Get { id, now } => self.got(id, now).0,
            Event::Complete { id, outcome, now } => self.completed(id, outcome, now),
            Event::Invalidate { id } => self.invalidated(id),
        }
    }

    /// The cache after `events`, in order.
    pub open spec fn after_all(self, events: Seq<Event>) -> CacheView
        decreases events.len(),
    {
        if events.len() == 0 {
            self
        } else {
            self.after_all(events.drop_last()).after(events.last())
        }
    }
}

/// The snapshot of the arena `id` that `events` published last, if any.
pub open spec fn latest_publication(events: Seq<Event>, id: Seq<char>) -> Option<Arc<ArenaFull>>
    decreases events.len(),
{
    if events.len() == 0 {
        None
    } else {
        match events.last() {
            Event::Complete { id: arena, outcome: LoadOutcome::Loaded(snapshot), .. } => if arena
                == id {
                Some(snapshot)
            } else {
                latest_publication(events.drop_last(), id)
            },
            _ => latest_publication(events.drop_last(), id),
        }
    }
}

/// Invalidation is idempotent: invalidating an arena twice in a row leaves the
/// cache as invalidating it once does, and invalidating an arena that the
/// cache does not hold leaves the cache as it was.
pub proof fn lemma_invalidate_idempotent(cache: CacheView, id: Seq<char>)
    ensures
        cache.invalidated(id).invalidated(id) == cache.invalidated(id),
        cache.state(id) is Absent ==> cache.invalidated(id) == cache,
        !(cache.state(id) is Fresh) ==> cache.invalidated(id) == cache,
{
}

/// No event for one arena touches what the cache holds for another.
pub proof fn lemma_other_arenas_untouched(cache: CacheView, event: Event, other: Seq<char>)
    requires
        match event {
            Event::Get { id, .. } => id != other,
            Event::Complete { id, .. } => id != other,
            Event::Invalidate { id } => id != other,
        },
    ensures
        cache.after(event).slots.contains_key(other) == cache.slots.contains_key(other),
        cache.slots.contains_key(other) ==> cache.after(event).slots[other] == cache.slots[other],
        cache.after(event).max_age == cache.max_age,
        cache.after(event).load_timeout == cache.load_timeout,
{
}

/// While a fetch for an arena is under way, every `get` for it is told to
/// wait, and the cache stays as it is.
pub proof fn lemma_loading_tells_to_wait(cache: CacheView, id: Seq<char>, times: Seq<u64>)
    requires
        cache.state(id) is Loading,
    ensures
        cache.got_each(id, times).0 == cache,
        cache.got_each(id, times).1.len() == times.len(),
        forall|i: int| 0 <= i < times.len() ==> cache.got_each(id, times).1[i] is Wait,
        fetch_count(cache.got_each(id, times).1) == 0,
    decreases times.len(),
{
    if times.len() > 0 {
        lemma_loading_tells_to_wait(cache, id, times.drop_last());
        let earlier = cache.got_each(id, times.drop_last());
        let all = cache.got_each(id, times);
        assert(all.1.drop_last() =~= earlier.1);
    }
}

/// Single flight: of any number of `get` calls for an arena that is absent or
/// stale, made before the fetch ends, exactly one is told to fetch, namely the
/// first, and all others are told to wait for it. Whatever the fetch then
/// delivers is what every one of the callers receives.
pub proof fn lemma_single_flight(
    cache: CacheView,
    id: Seq<char>,
    times: Seq<u64>,
    outcome: LoadOutcome,
)
    requires
        cache.state(id) is Absent || cache.state(id) is Stale,
        times.len() >= 1,
    ensures
        cache.got_each(id, times).1.len() == times.len(),
        cache.got_each(id, times).1[0] == (Lookup::Fetch { timeout: cache.load_timeout }),
        forall|i: int| 1 <= i < times.len() ==> cache.got_each(id, times).1[i] is Wait,
        fetch_count(cache.got_each(id, times).1) == 1,
        cache.got_each(id, times).0.state(id) is Loading,
        forall|i: int|
            0 <= i < times.len() ==> (#[trigger] cache.got_each(id, times).1[i]).received(
                outcome.delivery(),
            ) == outcome.delivery(),
    decreases times.len(),
{
    let all = cache.got_each(id, times);
    let earlier = cache.got_each(id, times.drop_last());
    assert(all.1.drop_last() =~= earlier.1);
    if times.len() == 1 {
        assert(fetch_count(earlier.1) == 0);
    } else {
        lemma_single_flight(cache, id, times.drop_last(), outcome);
    }
}

/// A failed fetch leaves no trace: where an arena was absent or stale, a `get`
/// followed by a fetch that fails leaves the cache exactly as it was, so the
/// next `get` fetches again.
pub proof fn lemma_failed_load_leaves_no_trace(
    cache: CacheView,
    id: Seq<char>,
    asked_at: u64,
    outcome: LoadOutcome,
    ended_at: u64,
)
    requires
        cache.state(id) is Absent || cache.state(id) is Stale,
        !(outcome is Loaded),
    ensures
        cache.got(id, asked_at).0.completed(id, outcome, ended_at) == cache,
        outcome.delivery() is Err,
{
    let after = cache.got(id, asked_at).0.completed(id, outcome, ended_at);
    assert(after.slots =~= cache.slots);
}

/// The maximum age is a safety net that needs no invalidation: a `get` never
/// hits a snapshot that is older than the maximum age, and never hits one that
/// was invalidated.
pub proof fn lemma_hit_is_fresh_and_young(cache: CacheView, id: Seq<char>, now: u64)
    ensures
        cache.got(id, now).1 matches Lookup::Hit(snapshot) ==> {
            &&& cache.got(id, now).0 == cache
            &&& cache.slots.contains_key(id)
            &&& cache.slots[id] matches Slot::Fresh { snapshot: held, published_at }
            &&& held == snapshot
            &&& now - published_at <= cache.max_age
        },
{
}

/// What the cache holds for an arena, served or not, is the snapshot that was
/// published last for it.
pub proof fn lemma_held_is_latest_publication(start: CacheView, events: Seq<Event>, id: Seq<char>)
    requires
        start.slots == Map::<Seq<char>, Slot>::empty(),
    ensures
        start.after_all(events).snapshot(id) == latest_publication(events, id),
    decreases events.len(),
{
    if events.len() > 0 {
        lemma_held_is_latest_publication(start, events.drop_last(), id);
    }
}

/// Freshness is monotonic: in every run of a cache that began empty, a `get`
/// that hits returns the snapshot that was published last for the arena. So
/// once a newer snapshot has been published, no caller is handed an older one.
pub proof fn lemma_hit_is_latest_publication(
    start: CacheView,
    events: Seq<Event>,
    id: Seq<char>,
    now: u64,
)
    requires
        start.slots == Map::<Seq<char>, Slot>::empty(),
    ensures
        start.after_all(events).got(id, now).1 matches Lookup::Hit(snapshot)
            ==> latest_publication(events, id) == Some(snapshot),
{
    lemma_held_is_latest_publication(start, events, id);
}

/// After a snapshot of an arena has been published, and as long as no other
/// is published for that arena, every `get` that hits returns that snapshot,
/// whatever was published before it and whatever else happened since.
pub proof fn lemma_hits_follow_publication(
    start: CacheView,
    before: Seq<Event>,
    snapshot: Arc<ArenaFull>,
    published_at: u64,
    since: Seq<Event>,
    id: Seq<char>,
    now: u64,
)
    requires
        start.slots == Map::<Seq<char>, Slot>::empty(),
        forall|i: int| 0 <= i < since.len() ==> !(#[trigger] since[i]).publishes(id),
    ensures
        ({
            let events = before.push(
                Event::Complete {
                    id: id,
                    outcome: LoadOutcome::Loaded(snapshot),
                    now: published_at,
                },
            ) + since;
            start.after_all(events).got(id, now).1 matches Lookup::Hit(found) ==> found
                == snapshot
        }),
{
    let publication = Event::Complete {
        id: id,
        outcome: LoadOutcome::Loaded(snapshot),
        now: published_at,
    };
    let events = before.push(publication) + since;
    lemma_hit_is_latest_publication(start, events, id, now);
    lemma_latest_publication_stays(before.push(publication), since, id);
}

/// Events that publish nothing for an arena leave its latest publication as it was.
proof fn lemma_latest_publication_stays(events: Seq<Event>, since: Seq<Event>, id: Seq<char>)
    requires
        forall|i: int| 0 <= i < since.len() ==> !(#[trigger] since[i]).publishes(id),
    ensures
        latest_publication(events + since, id) == latest_publication(events, id),
    decreases since.len(),
{
    if since.len() == 0 {
        assert(events + since =~= events);
    } else {
        lemma_latest_publication_stays(events, since.drop_last(), id);
        assert((events + since).drop_last() =~= events + since.drop_last());
    }
}

/// The cache of arena snapshots.
pub struct ArenaCache {
    slots: StringHashMap<Slot>,
    max_age: u64,
    load_timeout: u64,
}

impl View for ArenaCache {
    type V = CacheView;

    closed spec fn view(&self) -> CacheView {
        CacheView { slots: self.slots@, max_age: self.max_age, load_timeout: self.load_timeout }
    }
}

impl ArenaCache {
    /// An empty cache that serves no snapshot older than `max_age` and gives
    /// no fetch more time than `load_timeout`.
    pub fn new(max_age: u64, load_timeout: u64) -> (cache: ArenaCache)
        ensures
            cache@ == CacheView::empty(max_age, load_timeout),
    {
        ArenaCache { slots: StringHashMap::new(), max_age, load_timeout }
    }

    /// The state of the arena `id`.
    pub fn state(&self, id: &ArenaId) -> (state: EntryState)
        ensures
            state == self@.state(id@),
    {
        match self.slots.get(id.0.as_str()) {
            None => EntryState::Absent,
            Some(Slot::Loading { .. }) => EntryState::Loading,
            Some(Slot::Fresh { .. }) => EntryState::Fresh,
            Some(Slot::Stale { .. }) => EntryState::Stale,
        }
    }

    /// Asks for the snapshot of the arena `id` at time `now`. A fresh snapshot
    /// within the maximum age is returned. Else, if a fetch is under way, the
    /// caller is told to wait for it; if none is, the arena becomes loading
    /// and the caller is told to fetch, within the cache's load timeout.
    pub fn get(&mut self, id: &ArenaId, now: u64) -> (lookup: Lookup)
        ensures
            (final(self)@, lookup) == old(self)@.got(id@, now),
    {
        let previous = match self.slots.get(id.0.as_str()) {
            None => None,
            Some(Slot::Loading { .. }) => {
                return Lookup::Wait;
            },
            Some(Slot::Fresh { snapshot, published_at }) => {
                if now <= *published_at || now - *published_at <= self.max_age {
                    return Lookup::Hit(snapshot.clone());
                }
                Some(snapshot.clone())
            },
            Some(Slot::Stale { snapshot }) => Some(snapshot.clone()),
        };
        self.slots.insert(id.0.clone(), Slot::Loading { previous });
        Lookup::Fetch { timeout: self.load_timeout }
    }

    /// Reports that the fetch for the arena `id` ended with `outcome` at time
    /// `now`, and returns what the fetching caller and every waiting caller
    /// receive: the published snapshot, or the failure.
    pub fn complete_load(&mut self, id: &ArenaId, outcome: LoadOutcome, now: u64) -> (delivered:
        Result<Arc<ArenaFull>, Error>)
        ensures
            final(self)@ == old(self)@.completed(id@, outcome, now),
            delivered == outcome.delivery(),
    {
        let failure = match outcome {
            LoadOutcome::Loaded(snapshot) => {
                self.slots.insert(
                    id.0.clone(),
                    Slot::Fresh { snapshot: snapshot.clone(), published_at: now },
                );
                return Ok(snapshot);
            },
            LoadOutcome::Missing => Error::NotFound,
            LoadOutcome::Failed => Error::StoreUnavailable,
            LoadOutcome::TimedOut => Error::StoreUnavailable,
            LoadOutcome::Malformed => Error::MalformedRecord,
        };
        let reverted = match self.slots.get(id.0.as_str()) {
            Some(Slot::Loading { previous: Some(snapshot) }) => Some(
                Slot::Stale { snapshot: snapshot.clone() },
            ),
            Some(Slot::Loading { previous: None }) => None,
            _ => {
                return Err(failure);
            },
        };
        match reverted {
            Some(slot) => self.slots.insert(id.0.clone(), slot),
            None => self.slots.remove(id.0.as_str()),
        }
        Err(failure)
    }

    /// Marks the snapshot of the arena `id` stale, if there is a fresh one.
    /// Nothing is fetched.
    pub fn invalidate(&mut self, id: &ArenaId)
        ensures
            final(self)@ == old(self)@.invalidated(id@),
    {
        let stale = match self.slots.get(id.0.as_str()) {
            Some(Slot::Fresh { snapshot, .. }) => Slot::Stale { snapshot: snapshot.clone() },
            _ => {
                return ;
            },
        };
        self.slots.insert(id.0.clone(), stale);
    }
}

} // verus!
