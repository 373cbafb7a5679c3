use lila_http::arena::{ArenaFull, ArenaId, ArenaShared};
use lila_http::cache::{ArenaCache, EntryState, LoadOutcome, Lookup};
use lila_http::error::Error;
use serde_json::Value;
use std::sync::Arc;

fn snapshot(id: &str, marker: u32) -> Arc<ArenaFull> {
    let shared = ArenaShared {
        nb_players: marker,
        duels: Value::Null,
        seconds_to_finish: None,
        seconds_to_start: None,
        is_started: None,
        is_finished: None,
        is_recently_finished: None,
        featured: None,
        podium: None,
        pairings_closed: None,
        stats: None,
        team_standing: None,
        duel_teams: None,
    };
    let made = ArenaFull::new(
        ArenaId(id.to_string()),
        shared,
        Vec::new(),
        "u1".to_string(),
        vec![Value::from(marker)],
    );
    Arc::new(made.unwrap())
}

fn arena(id: &str) -> ArenaId {
    ArenaId(id.to_string())
}

fn hit(lookup: Lookup) -> Arc<ArenaFull> {
    match lookup {
        Lookup::Hit(found) => found,
        Lookup::Fetch { .. } => panic!("told to fetch where a hit was due"),
        Lookup::Wait => panic!("told to wait where a hit was due"),
    }
}

#[test]
fn first_get_fetches_and_load_publishes() {
    let mut cache = ArenaCache::new(1000, 5000);
    let id = arena("abc");
    assert_eq!(cache.state(&id), EntryState::Absent);
    assert!(matches!(cache.get(&id, 5), Lookup::Fetch { .. }));
    assert_eq!(cache.state(&id), EntryState::Loading);
    let s1 = snapshot("abc", 1);
    let delivered = cache.complete_load(&id, LoadOutcome::Loaded(s1.clone()), 6);
    assert!(Arc::ptr_eq(&delivered.unwrap(), &s1));
    assert_eq!(cache.state(&id), EntryState::Fresh);
    assert!(Arc::ptr_eq(&hit(cache.get(&id, 7)), &s1));
    assert_eq!(cache.state(&id), EntryState::Fresh);
}

#[test]
fn concurrent_gets_share_one_fetch() {
    let mut cache = ArenaCache::new(1000, 5000);
    let id = arena("abc");
    let mut fetches: u32 = 0;
    let mut waits: u32 = 0;
    let mut call: u64 = 0;
    while call < 8 {
        match cache.get(&id, call) {
            Lookup::Fetch { .. } => fetches += 1,
            Lookup::Wait => waits += 1,
            Lookup::Hit(_) => panic!("nothing was loaded yet"),
        }
        call += 1;
    }
    assert_eq!(fetches, 1);
    assert_eq!(waits, 7);
    assert_eq!(cache.state(&id), EntryState::Loading);
}

#[test]
fn invalidation_makes_the_next_get_fetch() {
    let mut cache = ArenaCache::new(1000, 5000);
    let id = arena("abc");
    assert!(matches!(cache.get(&id, 0), Lookup::Fetch { .. }));
    assert!(cache.complete_load(&id, LoadOutcome::Loaded(snapshot("abc", 1)), 0).is_ok());
    cache.invalidate(&id);
    assert_eq!(cache.state(&id), EntryState::Stale);
    assert!(matches!(cache.get(&id, 1), Lookup::Fetch { .. }));
    assert_eq!(cache.state(&id), EntryState::Loading);
    assert!(matches!(cache.get(&id, 1), Lookup::Wait));
}

#[test]
fn invalidating_twice_is_invalidating_once() {
    let mut cache = ArenaCache::new(1000, 5000);
    let id = arena("abc");
    cache.invalidate(&id);
    assert_eq!(cache.state(&id), EntryState::Absent);
    cache.invalidate(&id);
    assert_eq!(cache.state(&id), EntryState::Absent);
    assert!(matches!(cache.get(&id, 0), Lookup::Fetch { .. }));
    cache.invalidate(&id);
    assert_eq!(cache.state(&id), EntryState::Loading);
    assert!(cache.complete_load(&id, LoadOutcome::Loaded(snapshot("abc", 1)), 0).is_ok());
    cache.invalidate(&id);
    assert_eq!(cache.state(&id), EntryState::Stale);
    cache.invalidate(&id);
    assert_eq!(cache.state(&id), EntryState::Stale);
    assert!(matches!(cache.get(&id, 0), Lookup::Fetch { .. }));
}

#[test]
fn newer_snapshot_replaces_the_older_for_good() {
    let mut cache = ArenaCache::new(1000, 5000);
    let id = arena("abc");
    let s1 = snapshot("abc", 1);
    let s2 = snapshot("abc", 2);
    assert!(matches!(cache.get(&id, 0), Lookup::Fetch { .. }));
    assert!(cache.complete_load(&id, LoadOutcome::Loaded(s1.clone()), 0).is_ok());
    assert!(Arc::ptr_eq(&hit(cache.get(&id, 1)), &s1));
    cache.invalidate(&id);
    assert!(matches!(cache.get(&id, 2), Lookup::Fetch { .. }));
    assert!(cache.complete_load(&id, LoadOutcome::Loaded(s2.clone()), 3).is_ok());
    let mut time: u64 = 3;
    while time < 20 {
        let found = hit(cache.get(&id, time));
        assert!(Arc::ptr_eq(&found, &s2));
        assert_eq!(found.shared().nb_players, 2);
        time += 1;
    }
}

#[test]
fn failed_first_load_leaves_the_arena_absent() {
    let mut cache = ArenaCache::new(1000, 5000);
    let id = arena("abc");
    assert!(matches!(cache.get(&id, 0), Lookup::Fetch { .. }));
    let delivered = cache.complete_load(&id, LoadOutcome::Failed, 1);
    assert_eq!(delivered.err(), Some(Error::StoreUnavailable));
    assert_eq!(cache.state(&id), EntryState::Absent);
    assert!(matches!(cache.get(&id, 2), Lookup::Fetch { .. }));
}

#[test]
fn failed_reload_leaves_the_arena_stale() {
    let mut cache = ArenaCache::new(1000, 5000);
    let id = arena("abc");
    assert!(matches!(cache.get(&id, 0), Lookup::Fetch { .. }));
    assert!(cache.complete_load(&id, LoadOutcome::Loaded(snapshot("abc", 1)), 0).is_ok());
    cache.invalidate(&id);
    assert!(matches!(cache.get(&id, 1), Lookup::Fetch { .. }));
    let delivered = cache.complete_load(&id, LoadOutcome::TimedOut, 2);
    assert_eq!(delivered.err(), Some(Error::StoreUnavailable));
    assert_eq!(cache.state(&id), EntryState::Stale);
    assert!(matches!(cache.get(&id, 3), Lookup::Fetch { .. }));
}

#[test]
fn each_failure_is_delivered_as_its_error() {
    let mut cache = ArenaCache::new(1000, 5000);
    let id = arena("abc");
    assert!(matches!(cache.get(&id, 0), Lookup::Fetch { .. }));
    assert_eq!(cache.complete_load(&id, LoadOutcome::Missing, 0).err(), Some(Error::NotFound));
    assert!(matches!(cache.get(&id, 0), Lookup::Fetch { .. }));
    assert_eq!(
        cache.complete_load(&id, LoadOutcome::Failed, 0).err(),
        Some(Error::StoreUnavailable)
    );
    assert!(matches!(cache.get(&id, 0), Lookup::Fetch { .. }));
    assert_eq!(
        cache.complete_load(&id, LoadOutcome::TimedOut, 0).err(),
        Some(Error::StoreUnavailable)
    );
    assert!(matches!(cache.get(&id, 0), Lookup::Fetch { .. }));
    assert_eq!(
        cache.complete_load(&id, LoadOutcome::Malformed, 0).err(),
        Some(Error::MalformedRecord)
    );
    assert_eq!(cache.state(&id), EntryState::Absent);
}

#[test]
fn failure_without_a_fetch_under_way_changes_nothing() {
    let mut cache = ArenaCache::new(1000, 5000);
    let id = arena("abc");
    assert_eq!(cache.complete_load(&id, LoadOutcome::Failed, 0).err(), Some(Error::StoreUnavailable));
    assert_eq!(cache.state(&id), EntryState::Absent);
    let s1 = snapshot("abc", 1);
    assert!(matches!(cache.get(&id, 0), Lookup::Fetch { .. }));
    assert!(cache.complete_load(&id, LoadOutcome::Loaded(s1.clone()), 0).is_ok());
    assert_eq!(cache.complete_load(&id, LoadOutcome::Missing, 1).err(), Some(Error::NotFound));
    assert_eq!(cache.state(&id), EntryState::Fresh);
    assert!(Arc::ptr_eq(&hit(cache.get(&id, 1)), &s1));
}

#[test]
fn snapshot_past_the_maximum_age_is_fetched_again() {
    let mut cache = ArenaCache::new(50, 5000);
    let id = arena("abc");
    let s1 = snapshot("abc", 1);
    assert!(matches!(cache.get(&id, 100), Lookup::Fetch { .. }));
    assert!(cache.complete_load(&id, LoadOutcome::Loaded(s1.clone()), 100).is_ok());
    assert!(Arc::ptr_eq(&hit(cache.get(&id, 100)), &s1));
    assert!(Arc::ptr_eq(&hit(cache.get(&id, 150)), &s1));
    assert!(Arc::ptr_eq(&hit(cache.get(&id, 90)), &s1));
    assert!(matches!(cache.get(&id, 151), Lookup::Fetch { .. }));
    assert_eq!(cache.state(&id), EntryState::Loading);
}

#[test]
fn maximum_age_zero_serves_only_the_moment_of_publication() {
    let mut cache = ArenaCache::new(0, 5000);
    let id = arena("abc");
    assert!(matches!(cache.get(&id, 7), Lookup::Fetch { .. }));
    assert!(cache.complete_load(&id, LoadOutcome::Loaded(snapshot("abc", 1)), 7).is_ok());
    assert!(matches!(cache.get(&id, 7), Lookup::Hit(_)));
    assert!(matches!(cache.get(&id, 8), Lookup::Fetch { .. }));
}

#[test]
fn fetch_is_given_the_load_timeout() {
    let mut cache = ArenaCache::new(1000, 250);
    let id = arena("abc");
    assert!(matches!(cache.get(&id, 0), Lookup::Fetch { timeout: 250 }));
    assert!(cache.complete_load(&id, LoadOutcome::Loaded(snapshot("abc", 1)), 0).is_ok());
    cache.invalidate(&id);
    assert!(matches!(cache.get(&id, 1), Lookup::Fetch { timeout: 250 }));
}

#[test]
fn arenas_do_not_disturb_each_other() {
    let mut cache = ArenaCache::new(1000, 5000);
    let a = arena("a");
    let b = arena("b");
    let sa = snapshot("a", 1);
    assert!(matches!(cache.get(&a, 0), Lookup::Fetch { .. }));
    assert!(matches!(cache.get(&b, 0), Lookup::Fetch { .. }));
    assert!(cache.complete_load(&a, LoadOutcome::Loaded(sa.clone()), 0).is_ok());
    assert_eq!(cache.state(&b), EntryState::Loading);
    assert_eq!(cache.complete_load(&b, LoadOutcome::Failed, 0).err(), Some(Error::StoreUnavailable));
    assert_eq!(cache.state(&a), EntryState::Fresh);
    cache.invalidate(&b);
    assert!(Arc::ptr_eq(&hit(cache.get(&a, 1)), &sa));
    cache.invalidate(&a);
    assert_eq!(cache.state(&a), EntryState::Stale);
    assert_eq!(cache.state(&b), EntryState::Absent);
}
