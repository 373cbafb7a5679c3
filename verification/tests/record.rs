use lila_http::arena::{ArenaFull, ArenaId, ArenaShared, ClientData, GameId, UserId};
use lila_http::record::{Field, FieldValue};
use serde_json::Value;
use std::sync::Arc;

fn bare(nb_players: u32) -> ArenaShared {
    ArenaShared {
        nb_players,
        duels: Value::Array(Vec::new()),
        seconds_to_finish: None,
        seconds_to_start: None,
        is_started: None,
        is_finished: None,
        is_recently_finished: None,
        featured: None,
        podium: None,
        pairings_closed: None,
        stats: None,
        team_standing: None,
        duel_teams: None,
    }
}

fn arena(shared: ArenaShared) -> Arc<ArenaFull> {
    let games = vec![(UserId("u1".to_string()), GameId::new("g1".to_string()))];
    let standing = vec![Value::from(1u64), Value::from(2u64)];
    Arc::new(
        ArenaFull::new(ArenaId("abc".to_string()), shared, games, "u1,u2".to_string(), standing)
            .unwrap(),
    )
}

fn names(fields: &[Field]) -> Vec<&'static str> {
    fields.iter().map(|field| field.name).collect()
}

#[test]
fn record_without_viewer_has_no_me_field() {
    let full = arena(bare(2));
    let data = ClientData::new(&full, None);
    assert_eq!(names(&data.record()), vec!["nbPlayers", "duels", "standing"]);
}

#[test]
fn record_with_viewer_has_me_before_standing() {
    let full = arena(bare(2));
    let data = ClientData::new(&full, Some(UserId("u2".to_string())));
    let fields = data.record();
    assert_eq!(names(&fields), vec!["nbPlayers", "duels", "me", "standing"]);
    match &fields[2].value {
        FieldValue::Me(me) => assert_eq!(me.rank().unwrap().get(), 2),
        _ => panic!("the me field holds the viewer's entry"),
    }
    match &fields[3].value {
        FieldValue::Standing(standing) => assert_eq!(standing.players().len(), 2),
        _ => panic!("the standing field holds the standing page"),
    }
}

#[test]
fn shared_attributes_appear_only_when_they_hold_a_value() {
    let mut shared = bare(2);
    shared.seconds_to_start = Some(30);
    shared.is_started = Some(false);
    shared.podium = Some(Value::Null);
    shared.duel_teams = Some(Value::from(1u64));
    let fields = shared.record();
    assert_eq!(
        names(&fields),
        vec!["nbPlayers", "duels", "secondsToStart", "isStarted", "podium", "duelTeams"]
    );
    assert!(matches!(fields[0].value, FieldValue::Number(2)));
    assert!(matches!(fields[1].value, FieldValue::Json(v) if *v == Value::Array(Vec::new())));
    assert!(matches!(fields[2].value, FieldValue::Number(30)));
    assert!(matches!(fields[3].value, FieldValue::Flag(false)));
    assert!(matches!(fields[4].value, FieldValue::Json(v) if *v == Value::Null));
    assert!(matches!(fields[5].value, FieldValue::Json(v) if *v == Value::from(1u64)));
}

#[test]
fn all_shared_attributes_in_order() {
    let shared = ArenaShared {
        nb_players: 9,
        duels: Value::Null,
        seconds_to_finish: Some(1),
        seconds_to_start: Some(2),
        is_started: Some(true),
        is_finished: Some(false),
        is_recently_finished: Some(true),
        featured: Some(Value::from(3u64)),
        podium: Some(Value::from(4u64)),
        pairings_closed: Some(true),
        stats: Some(Value::from(5u64)),
        team_standing: Some(Value::from(6u64)),
        duel_teams: Some(Value::from(7u64)),
    };
    let fields = shared.record();
    assert_eq!(
        names(&fields),
        vec![
            "nbPlayers",
            "duels",
            "secondsToFinish",
            "secondsToStart",
            "isStarted",
            "isFinished",
            "isRecentlyFinished",
            "featured",
            "podium",
            "pairingsClosed",
            "stats",
            "teamStanding",
            "duelTeams"
        ]
    );
    assert!(matches!(fields[2].value, FieldValue::Number(1)));
    assert!(matches!(fields[6].value, FieldValue::Flag(true)));
    assert!(matches!(fields[11].value, FieldValue::Json(v) if *v == Value::from(6u64)));
}

#[test]
fn me_record_leaves_out_what_is_absent() {
    let full = arena(bare(2));
    let ranked_and_playing = ClientData::new(&full, Some(UserId("u1".to_string())));
    let fields = ranked_and_playing.me().unwrap().record();
    assert_eq!(names(&fields), vec!["rank", "withdraw", "gameId"]);
    assert!(matches!(fields[0].value, FieldValue::Number(1)));
    assert!(matches!(fields[1].value, FieldValue::Flag(false)));
    assert!(matches!(fields[2].value, FieldValue::Text("g1")));
    let stranger = ClientData::new(&full, Some(UserId("nobody".to_string())));
    let fields = stranger.me().unwrap().record();
    assert_eq!(names(&fields), vec!["withdraw"]);
    assert!(matches!(fields[0].value, FieldValue::Flag(false)));
}

#[test]
fn standing_record_holds_page_and_players() {
    let full = arena(bare(2));
    let data = ClientData::project(&full, None, Some(1));
    let fields = data.standing().record();
    assert_eq!(names(&fields), vec!["page", "players"]);
    assert!(matches!(fields[0].value, FieldValue::Number(1)));
    match fields[1].value {
        FieldValue::List(players) => {
            assert_eq!(players, &[Value::from(1u64), Value::from(2u64)][..])
        }
        _ => panic!("the players field holds the entries"),
    }
}
