//! The response as one record of named fields, ready to be encoded.
//!
//! The attributes shared by all readers stand at the top level of the record,
//! beside the viewer's entry and the standing page. One rule decides which
//! fields are there: a field that holds no value is left out, never written
//! as an empty one. Field names are in camel case.

use crate::arena::{
    projection, ArenaFullView, ArenaShared, ClientData, ClientDataView, ClientMe, ClientMeView,
    ClientStanding, ClientStandingView,
};
use serde_json::Value as JsValue;
use vstd::prelude::*;

verus! {

/// The value of one field of a response.
pub enum FieldValue<'a> {
    Number(u64),
    Flag(bool),
    Text(&'a str),
    Json(&'a JsValue),
    List(&'a [JsValue]),
    /// The viewer's entry, a record of its own: see [`ClientMe::record`].
    Me(&'a ClientMe),
    /// The standing page, a record of its own: see [`ClientStanding::record`].
    Standing(&'a ClientStanding<'a>),
}

/// One named field of a response.
pub struct Field<'a> {
    pub name: &'static str,
    pub value: FieldValue<'a>,
}

/// The mathematical content of a [`FieldValue`].
pub ghost enum ValueView {
    Number(nat),
    Flag(bool),
    Text(Seq<char>),
    Json(JsValue),
    List(Seq<JsValue>),
    Me(ClientMeView),
    Standing(ClientStandingView),
}

/// The mathematical content of a [`Field`].
pub ghost struct FieldView {
    pub name: Seq<char>,
    pub value: ValueView,
}

impl<'a> View for FieldValue<'a> {
    type V = ValueView;

    open spec fn view(&self) -> ValueView {
        match *self {
            FieldValue::Number(n) => ValueView::Number(n as nat),
            FieldValue::Flag(b) => ValueView::Flag(b),
            FieldValue::Text(text) => ValueView::Text(text@),
            FieldValue::Json(value) => ValueView::Json(*value),
            FieldValue::List(values) => ValueView::List(values@),
            FieldValue::Me(me) => ValueView::Me(me@),
            FieldValue::Standing(standing) => ValueView::Standing(standing@),
        }
    }
}

impl<'a> View for Field<'a> {
    type V = FieldView;

    open spec fn view(&self) -> FieldView {
        FieldView { name: self.name@, value: self.value@ }
    }
}

/// The content of each field of a list, in order.
pub open spec fn field_views<'a>(fields: Seq<Field<'a>>) -> Seq<FieldView> {
    Seq::new(fields.len(), |i: int| fields[i]@)
}

/// A field that is always there.
pub open spec fn present(name: Seq<char>, value: ValueView) -> Seq<FieldView> {
    seq![FieldView { name: name, value: value }]
}

/// A field that is there exactly when it holds a value.
pub open spec fn optional(name: Seq<char>, value: Option<ValueView>) -> Seq<FieldView> {
    match value {
        Some(v) => present(name, v),
        None => Seq::<FieldView>::empty(),
    }
}

/// An optional number as an optional field value.
pub open spec fn number(n: Option<u32>) -> Option<ValueView> {
    match n {
        Some(n) => Some(ValueView::Number(n as nat)),
        None => None,
    }
}

/// An optional flag as an optional field value.
pub open spec fn flag(b: Option<bool>) -> Option<ValueView> {
    match b {
        Some(b) => Some(ValueView::Flag(b)),
        None => None,
    }
}

/// An optional JSON value as an optional field value.
pub open spec fn json(value: Option<JsValue>) -> Option<ValueView> {
    match value {
        Some(v) => Some(ValueView::Json(v)),
        None => None,
    }
}

/// The fields of the attributes shared by all readers.
pub open spec fn shared_fields(shared: ArenaShared) -> Seq<FieldView> {
    present("nbPlayers"@, ValueView::Number(shared.nb_players as nat))
        + present("duels"@, ValueView::Json(shared.duels))
        + optional("secondsToFinish"@, number(shared.seconds_to_finish))
        + optional("secondsToStart"@, number(shared.seconds_to_start))
        + optional("isStarted"@, flag(shared.is_started))
        + optional("isFinished"@, flag(shared.is_finished))
        + optional("isRecentlyFinished"@, flag(shared.is_recently_finished))
        + optional("featured"@, json(shared.featured))
        + optional("podium"@, json(shared.podium))
        + optional("pairingsClosed"@, flag(shared.pairings_closed))
        + optional("stats"@, json(shared.stats))
        + optional("teamStanding"@, json(shared.team_standing))
        + optional("duelTeams"@, json(shared.duel_teams))
}

/// The fields of a viewer's entry.
pub open spec fn me_fields(me: ClientMeView) -> Seq<FieldView> {
    optional(
        "rank"@,
        match me.rank {
            Some(rank) => Some(ValueView::Number(rank)),
            None => None,
        },
    ) + present("withdraw"@, ValueView::Flag(me.withdraw)) + optional(
        "gameId"@,
        match me.game_id {
            Some(game) => Some(ValueView::Text(game)),
            None => None,
        },
    ) + optional("pauseDelay"@, number(me.pause_delay))
}

/// The fields of a standing page.
pub open spec fn standing_fields(standing: ClientStandingView) -> Seq<FieldView> {
    present("page"@, ValueView::Number(standing.page)) + present(
        "players"@,
        ValueView::List(standing.players),
    )
}

/// The fields of a response: the shared attributes at the top level, then the
/// viewer's entry if there is one, then the standing page.
pub open spec fn data_fields(data: ClientDataView) -> Seq<FieldView> {
    shared_fields(data.shared) + optional(
        "me"@,
        match data.me {
            Some(me) => Some(ValueView::Me(me)),
            None => None,
        },
    ) + present("standing"@, ValueView::Standing(data.standing))
}

/// Whether `fields` holds a field named `name`.
pub open spec fn has_field(fields: Seq<FieldView>, name: Seq<char>) -> bool {
    exists|i: int| 0 <= i < fields.len() && #[trigger] fields[i].name == name
}

/// A list followed by a field that is always there holds a name exactly when
/// the list holds it or it is that field's name.
proof fn lemma_has_field_after_present(
    fields: Seq<FieldView>,
    field: Seq<char>,
    value: ValueView,
    name: Seq<char>,
)
    ensures
        has_field(fields + present(field, value), name) <==> has_field(fields, name) || field
            == name,
{
    let all = fields + present(field, value);
    if has_field(fields, name) {
        let i = choose|i: int| 0 <= i < fields.len() && #[trigger] fields[i].name == name;
        assert(all[i].name == name);
    }
    if field == name {
        assert(all[fields.len() as int].name == name);
    }
    if has_field(all, name) {
        let i = choose|i: int| 0 <= i < all.len() && #[trigger] all[i].name == name;
        if i < fields.len() {
            assert(fields[i].name == name);
        }
    }
}

/// A list followed by an optional field holds a name exactly when the list
/// holds it or it is the name of that field and the field holds a value.
proof fn lemma_has_field_after_optional(
    fields: Seq<FieldView>,
    field: Seq<char>,
    value: Option<ValueView>,
    name: Seq<char>,
)
    ensures
        has_field(fields + optional(field, value), name) <==> has_field(fields, name) || (field
            == name && value is Some),
{
    match value {
        Some(v) => lemma_has_field_after_present(fields, field, v, name),
        None => {
            assert(fields + optional(field, value) =~= fields);
        },
    }
}

/// The field-presence rule for the shared attributes: the player count and the
/// duels are always there; every other attribute is there exactly when it
/// holds a value; and there is no other field.
pub proof fn lemma_shared_field_presence(shared: ArenaShared, name: Seq<char>)
    ensures
        has_field(shared_fields(shared), name) <==> {
            ||| name == "nbPlayers"@
            ||| name == "duels"@
            ||| name == "secondsToFinish"@ && shared.seconds_to_finish is Some
            ||| name == "secondsToStart"@ && shared.seconds_to_start is Some
            ||| name == "isStarted"@ && shared.is_started is Some
            ||| name == "isFinished"@ && shared.is_finished is Some
            ||| name == "isRecentlyFinished"@ && shared.is_recently_finished is Some
            ||| name == "featured"@ && shared.featured is Some
            ||| name == "podium"@ && shared.podium is Some
            ||| name == "pairingsClosed"@ && shared.pairings_closed is Some
            ||| name == "stats"@ && shared.stats is Some
            ||| name == "teamStanding"@ && shared.team_standing is Some
            ||| name == "duelTeams"@ && shared.duel_teams is Some
        },
{
    let f0 = Seq::<FieldView>::empty();
    let v0 = ValueView::Number(shared.nb_players as nat);
    let f1 = present("nbPlayers"@, v0);
    assert(f0 + f1 =~= f1);
    lemma_has_field_after_present(f0, "nbPlayers"@, v0, name);
    let f2 = f1 + present("duels"@, ValueView::Json(shared.duels));
    lemma_has_field_after_present(f1, "duels"@, ValueView::Json(shared.duels), name);
    let f3 = f2 + optional("secondsToFinish"@, number(shared.seconds_to_finish));
    lemma_has_field_after_optional(f2, "secondsToFinish"@, number(shared.seconds_to_finish), name);
    let f4 = f3 + optional("secondsToStart"@, number(shared.seconds_to_start));
    lemma_has_field_after_optional(f3, "secondsToStart"@, number(shared.seconds_to_start), name);
    let f5 = f4 + optional("isStarted"@, flag(shared.is_started));
    lemma_has_field_after_optional(f4, "isStarted"@, flag(shared.is_started), name);
    let f6 = f5 + optional("isFinished"@, flag(shared.is_finished));
    lemma_has_field_after_optional(f5, "isFinished"@, flag(shared.is_finished), name);
    let f7 = f6 + optional("isRecentlyFinished"@, flag(shared.is_recently_finished));
    lemma_has_field_after_optional(
        f6,
        "isRecentlyFinished"@,
        flag(shared.is_recently_finished),
        name,
    );
    let f8 = f7 + optional("featured"@, json(shared.featured));
    lemma_has_field_after_optional(f7, "featured"@, json(shared.featured), name);
    let f9 = f8 + optional("podium"@, json(shared.podium));
    lemma_has_field_after_optional(f8, "podium"@, json(shared.podium), name);
    let f10 = f9 + optional("pairingsClosed"@, flag(shared.pairings_closed));
    lemma_has_field_after_optional(f9, "pairingsClosed"@, flag(shared.pairings_closed), name);
    let f11 = f10 + optional("stats"@, json(shared.stats));
    lemma_has_field_after_optional(f10, "stats"@, json(shared.stats), name);
    let f12 = f11 + optional("teamStanding"@, json(shared.team_standing));
    lemma_has_field_after_optional(f11, "teamStanding"@, json(shared.team_standing), name);
    lemma_has_field_after_optional(f12, "duelTeams"@, json(shared.duel_teams), name);
}

/// A response holds a field named "me" exactly when the request named a
/// viewer: without a viewer the field is left out altogether.
pub proof fn lemma_me_field_iff_viewer(record: ArenaFullView, viewer: Option<Seq<char>>, page: nat)
    ensures
        has_field(data_fields(projection(record, viewer, page)), "me"@) <==> viewer is Some,
{
    let data = projection(record, viewer, page);
    let me = match data.me {
        Some(me) => Some(ValueView::Me(me)),
        None => None,
    };
    let shared = shared_fields(data.shared);
    reveal_strlit("me");
    reveal_strlit("standing");
    reveal_strlit("nbPlayers");
    reveal_strlit("duels");
    reveal_strlit("secondsToFinish");
    reveal_strlit("secondsToStart");
    reveal_strlit("isStarted");
    reveal_strlit("isFinished");
    reveal_strlit("isRecentlyFinished");
    reveal_strlit("featured");
    reveal_strlit("podium");
    reveal_strlit("pairingsClosed");
    reveal_strlit("stats");
    reveal_strlit("teamStanding");
    reveal_strlit("duelTeams");
    assert("me"@.len() == 2);
    lemma_shared_field_presence(data.shared, "me"@);
    lemma_has_field_after_optional(shared, "me"@, me, "me"@);
    lemma_has_field_after_present(
        shared + optional("me"@, me),
        "standing"@,
        ValueView::Standing(data.standing),
        "me"@,
    );
}

/// Appends one field.
fn put<'a>(fields: &mut Vec<Field<'a>>, name: &'static str, value: FieldValue<'a>)
    ensures
        field_views(final(fields)@) == field_views(old(fields)@) + present(name@, value@),
{
    fields.push(Field { name, value });
}

/// Appends one field if it holds a value.
fn put_if<'a>(fields: &mut Vec<Field<'a>>, name: &'static str, value: Option<FieldValue<'a>>)
    ensures
        field_views(final(fields)@) == field_views(old(fields)@) + optional(
            name@,
            match value {
                Some(v) => Some(v@),
                None => None,
            },
        ),
{
    match value {
        Some(v) => put(fields, name, v),
        None => {},
    }
}

fn number_value<'a>(n: Option<u32>) -> (value: Option<FieldValue<'a>>)
    ensures
        (match value {
            Some(v) => Some(v@),
            None => None,
        }) == number(n),
{
    match n {
        Some(n) => Some(FieldValue::Number(n as u64)),
        None => None,
    }
}

fn flag_value<'a>(b: Option<bool>) -> (value: Option<FieldValue<'a>>)
    ensures
        (match value {
            Some(v) => Some(v@),
            None => None,
        }) == flag(b),
{
    match b {
        Some(b) => Some(FieldValue::Flag(b)),
        None => None,
    }
}

fn json_value<'a>(held: &'a Option<JsValue>) -> (value: Option<FieldValue<'a>>)
    ensures
        (match value {
            Some(v) => Some(v@),
            None => None,
        }) == json(*held),
{
    match held {
        Some(v) => Some(FieldValue::Json(v)),
        None => None,
    }
}

impl ArenaShared {
    /// The shared attributes as a record: the player count and the duels, and
    /// each other attribute that holds a value.
    pub fn record(&self) -> (fields: Vec<Field<'_>>)
        ensures
            field_views(fields@) == shared_fields(*self),
    {
        let mut fields: Vec<Field<'_>> = Vec::new();
        put(&mut fields, "nbPlayers", FieldValue::Number(self.nb_players as u64));
        assert(field_views(fields@) =~= present(
            "nbPlayers"@,
            ValueView::Number(self.nb_players as nat),
        ));
        put(&mut fields, "duels", FieldValue::Json(&self.duels));
        put_if(&mut fields, "secondsToFinish", number_value(self.seconds_to_finish));
        put_if(&mut fields, "secondsToStart", number_value(self.seconds_to_start));
        put_if(&mut fields, "isStarted", flag_value(self.is_started));
        put_if(&mut fields, "isFinished", flag_value(self.is_finished));
        put_if(&mut fields, "isRecentlyFinished", flag_value(self.is_recently_finished));
        put_if(&mut fields, "featured", json_value(&self.featured));
        put_if(&mut fields, "podium", json_value(&self.podium));
        put_if(&mut fields, "pairingsClosed", flag_value(self.pairings_closed));
        put_if(&mut fields, "stats", json_value(&self.stats));
        put_if(&mut fields, "teamStanding", json_value(&self.team_standing));
        put_if(&mut fields, "duelTeams", json_value(&self.duel_teams));
        fields
    }
}

impl ClientMe {
    /// The viewer's entry as a record: the rank and the game if there are any,
    /// the withdrawal flag, the pause delay if there is one.
    pub fn record(&self) -> (fields: Vec<Field<'_>>)
        ensures
            field_views(fields@) == me_fields(self@),
    {
        let mut fields: Vec<Field<'_>> = Vec::new();
        let rank = match self.rank() {
            Some(rank) => Some(FieldValue::Number(rank.get() as u64)),
            None => None,
        };
        put_if(&mut fields, "rank", rank);
        put(&mut fields, "withdraw", FieldValue::Flag(self.withdraw()));
        let game = match self.game_id() {
            Some(game) => Some(FieldValue::Text(game.as_str())),
            None => None,
        };
        put_if(&mut fields, "gameId", game);
        put_if(&mut fields, "pauseDelay", number_value(self.pause_delay()));
        fields
    }
}

impl<'p> ClientStanding<'p> {
    /// The standing page as a record: the page number and the entries.
    pub fn record(&self) -> (fields: Vec<Field<'_>>)
        ensures
            field_views(fields@) == standing_fields(self@),
    {
        let mut fields: Vec<Field<'_>> = Vec::new();
        put(&mut fields, "page", FieldValue::Number(self.page() as u64));
        put(&mut fields, "players", FieldValue::List(self.players()));
        fields
    }
}

impl<'d> ClientData<'d> {
    /// The response as a record.
    pub fn record(&self) -> (fields: Vec<Field<'_>>)
        ensures
            field_views(fields@) == data_fields(self@),
    {
        let mut fields = self.shared().record();
        let me = match self.me() {
            Some(me) => Some(FieldValue::Me(me)),
            None => None,
        };
        put_if(&mut fields, "me", me);
        put(&mut fields, "standing", FieldValue::Standing(self.standing()));
        fields
    }
}

} // verus!
