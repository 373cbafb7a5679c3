//! The canonical arena record and the per-viewer response built from it.
//!
//! An [`ArenaFull`] is one immutable snapshot of an arena. [`ClientData`] is
//! what one reader gets to see of it: the attributes shared by all readers,
//! the reader's own entry if the reader named themselves, and one page of the
//! standing.

use crate::error::Error;
use crate::paging::{page_bounds, page_of};
use crate::ranking::{rank_in, rank_table, ranking_ids, split_ids, FullRanking};
use serde_json::Value as JsValue;
use std::sync::Arc;
use vstd::hash_map::StringHashMap;
use vstd::prelude::*;
use vstd::slice::slice_subrange;

verus! {

/// `serde_json::Value`, a JSON value. The library carries such values from the
/// record to the response and never looks into them.
#[verifier::external_type_specification]
#[verifier::external_body]
pub struct ExJsValue(serde_json::Value);

/// Identity of a tournament instance.
#[derive(Debug, PartialEq, Eq, Hash)]
pub struct ArenaId(pub String);

/// Identity of a participant.
#[derive(Debug, PartialEq, Eq, Hash)]
pub struct UserId(pub String);

/// Identity of a game in progress.
#[derive(Debug, PartialEq, Eq)]
pub struct GameId(String);

/// A participant's 1-based position in the ranking order.
#[derive(Debug, PartialEq, Eq)]
pub struct Rank(usize);

impl View for ArenaId {
    type V = Seq<char>;

    open spec fn view(&self) -> Seq<char> {
        self.0@
    }
}

impl Clone for ArenaId {
    fn clone(&self) -> (r: Self)
        ensures
            r == *self,
    {
        ArenaId(self.0.clone())
    }
}

impl View for UserId {
    type V = Seq<char>;

    open spec fn view(&self) -> Seq<char> {
        self.0@
    }
}

impl Clone for UserId {
    fn clone(&self) -> (r: Self)
        ensures
            r == *self,
    {
        UserId(self.0.clone())
    }
}

impl View for GameId {
    type V = Seq<char>;

    closed spec fn view(&self) -> Seq<char> {
        self.0@
    }
}

impl Clone for GameId {
    fn clone(&self) -> (r: Self)
        ensures
            r == *self,
    {
        GameId(self.0.clone())
    }
}

impl GameId {
    /// The identity `id` of a game.
    pub fn new(id: String) -> (r: Self)
        ensures
            r@ == id@,
    {
        GameId(id)
    }

    /// The identity as text.
    pub fn as_str(&self) -> (s: &str)
        ensures
            s@ == self@,
    {
        self.0.as_str()
    }
}

impl View for Rank {
    type V = nat;

    closed spec fn view(&self) -> nat {
        self.0 as nat
    }
}

impl Clone for Rank {
    fn clone(&self) -> (r: Self)
        ensures
            r == *self,
    {
        proof {
            use_type_invariant(self);
        }
        Rank(self.0)
    }
}

impl Rank {
    #[verifier::type_invariant]
    spec fn positive(self) -> bool {
        self.0 >= 1
    }

    /// The rank `rank`, if it is one: ranks count from one, so zero is none.
    pub fn new(rank: usize) -> (made: Option<Rank>)
        ensures
            match made {
                Some(r) => r@ == rank && rank >= 1,
                None => rank == 0,
            },
    {
        if rank >= 1 {
            Some(Rank(rank))
        } else {
            None
        }
    }

    /// The rank of the participant at the zero-based position `position` of a
    /// ranking order.
    pub(crate) fn at(position: usize) -> (rank: Rank)
        requires
            position < usize::MAX,
        ensures
            rank@ == position + 1,
    {
        Rank(position + 1)
    }

    /// The rank as a number, at least one.
    pub fn get(&self) -> (n: usize)
        ensures
            n == self@,
            n >= 1,
    {
        proof {
            use_type_invariant(self);
        }
        self.0
    }
}

/// The mathematical content of a [`ClientMe`].
pub ghost struct ClientMeView {
    pub rank: Option<nat>,
    pub withdraw: bool,
    pub game_id: Option<Seq<char>>,
    pub pause_delay: Option<u32>,
}

/// What the response says about the viewer.
#[derive(Debug)]
pub struct ClientMe {
    rank: Option<Rank>,
    withdraw: bool,
    game_id: Option<GameId>,
    pause_delay: Option<u32>,
}

impl View for ClientMe {
    type V = ClientMeView;

    closed spec fn view(&self) -> ClientMeView {
        ClientMeView {
            rank: match self.rank {
                Some(r) => Some(r@),
                None => None,
            },
            withdraw: self.withdraw,
            game_id: match self.game_id {
                Some(g) => Some(g@),
                None => None,
            },
            pause_delay: self.pause_delay,
        }
    }
}

impl ClientMe {
    /// The viewer's entry: the given rank and game, no withdrawal, no pause delay.
    pub fn new(rank: Option<&Rank>, game_id: Option<&GameId>) -> (me: ClientMe)
        ensures
            me@.rank == (match rank {
                Some(r) => Some(r@),
                None => None::<nat>,
            }),
            me@.game_id == (match game_id {
                Some(g) => Some(g@),
                None => None::<Seq<char>>,
            }),
            !me@.withdraw,
            me@.pause_delay is None,
    {
        ClientMe {
            rank: match rank {
                Some(r) => Some(r.clone()),
                None => None,
            },
            withdraw: false,
            game_id: match game_id {
                Some(g) => Some(g.clone()),
                None => None,
            },
            pause_delay: None,
        }
    }

    /// The viewer's rank, absent if the ranking does not name the viewer.
    pub fn rank(&self) -> (rank: Option<&Rank>)
        ensures
            match rank {
                Some(r) => self@.rank == Some(r@),
                None => self@.rank is None,
            },
    {
        self.rank.as_ref()
    }

    /// Whether the viewer has withdrawn.
    pub fn withdraw(&self) -> (withdraw: bool)
        ensures
            withdraw == self@.withdraw,
    {
        self.withdraw
    }

    /// The viewer's game in progress, if any.
    pub fn game_id(&self) -> (game_id: Option<&GameId>)
        ensures
            match game_id {
                Some(g) => self@.game_id == Some(g@),
                None => self@.game_id is None,
            },
    {
        self.game_id.as_ref()
    }

    /// The delay before the viewer may pause again, if any.
    pub fn pause_delay(&self) -> (pause_delay: Option<u32>)
        ensures
            pause_delay == self@.pause_delay,
    {
        self.pause_delay
    }
}

/// The page number that a request without one asks for.
pub const DEFAULT_PAGE: usize = 1;

/// The attributes of an arena that every reader is shown.
#[derive(Debug)]
pub struct ArenaShared {
    pub nb_players: u32,
    pub duels: JsValue,
    pub seconds_to_finish: Option<u32>,
    pub seconds_to_start: Option<u32>,
    pub is_started: Option<bool>,
    pub is_finished: Option<bool>,
    pub is_recently_finished: Option<bool>,
    pub featured: Option<JsValue>,
    pub podium: Option<JsValue>,
    pub pairings_closed: Option<bool>,
    pub stats: Option<JsValue>,
    pub team_standing: Option<JsValue>,
    pub duel_teams: Option<JsValue>,
}

/// The mathematical content of an [`ArenaFull`].
pub ghost struct ArenaFullView {
    pub id: Seq<char>,
    pub shared: ArenaShared,
    /// For each participant with a game in progress, that game.
    pub ongoing_user_games: Map<Seq<char>, Seq<char>>,
    /// The ranking source: the participants in ranking order, comma-delimited.
    pub ranking: Seq<char>,
    /// The standing summaries, in standing order.
    pub standing: Seq<JsValue>,
}

impl ArenaFullView {
    /// A record is consistent when its ranking source names as many
    /// participants as its standing lists.
    pub open spec fn consistent(self) -> bool {
        ranking_ids(self.ranking).len() == self.standing.len()
    }
}

/// The games that a list of (participant, game) pairs assigns. Where a
/// participant occurs more than once, the last pair counts.
pub open spec fn games_of(pairs: Seq<(UserId, GameId)>) -> Map<Seq<char>, Seq<char>>
    decreases pairs.len(),
{
    if pairs.len() == 0 {
        Map::<Seq<char>, Seq<char>>::empty()
    } else {
        games_of(pairs.drop_last()).insert(pairs.last().0@, pairs.last().1@)
    }
}

/// The canonical record of one arena: an immutable snapshot, always consistent.
pub struct ArenaFull {
    id: ArenaId,
    shared: ArenaShared,
    ongoing_user_games: StringHashMap<GameId>,
    ranking_source: String,
    /// The rank table of `ranking_source`, built once when the record is made,
    /// so that looking up a viewer's rank does not split the source again.
    ranking: FullRanking,
    standing: Vec<JsValue>,
}

impl View for ArenaFull {
    type V = ArenaFullView;

    closed spec fn view(&self) -> ArenaFullView {
        ArenaFullView {
            id: self.id@,
            shared: self.shared,
            ongoing_user_games: Map::new(
                |uid: Seq<char>| self.ongoing_user_games@.contains_key(uid),
                |uid: Seq<char>| self.ongoing_user_games@[uid]@,
            ),
            ranking: self.ranking_source@,
            standing: self.standing@,
        }
    }
}

impl ArenaFull {
    #[verifier::type_invariant]
    spec fn inv(self) -> bool {
        &&& self.ranking@ == rank_table(ranking_ids(self.ranking_source@))
        &&& ranking_ids(self.ranking_source@).len() == self.standing@.len()
    }

    /// Builds the record of an arena from its parts. A record whose ranking
    /// source does not name as many participants as `standing` lists is
    /// rejected as malformed.
    pub fn new(
        id: ArenaId,
        shared: ArenaShared,
        ongoing_user_games: Vec<(UserId, GameId)>,
        ranking: String,
        standing: Vec<JsValue>,
    ) -> (made: Result<ArenaFull, Error>)
        ensures
            match made {
                Ok(full) => {
                    &&& full@ == (ArenaFullView {
                        id: id@,
                        shared: shared,
                        ongoing_user_games: games_of(ongoing_user_games@),
                        ranking: ranking@,
                        standing: standing@,
                    })
                    &&& full@.consistent()
                },
                Err(e) => {
                    &&& e == Error::MalformedRecord
                    &&& ranking_ids(ranking@).len() != standing@.len()
                },
            },
    {
        let ids = split_ids(ranking.as_str());
        if ids.len() != standing.len() {
            return Err(Error::MalformedRecord);
        }
        let table = FullRanking::from_ids(&ids);
        let mut games: StringHashMap<GameId> = StringHashMap::new();
        let mut i: usize = 0;
        while i < ongoing_user_games.len()
            invariant
                i <= ongoing_user_games.len(),
                forall|uid: Seq<char>|
                    games@.contains_key(uid) <==> games_of(
                        ongoing_user_games@.take(i as int),
                    ).contains_key(uid),
                forall|uid: Seq<char>|
                    games@.contains_key(uid) ==> (#[trigger] games@[uid])@ == games_of(
                        ongoing_user_games@.take(i as int),
                    )[uid],
            decreases ongoing_user_games.len() - i,
        {
            assert(ongoing_user_games@.take(i + 1).drop_last() == ongoing_user_games@.take(
                i as int,
            ));
            let pair = &ongoing_user_games[i];
            games.insert(pair.0.0.clone(), pair.1.clone());
            i = i + 1;
        }
        assert(ongoing_user_games@.take(ongoing_user_games.len() as int) == ongoing_user_games@);
        let full = ArenaFull {
            id,
            shared,
            ongoing_user_games: games,
            ranking_source: ranking,
            ranking: table,
            standing,
        };
        assert(full@.ongoing_user_games =~= games_of(ongoing_user_games@));
        Ok(full)
    }

    /// The arena's identity.
    pub fn id(&self) -> (id: &ArenaId)
        ensures
            id@ == self@.id,
    {
        &self.id
    }

    /// The attributes shown to every reader.
    pub fn shared(&self) -> (shared: &ArenaShared)
        ensures
            *shared == self@.shared,
    {
        &self.shared
    }

    /// The ranking source.
    pub fn ranking(&self) -> (source: &str)
        ensures
            source@ == self@.ranking,
            self@.consistent(),
    {
        proof {
            use_type_invariant(self);
        }
        self.ranking_source.as_str()
    }

    /// The standing summaries, in standing order.
    pub fn standing(&self) -> (standing: &Vec<JsValue>)
        ensures
            standing@ == self@.standing,
            self@.consistent(),
    {
        proof {
            use_type_invariant(self);
        }
        &self.standing
    }

    /// The game in progress of the participant `uid`, if any.
    pub fn game_of(&self, uid: &UserId) -> (game: Option<&GameId>)
        ensures
            match game {
                Some(g) => self@.ongoing_user_games.contains_key(uid@)
                    && self@.ongoing_user_games[uid@] == g@,
                None => !self@.ongoing_user_games.contains_key(uid@),
            },
    {
        self.ongoing_user_games.get(uid.0.as_str())
    }

    /// What the response says about the viewer `uid`: the rank that the
    /// ranking source gives them and their game in progress, each absent if
    /// there is none.
    pub fn user_from_id(&self, uid: &UserId) -> (me: ClientMe)
        ensures
            me@ == viewer_entry(self@, uid@),
    {
        proof {
            use_type_invariant(self);
        }
        ClientMe::new(self.ranking.get(uid), self.ongoing_user_games.get(uid.0.as_str()))
    }

    /// The given page of the arena's standing.
    pub fn standing_from_page(&self, page: usize) -> (standing: ClientStanding<'_>)
        ensures
            standing@ == standing_page(self@.standing, page as nat),
    {
        ClientStanding::new(&self.standing, page)
    }
}

/// What a response says about a viewer of the arena `record`.
pub open spec fn viewer_entry(record: ArenaFullView, uid: Seq<char>) -> ClientMeView {
    ClientMeView {
        rank: rank_in(ranking_ids(record.ranking), uid),
        withdraw: false,
        game_id: if record.ongoing_user_games.contains_key(uid) {
            Some(record.ongoing_user_games[uid])
        } else {
            None
        },
        pause_delay: None,
    }
}

/// The mathematical content of a [`ClientStanding`].
pub ghost struct ClientStandingView {
    pub page: nat,
    pub players: Seq<JsValue>,
}

/// The page `page` of the standing list `standing`.
pub open spec fn standing_page(standing: Seq<JsValue>, page: nat) -> ClientStandingView {
    ClientStandingView { page: page, players: page_of(standing, page) }
}

/// One page of an arena's standing.
#[derive(Debug)]
pub struct ClientStanding<'p> {
    page: usize,
    players: &'p [JsValue],
}

impl<'p> View for ClientStanding<'p> {
    type V = ClientStandingView;

    closed spec fn view(&self) -> ClientStandingView {
        ClientStandingView { page: self.page as nat, players: self.players@ }
    }
}

impl<'a> ClientStanding<'a> {
    /// The page `page` of `full_standing`: its entries in order, none if the
    /// page is zero or lies past the end of the list.
    pub fn new<'b>(full_standing: &'b Vec<JsValue>, page: usize) -> (standing: ClientStanding<'b>)
        ensures
            standing@ == standing_page(full_standing@, page as nat),
    {
        let (start, end) = page_bounds(full_standing.len(), page);
        ClientStanding { page, players: slice_subrange(full_standing.as_slice(), start, end) }
    }

    /// The page number.
    pub fn page(&self) -> (page: usize)
        ensures
            page == self@.page,
    {
        self.page
    }

    /// The standing summaries on the page, in standing order.
    pub fn players(&self) -> (players: &'a [JsValue])
        ensures
            players@ == self@.players,
    {
        self.players
    }
}

/// The mathematical content of a [`ClientData`].
pub ghost struct ClientDataView {
    pub shared: ArenaShared,
    pub me: Option<ClientMeView>,
    pub standing: ClientStandingView,
}

/// What a reader is shown of the arena `record`: the shared attributes, the
/// reader's own entry exactly when the reader named themselves, and the
/// requested page of the standing.
pub open spec fn projection(
    record: ArenaFullView,
    viewer: Option<Seq<char>>,
    page: nat,
) -> ClientDataView {
    ClientDataView {
        shared: record.shared,
        me: match viewer {
            Some(uid) => Some(viewer_entry(record, uid)),
            None => None,
        },
        standing: standing_page(record.standing, page),
    }
}

/// The identity held by an optional [`UserId`].
pub open spec fn viewer_of(user_id: Option<UserId>) -> Option<Seq<char>> {
    match user_id {
        Some(uid) => Some(uid@),
        None => None,
    }
}

/// The response to one read request.
#[derive(Debug)]
pub struct ClientData<'a> {
    shared: &'a ArenaShared,
    me: Option<ClientMe>,
    standing: ClientStanding<'a>,
}

impl<'a> View for ClientData<'a> {
    type V = ClientDataView;

    closed spec fn view(&self) -> ClientDataView {
        ClientDataView {
            shared: *self.shared,
            me: match self.me {
                Some(me) => Some(me@),
                None => None,
            },
            standing: self.standing@,
        }
    }
}

impl<'a> ClientData<'a> {
    /// The response for a request that names no page: the first page.
    pub fn new<'b>(full: &'b Arc<ArenaFull>, user_id: Option<UserId>) -> (data: ClientData<'b>)
        ensures
            data@ == projection(full@, viewer_of(user_id), DEFAULT_PAGE as nat),
    {
        ClientData::project(full, user_id, None)
    }

    /// The response for the viewer `user_id`, if any, and the page `page`,
    /// the first page if none is named.
    pub fn project<'b>(
        full: &'b Arc<ArenaFull>,
        user_id: Option<UserId>,
        page: Option<usize>,
    ) -> (data: ClientData<'b>)
        ensures
            data@ == projection(
                full@,
                viewer_of(user_id),
                match page {
                    Some(p) => p as nat,
                    None => DEFAULT_PAGE as nat,
                },
            ),
    {
        let page: usize = match page {
            Some(p) => p,
            None => DEFAULT_PAGE,
        };
        ClientData {
            shared: &full.shared,
            me: match user_id {
                Some(uid) => Some(full.user_from_id(&uid)),
                None => None,
            },
            standing: full.standing_from_page(page),
        }
    }

    /// The attributes shown to every reader.
    pub fn shared(&self) -> (shared: &'a ArenaShared)
        ensures
            *shared == self@.shared,
    {
        self.shared
    }

    /// The viewer's own entry, absent if the request named no viewer.
    pub fn me(&self) -> (me: Option<&ClientMe>)
        ensures
            match me {
                Some(m) => self@.me == Some(m@),
                None => self@.me is None,
            },
    {
        self.me.as_ref()
    }

    /// The requested page of the standing.
    pub fn standing(&self) -> (standing: &ClientStanding<'a>)
        ensures
            standing@ == self@.standing,
    {
        &self.standing
    }
}

} // verus!
