//! Ranking reconstruction: from the comma-delimited ranking source of an arena
//! to a table that answers "which rank does this participant hold?".
//!
//! Ranks are 1-based and follow the order of the source. Where an identity is
//! named more than once, its first occurrence decides its rank; later
//! occurrences are ignored.

use crate::arena::{Rank, UserId};
use vstd::hash_map::StringHashMap;
use vstd::prelude::*;

verus! {

/// The character that separates identities in a ranking source.
pub const SEPARATOR: char = ',';

/// The pieces of `s` between occurrences of `sep`, in order. A text without a
/// separator is its own single piece, and every separator starts a new piece,
/// so a text with `n` separators has `n + 1` pieces, some of them possibly empty.
pub open spec fn split_on(s: Seq<char>, sep: char) -> Seq<Seq<char>>
    decreases s.len(),
{
    if s.len() == 0 {
        seq![Seq::<char>::empty()]
    } else {
        let before = split_on(s.drop_last(), sep);
        if s.last() == sep {
            before.push(Seq::<char>::empty())
        } else {
            before.drop_last().push(before.last().push(s.last()))
        }
    }
}

/// The identities that a ranking source names, in ranking order. The empty
/// source names nobody.
pub open spec fn ranking_ids(source: Seq<char>) -> Seq<Seq<char>> {
    if source.len() == 0 {
        Seq::<Seq<char>>::empty()
    } else {
        split_on(source, SEPARATOR)
    }
}

/// The identities held by a list of [`UserId`]s.
pub open spec fn id_views(ids: Seq<UserId>) -> Seq<Seq<char>> {
    Seq::new(ids.len(), |i: int| ids[i]@)
}

/// The rank of `uid` in the ranking order `ids`: one more than the position of
/// its first occurrence, or nothing if `ids` does not name it.
pub open spec fn rank_in(ids: Seq<Seq<char>>, uid: Seq<char>) -> Option<nat>
    decreases ids.len(),
{
    if ids.len() == 0 {
        None
    } else {
        match rank_in(ids.drop_last(), uid) {
            Some(r) => Some(r),
            None => if ids.last() == uid {
                Some(ids.len())
            } else {
                None
            },
        }
    }
}

/// The rank table of a ranking order: every identity it names, with its rank.
pub open spec fn rank_table(ids: Seq<Seq<char>>) -> Map<Seq<char>, nat> {
    Map::new(|uid: Seq<char>| rank_in(ids, uid) is Some, |uid: Seq<char>| rank_in(ids, uid)->0)
}

/// The text made of `pieces` with `sep` between each two neighbours.
pub open spec fn join_with(pieces: Seq<Seq<char>>, sep: char) -> Seq<char>
    decreases pieces.len(),
{
    if pieces.len() == 0 {
        Seq::<char>::empty()
    } else if pieces.len() == 1 {
        pieces[0]
    } else {
        join_with(pieces.drop_last(), sep).push(sep) + pieces.last()
    }
}

/// Splitting loses nothing and leaves no separator behind: a text always has
/// at least one piece, no piece holds the separator, and the pieces joined by
/// the separator give the text back.
pub proof fn lemma_split_on_inverts_join(s: Seq<char>, sep: char)
    ensures
        split_on(s, sep).len() >= 1,
        join_with(split_on(s, sep), sep) == s,
        forall|i: int, j: int|
            0 <= i < split_on(s, sep).len() && 0 <= j < split_on(s, sep)[i].len()
                ==> split_on(s, sep)[i][j] != sep,
    decreases s.len(),
{
    if s.len() > 0 {
        let pieces = split_on(s, sep);
        let before = split_on(s.drop_last(), sep);
        lemma_split_on_inverts_join(s.drop_last(), sep);
        if s.last() == sep {
            assert(pieces.drop_last() =~= before);
        } else {
            if before.len() > 1 {
                assert(pieces.drop_last() =~= before.drop_last());
                assert(join_with(pieces, sep) =~= join_with(before, sep).push(s.last()));
            }
            assert forall|i: int, j: int|
                0 <= i < pieces.len() && 0 <= j < pieces[i].len() implies pieces[i][j] != sep by {
                if i < pieces.len() - 1 {
                    assert(pieces[i] == before[i]);
                } else if j < before.last().len() {
                    assert(pieces[i][j] == before.last()[j]);
                }
            }
        }
    }
}

/// The rank of an identity is the position of its first occurrence, counted
/// from one; an identity has no rank exactly when the order does not name it.
pub proof fn lemma_rank_is_first_occurrence(ids: Seq<Seq<char>>, uid: Seq<char>)
    ensures
        match rank_in(ids, uid) {
            Some(r) => {
                &&& 1 <= r <= ids.len()
                &&& ids[r - 1] == uid
                &&& forall|j: int| 0 <= j < r - 1 ==> ids[j] != uid
            },
            None => forall|j: int| 0 <= j < ids.len() ==> ids[j] != uid,
        },
    decreases ids.len(),
{
    if ids.len() > 0 {
        let earlier = ids.drop_last();
        lemma_rank_is_first_occurrence(earlier, uid);
        assert(forall|j: int| 0 <= j < earlier.len() ==> earlier[j] == ids[j]);
    }
}

/// In a ranking order that names nobody twice, the identity at zero-based
/// position `k` holds rank `k + 1`.
pub proof fn lemma_distinct_ids_rank_by_position(ids: Seq<Seq<char>>, k: int)
    requires
        ids.no_duplicates(),
        0 <= k < ids.len(),
    ensures
        rank_in(ids, ids[k]) == Some((k + 1) as nat),
        rank_table(ids).contains_key(ids[k]),
        rank_table(ids)[ids[k]] == k + 1,
{
    lemma_rank_is_first_occurrence(ids, ids[k]);
}

/// For every ranking source whose identities are all different, the table
/// built from it gives the identity at zero-based position `k` the rank `k + 1`.
pub proof fn lemma_source_ranks_follow_positions(source: Seq<char>, k: int)
    requires
        ranking_ids(source).no_duplicates(),
        0 <= k < ranking_ids(source).len(),
    ensures
        rank_table(ranking_ids(source)).contains_key(ranking_ids(source)[k]),
        rank_table(ranking_ids(source))[ranking_ids(source)[k]] == k + 1,
{
    lemma_distinct_ids_rank_by_position(ranking_ids(source), k);
}

/// `String::push` of the standard library: appends one character to the text.
#[verifier::external_body]
fn push_char(text: &mut String, c: char)
    ensures
        final(text)@ == old(text)@.push(c),
{
    text.push(c)
}

/// Splits a ranking source into the identities it names.
pub fn split_ids(source: &str) -> (ids: Vec<UserId>)
    ensures
        id_views(ids@) == ranking_ids(source@),
{
    let mut ids: Vec<UserId> = Vec::new();
    if source.is_empty() {
        return ids;
    }
    let mut current = String::new();
    let chars = source.chars();
    for c in iter: chars
        invariant
            iter.seq() == source@,
            split_on(source@.take(iter.index()), SEPARATOR) == id_views(ids@).push(current@),
    {
        assert(source@.take(iter.index() + 1).drop_last() == source@.take(iter.index()));
        if c == SEPARATOR {
            ids.push(UserId(current));
            current = String::new();
        } else {
            push_char(&mut current, c);
        }
    }
    assert(source@.take(source@.len() as int) == source@);
    ids.push(UserId(current));
    ids
}

/// The rank lookup table of one arena.
pub struct FullRanking {
    ranking: StringHashMap<Rank>,
}

impl View for FullRanking {
    type V = Map<Seq<char>, nat>;

    closed spec fn view(&self) -> Map<Seq<char>, nat> {
        Map::new(
            |uid: Seq<char>| self.ranking@.contains_key(uid),
            |uid: Seq<char>| self.ranking@[uid]@,
        )
    }
}

impl FullRanking {
    /// The table of a ranking order given as a list of identities.
    pub fn from_ids(ids: &Vec<UserId>) -> (table: FullRanking)
        ensures
            table@ == rank_table(id_views(ids@)),
    {
        let ghost views = id_views(ids@);
        let mut ranking: StringHashMap<Rank> = StringHashMap::new();
        let mut i: usize = 0;
        while i < ids.len()
            invariant
                i <= ids.len(),
                views == id_views(ids@),
                forall|uid: Seq<char>|
                    ranking@.contains_key(uid) <==> rank_in(views.take(i as int), uid) is Some,
                forall|uid: Seq<char>|
                    ranking@.contains_key(uid) ==> Some(#[trigger] ranking@[uid]@) == rank_in(
                        views.take(i as int),
                        uid,
                    ),
            decreases ids.len() - i,
        {
            assert(views.take(i + 1).drop_last() == views.take(i as int));
            let uid = &ids[i];
            if !ranking.contains_key(uid.0.as_str()) {
                ranking.insert(uid.0.clone(), Rank::at(i));
            }
            i = i + 1;
        }
        assert(views.take(ids.len() as int) == views);
        FullRanking { ranking }
    }

    /// The rank that the table holds for `uid`, if any.
    pub fn get(&self, uid: &UserId) -> (rank: Option<&Rank>)
        ensures
            match rank {
                Some(r) => self@.contains_key(uid@) && r@ == self@[uid@],
                None => !self@.contains_key(uid@),
            },
    {
        self.ranking.get(uid.0.as_str())
    }
}

/// What `from` returns is stated by `from` itself, through the table's view:
/// no spec function can name a table as a value.
impl vstd::std_specs::convert::FromSpecImpl<String> for FullRanking {
    open spec fn obeys_from_spec() -> bool {
        false
    }

    open spec fn from_spec(source: String) -> Self {
        arbitrary()
    }
}

impl From<String> for FullRanking {
    /// The table of a comma-delimited ranking source.
    fn from(user_ids_comma_separated: String) -> (table: FullRanking)
        ensures
            table@ == rank_table(ranking_ids(user_ids_comma_separated@)),
    {
        let user_ids = split_ids(user_ids_comma_separated.as_str());
        FullRanking::from_ids(&user_ids)
    }
}

} // verus!
