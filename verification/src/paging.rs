//! Standing pagination: fixed-size pages over the ordered standing list.
//!
//! Pages are numbered from one. Page `p` covers the zero-based positions from
//! `(p - 1) * PAGE_SIZE` up to, but not including, `p * PAGE_SIZE`, cut off at
//! the end of the list. Page zero and pages past the end of the list are empty.

use vstd::prelude::*;

verus! {

/// Number of standing entries on a full page.
pub const PAGE_SIZE: usize = 10;

/// Zero-based position of the first entry of `page` in a list of `len` entries.
pub open spec fn page_start(len: nat, page: nat) -> nat {
    if page == 0 {
        0
    } else if (page - 1) * PAGE_SIZE <= len {
        ((page - 1) * PAGE_SIZE) as nat
    } else {
        len
    }
}

/// Zero-based position just past the last entry of `page` in a list of `len` entries.
pub open spec fn page_end(len: nat, page: nat) -> nat {
    if page == 0 {
        0
    } else if page * PAGE_SIZE <= len {
        (page * PAGE_SIZE) as nat
    } else {
        len
    }
}

/// The entries of `standing` that belong to `page`.
pub open spec fn page_of<T>(standing: Seq<T>, page: nat) -> Seq<T> {
    standing.subrange(
        page_start(standing.len(), page) as int,
        page_end(standing.len(), page) as int,
    )
}

/// Number of pages that hold at least one entry of a list of `len` entries.
pub open spec fn page_count(len: nat) -> nat {
    ((len + PAGE_SIZE - 1) / (PAGE_SIZE as int)) as nat
}

/// Pages `1` to `last` of `standing`, one after the other.
pub open spec fn pages_through<T>(standing: Seq<T>, last: nat) -> Seq<T>
    decreases last,
{
    if last == 0 {
        Seq::<T>::empty()
    } else {
        pages_through(standing, (last - 1) as nat) + page_of(standing, last)
    }
}

/// The positions that `page` covers in a list of `len` entries: first position
/// and the position just past the last.
pub fn page_bounds(len: usize, page: usize) -> (bounds: (usize, usize))
    ensures
        bounds.0 == page_start(len as nat, page as nat),
        bounds.1 == page_end(len as nat, page as nat),
        bounds.0 <= bounds.1 <= len,
{
    if page == 0 {
        return (0, 0);
    }
    let full_pages: usize = len / PAGE_SIZE;
    let before: usize = page - 1;
    if before > full_pages {
        (len, len)
    } else {
        let start: usize = before * PAGE_SIZE;
        let end: usize = if len - start >= PAGE_SIZE {
            start + PAGE_SIZE
        } else {
            len
        };
        (start, end)
    }
}

/// A page that exists covers exactly the positions from `(page - 1) * PAGE_SIZE`
/// to the smaller of `page * PAGE_SIZE` and the length of the list, and holds
/// at least one entry.
pub proof fn lemma_valid_page_range(len: nat, page: nat)
    requires
        1 <= page <= page_count(len),
    ensures
        page_start(len, page) == (page - 1) * PAGE_SIZE,
        page_end(len, page) == if page * PAGE_SIZE <= len {
            (page * PAGE_SIZE) as nat
        } else {
            len
        },
        page_start(len, page) < page_end(len, page),
        page_end(len, page) - page_start(len, page) <= PAGE_SIZE,
{
}

/// A page that exists is the slice of the list from `(page - 1) * PAGE_SIZE` to
/// the smaller of `page * PAGE_SIZE` and the length of the list.
pub proof fn lemma_valid_page_is_slice<T>(standing: Seq<T>, page: nat)
    requires
        1 <= page <= page_count(standing.len()),
    ensures
        page_of(standing, page) == standing.subrange(
            (page - 1) * PAGE_SIZE,
            if page * PAGE_SIZE <= standing.len() {
                page * PAGE_SIZE
            } else {
                standing.len() as int
            },
        ),
{
    lemma_valid_page_range(standing.len(), page);
}

/// Pages neither overlap nor leave a gap: each page starts where the page
/// before it ends.
pub proof fn lemma_pages_adjoin(len: nat, page: nat)
    requires
        1 <= page,
    ensures
        page_end(len, page) == page_start(len, page + 1),
        page_start(len, page) <= page_end(len, page) <= len,
{
}

/// The first `last` pages, one after the other, are the list up to the end of
/// page `last`.
pub proof fn lemma_pages_through_is_prefix<T>(standing: Seq<T>, last: nat)
    ensures
        pages_through(standing, last) == standing.subrange(
            0,
            page_end(standing.len(), last) as int,
        ),
    decreases last,
{
    if last > 0 {
        let len = standing.len();
        let earlier = (last - 1) as nat;
        lemma_pages_through_is_prefix(standing, earlier);
        if earlier >= 1 {
            lemma_pages_adjoin(len, earlier);
        }
        assert(standing.subrange(0, page_start(len, last) as int) + page_of(standing, last)
            =~= standing.subrange(0, page_end(len, last) as int));
    }
}

/// All pages of a list, one after the other, are the list itself.
pub proof fn lemma_pages_reconstruct<T>(standing: Seq<T>)
    ensures
        pages_through(standing, page_count(standing.len())) == standing,
{
    lemma_pages_through_is_prefix(standing, page_count(standing.len()));
}

} // verus!
