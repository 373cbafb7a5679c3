use lila_http::paging::{page_bounds, PAGE_SIZE};

#[test]
fn page_size_is_ten() {
    assert_eq!(PAGE_SIZE, 10);
}

#[test]
fn bounds_of_pages_of_twenty_five() {
    assert_eq!(page_bounds(25, 1), (0, 10));
    assert_eq!(page_bounds(25, 2), (10, 20));
    assert_eq!(page_bounds(25, 3), (20, 25));
    assert_eq!(page_bounds(25, 4), (25, 25));
}

#[test]
fn bounds_at_the_edges() {
    assert_eq!(page_bounds(0, 1), (0, 0));
    assert_eq!(page_bounds(0, 0), (0, 0));
    assert_eq!(page_bounds(25, 0), (0, 0));
    assert_eq!(page_bounds(10, 1), (0, 10));
    assert_eq!(page_bounds(10, 2), (10, 10));
    assert_eq!(page_bounds(11, 2), (10, 11));
    assert_eq!(page_bounds(3, 1), (0, 3));
    assert_eq!(page_bounds(3, usize::MAX), (3, 3));
    assert_eq!(page_bounds(usize::MAX, usize::MAX), (usize::MAX, usize::MAX));
    assert_eq!(page_bounds(usize::MAX, 1), (0, 10));
}

#[test]
fn pages_in_order_cover_every_position_once() {
    let mut len: usize = 0;
    while len <= 45 {
        let mut covered: usize = 0;
        let mut page: usize = 1;
        while page <= (len + PAGE_SIZE - 1) / PAGE_SIZE {
            let (start, end) = page_bounds(len, page);
            assert_eq!(start, covered);
            assert_eq!(start, (page - 1) * PAGE_SIZE);
            assert_eq!(end, std::cmp::min(page * PAGE_SIZE, len));
            assert!(start < end);
            covered = end;
            page += 1;
        }
        assert_eq!(covered, len);
        len += 1;
    }
}
