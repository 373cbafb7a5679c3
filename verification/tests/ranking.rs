use lila_http::arena::UserId;
use lila_http::ranking::{split_ids, FullRanking};

fn ids(names: &[&str]) -> Vec<UserId> {
    names.iter().map(|name| UserId(name.to_string())).collect()
}

fn rank(table: &FullRanking, id: &str) -> Option<usize> {
    table.get(&UserId(id.to_string())).map(|r| r.get())
}

#[test]
fn source_splits_at_commas() {
    assert_eq!(split_ids("u1,u2,u3"), ids(&["u1", "u2", "u3"]));
    assert_eq!(split_ids("alone"), ids(&["alone"]));
}

#[test]
fn empty_source_names_nobody() {
    assert_eq!(split_ids(""), Vec::<UserId>::new());
    let table = FullRanking::from(String::new());
    assert_eq!(rank(&table, ""), None);
    assert_eq!(rank(&table, "u1"), None);
}

#[test]
fn empty_pieces_are_kept() {
    assert_eq!(split_ids(","), ids(&["", ""]));
    assert_eq!(split_ids("a,,b"), ids(&["a", "", "b"]));
    assert_eq!(split_ids("a,"), ids(&["a", ""]));
    assert_eq!(split_ids(",a"), ids(&["", "a"]));
}

#[test]
fn pieces_keep_every_character() {
    assert_eq!(split_ids("zoë,日本,x y"), ids(&["zoë", "日本", "x y"]));
}

#[test]
fn ranks_count_from_one_in_source_order() {
    let table = FullRanking::from("u1,u2,u3".to_string());
    assert_eq!(rank(&table, "u1"), Some(1));
    assert_eq!(rank(&table, "u2"), Some(2));
    assert_eq!(rank(&table, "u3"), Some(3));
    assert_eq!(rank(&table, "u4"), None);
    assert_eq!(rank(&table, "u"), None);
}

#[test]
fn repeated_identity_keeps_its_first_rank() {
    let table = FullRanking::from("a,b,a,c,b".to_string());
    assert_eq!(rank(&table, "a"), Some(1));
    assert_eq!(rank(&table, "b"), Some(2));
    assert_eq!(rank(&table, "c"), Some(4));
}

#[test]
fn table_from_a_list_matches_table_from_the_source() {
    let from_list = FullRanking::from_ids(&ids(&["x", "y"]));
    let from_source = FullRanking::from("x,y".to_string());
    assert_eq!(rank(&from_list, "x"), rank(&from_source, "x"));
    assert_eq!(rank(&from_list, "y"), Some(2));
    assert_eq!(rank(&from_source, "y"), Some(2));
}

#[test]
fn every_position_of_a_long_distinct_source_is_its_rank_less_one() {
    let names: Vec<String> = (0..200usize).map(|i| format!("player{}", i)).collect();
    let table = FullRanking::from(names.join(","));
    for (k, name) in names.iter().enumerate() {
        assert_eq!(rank(&table, name), Some(k + 1));
    }
}
