use loco_openapi::document::{HttpMethod, Operation, Schema};
use loco_openapi::table::{
    duplicate_entries, find, put_entries, put_entry, put_new_entries, put_new_entry, Entry,
};

fn get(path: &str, definition: &str) -> Operation {
    Operation::new(path, HttpMethod::Get, definition)
}

#[test]
fn find_gives_the_first_index_of_a_key() {
    let table = vec![get("/a", "1"), get("/b", "2"), get("/a", "3")];
    assert_eq!(find(&table, &get("/a", "probe")), 0);
    assert_eq!(find(&table, &get("/b", "probe")), 1);
}

#[test]
fn find_gives_the_length_for_a_key_that_is_not_there() {
    let table = vec![get("/a", "1"), get("/b", "2")];
    assert_eq!(find(&table, &get("/c", "probe")), 2);
    assert_eq!(find(&table, &Operation::new("/a", HttpMethod::Post, "probe")), 2);
    assert_eq!(find(&Vec::new(), &get("/a", "probe")), 0);
}

#[test]
fn put_replaces_in_place_or_appends() {
    let mut table = vec![get("/a", "1"), get("/b", "2")];
    put_entry(&mut table, get("/a", "3"));
    assert_eq!(table, vec![get("/a", "3"), get("/b", "2")]);
    put_entry(&mut table, get("/c", "4"));
    assert_eq!(table, vec![get("/a", "3"), get("/b", "2"), get("/c", "4")]);
}

#[test]
fn put_new_appends_or_leaves_the_table() {
    let mut table = vec![Schema::new("A", "1")];
    put_new_entry(&mut table, Schema::new("A", "2"));
    assert_eq!(table, vec![Schema::new("A", "1")]);
    put_new_entry(&mut table, Schema::new("B", "3"));
    assert_eq!(table, vec![Schema::new("A", "1"), Schema::new("B", "3")]);
}

#[test]
fn put_entries_puts_in_order() {
    let mut table = vec![get("/a", "1")];
    put_entries(&mut table, &vec![get("/b", "2"), get("/a", "3"), get("/b", "4"), get("/c", "5")]);
    assert_eq!(table, vec![get("/a", "3"), get("/b", "4"), get("/c", "5")]);
    put_entries(&mut table, &vec![]);
    assert_eq!(table, vec![get("/a", "3"), get("/b", "4"), get("/c", "5")]);
}

#[test]
fn put_new_entries_keeps_the_first_of_each_key() {
    let mut table = vec![Schema::new("A", "1")];
    put_new_entries(
        &mut table,
        &vec![Schema::new("B", "2"), Schema::new("A", "3"), Schema::new("B", "4")],
    );
    assert_eq!(table, vec![Schema::new("A", "1"), Schema::new("B", "2")]);
}

#[test]
fn duplicate_entries_copies_every_entry() {
    let table = vec![get("/a", "1"), get("/a", "2"), get("/b", "3")];
    assert_eq!(duplicate_entries(&table), table);
    let empty: Vec<Operation> = vec![];
    assert_eq!(duplicate_entries(&empty), empty);
}

#[test]
fn entries_compare_by_key_alone() {
    assert!(get("/a", "1").same_key(&get("/a", "2")));
    assert!(!get("/a", "1").same_key(&get("/b", "1")));
    assert!(!get("/a", "1").same_key(&Operation::new("/a", HttpMethod::Put, "1")));
    assert!(Schema::new("A", "1").same_key(&Schema::new("A", "2")));
    assert!(!Schema::new("A", "1").same_key(&Schema::new("a", "1")));
    assert_eq!(get("/a", "1").duplicate(), get("/a", "1"));
}
