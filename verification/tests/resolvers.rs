use corkboard::model::{ApiError, Location, LocationInput, Row, Vote, VoteInput};
use corkboard::resolvers::{api_version, create_vote, delete_vote, vote, votes, votes_at};
use corkboard::store::Store;

fn row(id: i32, title: &str, location_name: Option<&str>, date: i64, tags: &[&str]) -> Row {
    Row {
        id,
        title: title.to_string(),
        location_name: location_name.map(|s| s.to_string()),
        lat_bits: 0,
        lng_bits: 0,
        description: String::new(),
        date,
        tags: tags.iter().map(|s| s.to_string()).collect(),
    }
}

fn input(title: &str, date: i64, tags: &[&str]) -> VoteInput {
    VoteInput {
        title: title.to_string(),
        location_name: None,
        lat_bits: 0,
        lng_bits: 0,
        description: String::new(),
        date,
        tags: tags.iter().map(|s| s.to_string()).collect(),
    }
}

fn ids(votes: &[Vote]) -> Vec<i32> {
    votes.iter().map(|v| v.id).collect()
}

#[test]
fn version_is_fixed() {
    assert_eq!(api_version(), "1.0");
}

#[test]
fn absent_location_name_maps_to_absent() {
    let r = row(1, "a", None, 0, &[]);
    let v = Vote::build(r);
    assert!(v.location.name.is_none());
}

#[test]
fn present_location_name_passes_through() {
    let r = row(1, "a", Some("town hall"), 0, &[]);
    let v = Vote::build(r);
    assert_eq!(v.location.name.as_deref(), Some("town hall"));
}

#[test]
fn build_passes_fields_through() {
    let mut r = row(7, "title", Some("name"), 123, &["x", "y"]);
    r.lat_bits = 40.5f64.to_bits();
    r.lng_bits = (-74.25f64).to_bits();
    r.description = "desc".to_string();
    let v = Vote::build(r);
    assert_eq!(v.id, 7);
    assert_eq!(v.title, "title");
    assert_eq!(v.description, "desc");
    assert_eq!(v.date, 123);
    assert_eq!(v.tags, vec!["x".to_string(), "y".to_string()]);
    assert_eq!(f64::from_bits(v.location.point.lat_bits), 40.5);
    assert_eq!(f64::from_bits(v.location.point.lng_bits), -74.25);
}

#[test]
fn location_from_input_passes_fields_through() {
    let l = Location::from_input(LocationInput {
        name: Some("square".to_string()),
        lat_bits: 40.5f64.to_bits(),
        lng_bits: (-74.25f64).to_bits(),
    });
    assert_eq!(l.name.as_deref(), Some("square"));
    assert_eq!(f64::from_bits(l.point.lat_bits), 40.5);
    assert_eq!(f64::from_bits(l.point.lng_bits), -74.25);
    let unnamed = Location::from_input(LocationInput { name: None, lat_bits: 0, lng_bits: 0 });
    assert!(unnamed.name.is_none());
}

#[test]
fn upcoming_excludes_past_and_keeps_boundary() {
    let rows = vec![
        row(1, "past", None, 99, &[]),
        row(2, "boundary", None, 100, &[]),
        row(3, "future", None, 101, &[]),
    ];
    let store = Store::from_rows(rows, 4).unwrap();
    let up = votes_at(&store, 100);
    assert_eq!(ids(&up), vec![2, 3]);
}

#[test]
fn upcoming_keeps_stored_order() {
    let rows = vec![
        row(5, "later", None, 900, &[]),
        row(2, "sooner", None, 300, &[]),
        row(9, "middle", None, 600, &[]),
    ];
    let store = Store::from_rows(rows, 10).unwrap();
    let up = votes_at(&store, 0);
    assert_eq!(ids(&up), vec![5, 2, 9]);
}

#[test]
fn votes_uses_the_clock() {
    // One opportunity in the far future, one in the distant past: whatever
    // instant the clock returns, only the future one is listed.
    let rows = vec![row(1, "past", None, i64::MIN, &[]), row(2, "future", None, i64::MAX, &[])];
    let store = Store::from_rows(rows, 3).unwrap();
    let up = votes(&store);
    assert_eq!(ids(&up), vec![2]);
}

#[test]
fn get_by_id_returns_the_matching_row() {
    let rows = vec![row(1, "a", None, 0, &[]), row(2, "b", None, 0, &[])];
    let store = Store::from_rows(rows, 3).unwrap();
    let v = vote(&store, 2).unwrap();
    assert_eq!(v.title, "b");
}

#[test]
fn get_by_id_missing_is_not_found() {
    let store = Store::new();
    assert_eq!(vote(&store, 42).unwrap_err(), ApiError::NotFound);
}

#[test]
fn delete_missing_is_not_found() {
    let mut store = Store::new();
    assert_eq!(delete_vote(&mut store, 42).unwrap_err(), ApiError::NotFound);
}

#[test]
fn create_assigns_sequential_ids() {
    let mut store = Store::new();
    let a = create_vote(&mut store, input("a", 0, &[])).unwrap();
    let b = create_vote(&mut store, input("b", 0, &[])).unwrap();
    assert_eq!(a.id, 1);
    assert_eq!(b.id, 2);
}

#[test]
fn created_vote_reads_back_with_tags_in_order() {
    let mut store = Store::new();
    let created = create_vote(&mut store, input("drive", 77, &["climate", "local"])).unwrap();
    let read = vote(&store, created.id).unwrap();
    assert_eq!(read.tags, vec!["climate".to_string(), "local".to_string()]);
    assert_eq!(read.title, "drive");
    assert_eq!(read.date, 77);
}

#[test]
fn delete_returns_prior_row_and_removes_it() {
    let rows = vec![row(1, "a", None, 0, &[]), row(2, "b", None, 0, &[])];
    let mut store = Store::from_rows(rows, 3).unwrap();
    let gone = delete_vote(&mut store, 1).unwrap();
    assert_eq!(gone.title, "a");
    assert_eq!(vote(&store, 1).unwrap_err(), ApiError::NotFound);
    assert_eq!(vote(&store, 2).unwrap().title, "b");
}

#[test]
fn delete_twice_is_not_found() {
    let mut store = Store::new();
    let created = create_vote(&mut store, input("once", 0, &[])).unwrap();
    assert!(delete_vote(&mut store, created.id).is_ok());
    assert_eq!(delete_vote(&mut store, created.id).unwrap_err(), ApiError::NotFound);
}

#[test]
fn exhausted_identifier_space_is_a_persistence_error() {
    let mut store = Store::from_rows(Vec::new(), i32::MAX).unwrap();
    assert_eq!(create_vote(&mut store, input("late", 0, &[])).unwrap_err(),
        ApiError::PersistenceError);
}

#[test]
fn from_rows_rejects_duplicate_ids() {
    let rows = vec![row(1, "a", None, 0, &[]), row(1, "b", None, 0, &[])];
    assert!(Store::from_rows(rows, 5).is_none());
}

#[test]
fn from_rows_rejects_ids_at_or_above_next() {
    let rows = vec![row(5, "a", None, 0, &[])];
    assert!(Store::from_rows(rows, 5).is_none());
}
