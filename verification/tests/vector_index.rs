use schema_pilot::index::{ScoredRow, StorageError, VectorIndexHandle};
use schema_pilot::prompt::TableContent;

fn handle(dimension: usize) -> VectorIndexHandle {
    VectorIndexHandle::create_or_open("retail_dm".to_string(), None, dimension)
        .expect("a new collection is created")
}

fn scored(rows: &[(&str, i64)]) -> Vec<ScoredRow> {
    rows.iter()
        .map(|(content, similarity)| ScoredRow {
            row: TableContent { content: content.to_string() },
            similarity: *similarity,
        })
        .collect()
}

fn contents(rows: &[TableContent]) -> Vec<&str> {
    rows.iter().map(|row| row.content.as_str()).collect()
}

#[test]
fn find_similar_orders_by_similarity() {
    let rows = scored(&[("a", 10), ("b", 40), ("c", -5), ("d", 30), ("e", 20)]);
    let found = handle(384).find_similar(384, &rows, 3).unwrap();
    assert_eq!(contents(&found), vec!["b", "d", "e"]);
}

#[test]
fn find_similar_returns_all_rows_when_fewer_than_k() {
    let rows = scored(&[("a", 1), ("b", 3), ("c", 2)]);
    let found = handle(384).find_similar(384, &rows, 20).unwrap();
    assert_eq!(contents(&found), vec!["b", "c", "a"]);
}

#[test]
fn find_similar_of_an_empty_collection_is_empty() {
    let found = handle(384).find_similar(384, &Vec::new(), 20).unwrap();
    assert!(found.is_empty());
}

#[test]
fn find_similar_with_k_zero_is_empty() {
    let rows = scored(&[("a", 1), ("b", 3)]);
    let found = handle(4).find_similar(4, &rows, 0).unwrap();
    assert!(found.is_empty());
}

#[test]
fn find_similar_breaks_ties_by_insertion_order() {
    let rows = scored(&[("first", 7), ("second", 9), ("third", 7), ("fourth", 9), ("fifth", 7)]);
    let found = handle(2).find_similar(2, &rows, 4).unwrap();
    assert_eq!(contents(&found), vec!["second", "fourth", "first", "third"]);
    let all = handle(2).find_similar(2, &rows, 5).unwrap();
    assert_eq!(contents(&all), vec!["second", "fourth", "first", "third", "fifth"]);
}

#[test]
fn find_similar_of_equal_rows_keeps_insertion_order() {
    let rows = scored(&[("a", 0), ("b", 0), ("c", 0), ("d", 0)]);
    let found = handle(2).find_similar(2, &rows, 2).unwrap();
    assert_eq!(contents(&found), vec!["a", "b"]);
}

#[test]
fn find_similar_handles_the_extremes() {
    let rows = scored(&[("low", i64::MIN), ("high", i64::MAX), ("mid", 0)]);
    let found = handle(2).find_similar(2, &rows, 3).unwrap();
    assert_eq!(contents(&found), vec!["high", "mid", "low"]);
}

#[test]
fn find_similar_never_returns_more_than_k_or_more_than_there_are() {
    let rows = scored(&[("a", 5), ("b", 4), ("c", 3), ("d", 2), ("e", 1)]);
    for k in 0..8usize {
        let found = handle(8).find_similar(8, &rows, k).unwrap();
        assert_eq!(found.len(), k.min(rows.len()));
        assert_eq!(contents(&found), vec!["a", "b", "c", "d", "e"][..found.len()].to_vec());
    }
}

#[test]
fn find_similar_gives_the_same_result_twice() {
    let rows = scored(&[("a", 3), ("b", 3), ("c", 8), ("d", 1), ("e", 8), ("f", 2)]);
    let index = handle(384);
    let once = index.find_similar(384, &rows, 4).unwrap();
    let again = index.find_similar(384, &rows, 4).unwrap();
    assert_eq!(contents(&once), contents(&again));
    assert_eq!(contents(&once), vec!["c", "e", "a", "b"]);
}

#[test]
fn find_similar_rejects_another_dimension() {
    let rows = scored(&[("a", 3)]);
    match handle(384).find_similar(10, &rows, 20) {
        Err(StorageError::DimensionMismatch { expected, found }) => {
            assert_eq!(expected, 384);
            assert_eq!(found, 10);
        }
        other => panic!("{:?}", other),
    }
}

#[test]
fn create_or_open_creates_and_opens() {
    let created = VectorIndexHandle::create_or_open("t".to_string(), None, 384).unwrap();
    assert_eq!(created.collection, "t");
    assert_eq!(created.dimension, 384);
    let opened = VectorIndexHandle::create_or_open("t".to_string(), Some(384), 384).unwrap();
    assert_eq!(opened.dimension, 384);
}

#[test]
fn create_or_open_rejects_another_dimension() {
    match VectorIndexHandle::create_or_open("t".to_string(), Some(256), 384) {
        Err(StorageError::DimensionMismatch { expected, found }) => {
            assert_eq!(expected, 256);
            assert_eq!(found, 384);
        }
        other => panic!("{:?}", other),
    }
}

#[test]
fn storage_errors_describe_themselves() {
    assert_eq!(
        StorageError::Unavailable("no such directory".to_string()).describe(),
        "vector index unavailable: no such directory"
    );
    assert_eq!(
        StorageError::DimensionMismatch { expected: 384, found: 10 }.describe(),
        "vector index expects dimension 384, got 10"
    );
}
