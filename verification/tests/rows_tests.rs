use word_book::rows::{collect_rows, first_row, index_by_key};
use word_book::words::Definition;

fn def(id: i64) -> Definition {
    Definition {
        id,
        word_id: 7,
        part_of_speech: "noun".to_string(),
        meaning: format!("meaning {}", id),
        source: "jmdict".to_string(),
    }
}

#[test]
fn all_rows_are_gathered_in_order() {
    let rows: Vec<Result<Definition, String>> = vec![Ok(def(1)), Ok(def(2)), Ok(def(3))];
    assert_eq!(collect_rows(rows), Ok(vec![def(1), def(2), def(3)]));
}

#[test]
fn no_rows_gather_to_nothing() {
    let rows: Vec<Result<Definition, String>> = Vec::new();
    assert_eq!(collect_rows(rows), Ok(Vec::new()));
}

#[test]
fn the_first_error_is_returned() {
    let rows: Vec<Result<Definition, String>> =
        vec![Ok(def(1)), Err("bad column".to_string()), Err("later".to_string()), Ok(def(4))];
    assert_eq!(collect_rows(rows), Err("Row error: bad column".to_string()));
}

#[test]
fn the_first_row_is_read() {
    assert_eq!(first_row::<i64>(None), Ok(None));
    assert_eq!(first_row(Some(Ok::<i64, String>(5))), Ok(Some(5)));
    assert_eq!(first_row::<i64>(Some(Err("x".to_string()))), Err("Row error: x".to_string()));
}

#[test]
fn keyed_rows_keep_the_last_row_of_a_key() {
    let m = index_by_key(vec![(1, "a"), (2, "b"), (1, "c")]);
    assert_eq!(m.len(), 2);
    assert_eq!(m.get(&1), Some(&"c"));
    assert_eq!(m.get(&2), Some(&"b"));
    assert_eq!(m.get(&3), None);
}
