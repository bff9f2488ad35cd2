use common_grpc::record_batch::{ColumnKey, MappingError, PyRecordBatch};

fn batch() -> PyRecordBatch<Vec<i64>> {
    PyRecordBatch::new(
        vec![
            ("host".to_string(), vec![1, 2, 3]),
            ("cpu".to_string(), vec![10, 20, 30]),
            ("host".to_string(), vec![7, 8, 9]),
        ],
        3,
    )
}

#[test]
fn length_is_the_row_count() {
    let b = batch();
    assert_eq!(b.len(), 3);
    assert_eq!(b.num_columns(), 3);
    let empty: PyRecordBatch<Vec<i64>> = PyRecordBatch::new(vec![], 0);
    assert_eq!(empty.len(), 0);
}

#[test]
fn lookup_by_position() {
    let b = batch();
    assert_eq!(b.get_item(&ColumnKey::Index(1)), Ok(&vec![10, 20, 30]));
    assert_eq!(b.get_item(&ColumnKey::Index(2)), Ok(&vec![7, 8, 9]));
}

#[test]
fn lookup_by_name_takes_the_first_match() {
    let b = batch();
    assert_eq!(b.get_item(&ColumnKey::Name("cpu".to_string())), Ok(&vec![10, 20, 30]));
    assert_eq!(b.get_item(&ColumnKey::Name("host".to_string())), Ok(&vec![1, 2, 3]));
}

#[test]
fn unknown_name_is_key_not_found() {
    let b = batch();
    assert_eq!(
        b.get_item(&ColumnKey::Name("mem".to_string())),
        Err(MappingError::KeyNotFound { key: "mem".to_string() })
    );
}

#[test]
fn key_of_another_kind_is_a_type_mismatch() {
    let b = batch();
    assert_eq!(
        b.get_item(&ColumnKey::Other("1.5".to_string())),
        Err(MappingError::TypeMismatch { found: "1.5".to_string() })
    );
}

#[test]
fn position_past_the_end_is_refused() {
    let b = batch();
    assert_eq!(
        b.get_item(&ColumnKey::Index(3)),
        Err(MappingError::IndexOutOfRange { index: 3 })
    );
}

#[test]
fn iteration_yields_columns_in_order() {
    let b = batch();
    let cols = b.column_values();
    assert_eq!(cols, vec![&vec![1, 2, 3], &vec![10, 20, 30], &vec![7, 8, 9]]);
}
