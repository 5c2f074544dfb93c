use stream_core::array::{ArrayBuilderImpl, Column};
use stream_core::chunk::DataChunk;
use stream_core::scalar::DataType;
use stream_core::string_agg::{AggError, OrderPair, OrderType, StringAgg};

fn keyed_chunk(keys: Vec<Option<i64>>, values: Vec<Option<&str>>) -> DataChunk {
    let n = keys.len();
    assert_eq!(n, values.len());
    let values: Vec<Option<String>> = values.into_iter().map(|v| v.map(|s| s.to_string())).collect();
    DataChunk {
        columns: vec![Column::Int64(keys), Column::Utf8(values)],
        visibility: None,
        cardinality: n,
    }
}

fn asc(column_idx: usize) -> OrderPair {
    OrderPair { column_idx, order_type: OrderType::Ascending }
}

#[test]
fn concatenates_in_ascending_key_order() {
    let chunk = keyed_chunk(
        vec![Some(3), Some(1), Some(2)],
        vec![Some("c"), Some("a"), Some("b")],
    );
    let mut agg = StringAgg::new(1, vec![asc(0)]);
    agg.update_multi(&chunk, 0, 3).unwrap();
    assert_eq!(agg.get_result(), Some("abc".to_string()));
}

#[test]
fn single_updates_interleave_like_batches() {
    let chunk = keyed_chunk(
        vec![Some(3), Some(1), Some(2)],
        vec![Some("c"), Some("a"), Some("b")],
    );
    let mut agg = StringAgg::new(1, vec![asc(0)]);
    agg.update_single(&chunk, 2).unwrap();
    agg.update_single(&chunk, 0).unwrap();
    agg.update_single(&chunk, 1).unwrap();
    assert_eq!(agg.get_result(), Some("abc".to_string()));
}

#[test]
fn descending_order_reverses_the_result() {
    let chunk = keyed_chunk(
        vec![Some(3), Some(1), Some(2)],
        vec![Some("c"), Some("a"), Some("b")],
    );
    let mut agg = StringAgg::new(
        1,
        vec![OrderPair { column_idx: 0, order_type: OrderType::Descending }],
    );
    agg.update_multi(&chunk, 0, 3).unwrap();
    assert_eq!(agg.get_result(), Some("cba".to_string()));
}

#[test]
fn nulls_are_skipped() {
    let chunk = keyed_chunk(
        vec![Some(1), Some(2), Some(3)],
        vec![Some("a"), None, Some("c")],
    );
    let mut agg = StringAgg::new(1, vec![asc(0)]);
    agg.update_multi(&chunk, 0, 3).unwrap();
    assert_eq!(agg.get_result(), Some("ac".to_string()));
}

#[test]
fn all_null_input_yields_null() {
    let chunk = keyed_chunk(vec![Some(1), Some(2)], vec![None, None]);
    let mut agg = StringAgg::new(1, vec![asc(0)]);
    assert_eq!(agg.get_result(), None);
    agg.update_multi(&chunk, 0, 2).unwrap();
    assert_eq!(agg.get_result(), None);
}

#[test]
fn reset_rearms_the_null_default_and_forgets_rows() {
    let chunk = keyed_chunk(vec![Some(2), Some(1)], vec![Some("b"), Some("a")]);
    let mut agg = StringAgg::new(1, vec![asc(0)]);
    agg.update_multi(&chunk, 0, 2).unwrap();
    assert_eq!(agg.get_result_and_reset(), Some("ab".to_string()));
    assert_eq!(agg.get_result(), None);
    agg.update_single(&chunk, 0).unwrap();
    assert_eq!(agg.get_result(), Some("b".to_string()));
}

#[test]
fn output_is_a_pure_snapshot() {
    let chunk = keyed_chunk(vec![Some(1)], vec![Some("x")]);
    let mut agg = StringAgg::new(1, vec![asc(0)]);
    agg.update_single(&chunk, 0).unwrap();
    let mut builder = ArrayBuilderImpl::new(&DataType::Varchar);
    agg.output(&mut builder).unwrap();
    agg.output(&mut builder).unwrap();
    match builder.finish() {
        Column::Utf8(cells) => {
            assert_eq!(cells, vec![Some("x".to_string()), Some("x".to_string())])
        }
        _ => panic!("expected a string column"),
    }
}

#[test]
fn output_and_reset_appends_then_clears() {
    let chunk = keyed_chunk(vec![Some(2), Some(1)], vec![Some("b"), Some("a")]);
    let mut agg = StringAgg::new(1, vec![asc(0)]);
    agg.update_multi(&chunk, 0, 2).unwrap();
    let mut builder = ArrayBuilderImpl::new(&DataType::Varchar);
    agg.output_and_reset(&mut builder).unwrap();
    agg.output_and_reset(&mut builder).unwrap();
    match builder.finish() {
        Column::Utf8(cells) => assert_eq!(cells, vec![Some("ab".to_string()), None]),
        _ => panic!("expected a string column"),
    }
}

#[test]
fn non_string_input_column_is_a_contract_violation() {
    let chunk = keyed_chunk(vec![Some(1)], vec![Some("a")]);
    let mut agg = StringAgg::new(0, vec![asc(0)]);
    assert_eq!(agg.update_single(&chunk, 0), Err(AggError::InputTypeMismatch));
    assert_eq!(agg.update_multi(&chunk, 0, 1), Err(AggError::InputTypeMismatch));
    assert_eq!(agg.get_result(), None);
}

#[test]
fn non_string_builder_is_a_contract_violation() {
    let mut agg = StringAgg::new(1, vec![asc(0)]);
    let mut builder = ArrayBuilderImpl::new(&DataType::Int64);
    assert_eq!(agg.output(&mut builder), Err(AggError::BuilderTypeMismatch));
    assert_eq!(agg.output_and_reset(&mut builder), Err(AggError::BuilderTypeMismatch));
}

#[test]
fn ties_keep_insertion_order_behind_equal_keys() {
    let chunk = keyed_chunk(vec![Some(1), Some(1)], vec![Some("x"), Some("y")]);
    let mut agg = StringAgg::new(1, vec![asc(0)]);
    agg.update_single(&chunk, 0).unwrap();
    agg.update_single(&chunk, 1).unwrap();
    assert_eq!(agg.get_result(), Some("xy".to_string()));
}

#[test]
fn multi_column_keys_break_ties_lexicographically() {
    let keys = vec![Some(1), Some(1), Some(0)];
    let tie_break = vec![Some("z"), Some("a"), Some("m")];
    let n = keys.len();
    let chunk = DataChunk {
        columns: vec![
            Column::Int64(keys),
            Column::Utf8(tie_break.into_iter().map(|v| v.map(|s| s.to_string())).collect()),
        ],
        visibility: None,
        cardinality: n,
    };
    let mut agg = StringAgg::new(1, vec![asc(0), asc(1)]);
    agg.update_multi(&chunk, 0, 3).unwrap();
    assert_eq!(agg.get_result(), Some("maz".to_string()));
}

#[test]
fn update_multi_respects_its_range() {
    let chunk = keyed_chunk(
        vec![Some(4), Some(2), Some(3), Some(1)],
        vec![Some("d"), Some("b"), Some("c"), Some("a")],
    );
    let mut agg = StringAgg::new(1, vec![asc(0)]);
    agg.update_multi(&chunk, 1, 3).unwrap();
    assert_eq!(agg.get_result(), Some("bc".to_string()));
}

#[test]
fn declared_return_type_is_varchar() {
    let agg = StringAgg::new(0, vec![]);
    assert!(matches!(agg.return_type(), DataType::Varchar));
}

#[test]
fn string_keys_sort_lexicographically() {
    let keys = vec![Some("b"), Some("a"), Some("ab")];
    let values = vec![Some("3"), Some("1"), Some("2")];
    let n = keys.len();
    let chunk = DataChunk {
        columns: vec![
            Column::Utf8(keys.into_iter().map(|v| v.map(|s| s.to_string())).collect()),
            Column::Utf8(values.into_iter().map(|v| v.map(|s| s.to_string())).collect()),
        ],
        visibility: None,
        cardinality: n,
    };
    let mut agg = StringAgg::new(1, vec![asc(0)]);
    agg.update_multi(&chunk, 0, 3).unwrap();
    assert_eq!(agg.get_result(), Some("123".to_string()));
}

#[test]
fn null_keys_sort_first() {
    let chunk = DataChunk {
        columns: vec![
            Column::Int64(vec![Some(1), None]),
            Column::Utf8(vec![Some("b".to_string()), Some("a".to_string())]),
        ],
        visibility: None,
        cardinality: 2,
    };
    let mut agg = StringAgg::new(1, vec![asc(0)]);
    agg.update_multi(&chunk, 0, 2).unwrap();
    assert_eq!(agg.get_result(), Some("ab".to_string()));
}
