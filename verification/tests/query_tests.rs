use stream_core::query::{
    is_dml, needs_row_count, parse_affected_rows, parse_i32_ascii, resolve_query_mode,
    should_implicit_flush, to_statement_type, Format, QueryError, QueryMode, Statement,
    StatementType,
};

#[test]
fn statements_classify_exactly() {
    assert_eq!(to_statement_type(&Statement::Query), Ok(StatementType::Select));
    assert_eq!(
        to_statement_type(&Statement::Insert { has_returning: false }),
        Ok(StatementType::Insert)
    );
    assert_eq!(
        to_statement_type(&Statement::Insert { has_returning: true }),
        Ok(StatementType::InsertReturning)
    );
    assert_eq!(
        to_statement_type(&Statement::Delete { has_returning: false }),
        Ok(StatementType::Delete)
    );
    assert_eq!(
        to_statement_type(&Statement::Update { has_returning: true }),
        Ok(StatementType::UpdateReturning)
    );
    assert_eq!(
        to_statement_type(&Statement::Other),
        Err(QueryError::UnsupportedStatement)
    );
}

#[test]
fn query_mode_resolution_table() {
    assert_eq!(
        resolve_query_mode(true, true, QueryMode::Local),
        Err(QueryError::ConflictingQueryMode)
    );
    assert_eq!(
        resolve_query_mode(true, false, QueryMode::Local),
        Ok(QueryMode::Distributed)
    );
    assert_eq!(
        resolve_query_mode(false, true, QueryMode::Distributed),
        Ok(QueryMode::Local)
    );
    assert_eq!(
        resolve_query_mode(false, false, QueryMode::Distributed),
        Ok(QueryMode::Distributed)
    );
}

#[test]
fn row_count_and_dml_flags() {
    assert!(is_dml(&StatementType::Insert));
    assert!(is_dml(&StatementType::UpdateReturning));
    assert!(!is_dml(&StatementType::Select));
    assert!(needs_row_count(&StatementType::Delete));
    assert!(!needs_row_count(&StatementType::Select));
    assert!(!needs_row_count(&StatementType::InsertReturning));
    assert!(should_implicit_flush(true, &StatementType::Update));
    assert!(!should_implicit_flush(true, &StatementType::Select));
    assert!(!should_implicit_flush(false, &StatementType::Update));
}

#[test]
fn binary_affected_rows_is_big_endian_int8() {
    let raw = vec![0, 0, 0, 0, 0, 0, 0, 42];
    assert_eq!(parse_affected_rows(Format::Binary, &raw), Ok(42));
    let raw = vec![0, 0, 0, 0, 0, 1, 0, 0];
    assert_eq!(parse_affected_rows(Format::Binary, &raw), Ok(65536));
    let raw = vec![0xFF; 8];
    assert_eq!(parse_affected_rows(Format::Binary, &raw), Ok(-1));
}

#[test]
fn binary_affected_rows_rejects_bad_buffers() {
    assert_eq!(
        parse_affected_rows(Format::Binary, &vec![0, 42]),
        Err(QueryError::BadAffectedRows)
    );
    assert_eq!(
        parse_affected_rows(Format::Binary, &vec![]),
        Err(QueryError::BadAffectedRows)
    );
    // Larger than any 32-bit count.
    let raw = vec![0, 0, 0, 1, 0, 0, 0, 0];
    assert_eq!(
        parse_affected_rows(Format::Binary, &raw),
        Err(QueryError::BadAffectedRows)
    );
}

#[test]
fn text_affected_rows_parses_decimal() {
    assert_eq!(parse_affected_rows(Format::Text, &b"123".to_vec()), Ok(123));
    assert_eq!(parse_affected_rows(Format::Text, &b"-45".to_vec()), Ok(-45));
    assert_eq!(parse_affected_rows(Format::Text, &b"+7".to_vec()), Ok(7));
}

#[test]
fn malformed_text_counts_as_zero() {
    assert_eq!(parse_affected_rows(Format::Text, &b"".to_vec()), Ok(0));
    assert_eq!(parse_affected_rows(Format::Text, &b"abc".to_vec()), Ok(0));
    assert_eq!(parse_affected_rows(Format::Text, &b"12x".to_vec()), Ok(0));
    assert_eq!(parse_affected_rows(Format::Text, &b"99999999999".to_vec()), Ok(0));
}

#[test]
fn i32_parsing_matches_the_standard_grammar() {
    assert_eq!(parse_i32_ascii(&b"0".to_vec()), Some(0));
    assert_eq!(parse_i32_ascii(&b"007".to_vec()), Some(7));
    assert_eq!(parse_i32_ascii(&b"2147483647".to_vec()), Some(i32::MAX));
    assert_eq!(parse_i32_ascii(&b"2147483648".to_vec()), None);
    assert_eq!(parse_i32_ascii(&b"-2147483648".to_vec()), Some(i32::MIN));
    assert_eq!(parse_i32_ascii(&b"-2147483649".to_vec()), None);
    assert_eq!(parse_i32_ascii(&b"+".to_vec()), None);
    assert_eq!(parse_i32_ascii(&b"-".to_vec()), None);
    assert_eq!(parse_i32_ascii(&b" 1".to_vec()), None);
    assert_eq!(parse_i32_ascii(&b"1 ".to_vec()), None);
}
