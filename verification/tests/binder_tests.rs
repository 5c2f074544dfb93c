use stream_core::binder::{
    bind_generate_series_function, bind_unnest_function, type_check, unnested_list_type, BindError,
    BoundExpr, ExprType, TableFunctionType,
};
use stream_core::scalar::DataType;

fn int_value() -> BoundExpr {
    BoundExpr::Value { return_type: DataType::Int32 }
}

fn value_of(t: DataType) -> BoundExpr {
    BoundExpr::Value { return_type: t }
}

fn array_call(element: DataType) -> BoundExpr {
    BoundExpr::FunctionCall {
        expr_type: ExprType::Array,
        return_type: DataType::List(Box::new(element)),
    }
}

#[test]
fn unnest_returns_the_element_type() {
    let bound = bind_unnest_function(vec![array_call(DataType::Int32)]).unwrap();
    assert!(matches!(bound.return_type, DataType::Int32));
    assert!(matches!(bound.function_type, TableFunctionType::Unnest));
    assert_eq!(bound.args.len(), 1);
}

#[test]
fn unnest_unwraps_nested_lists() {
    let nested = DataType::List(Box::new(DataType::List(Box::new(DataType::Varchar))));
    assert!(matches!(unnested_list_type(nested), DataType::Varchar));
}

#[test]
fn unnest_wants_exactly_one_argument() {
    assert_eq!(
        bind_unnest_function(vec![]).unwrap_err(),
        BindError::UnnestArgCount
    );
    assert_eq!(
        bind_unnest_function(vec![array_call(DataType::Int32), array_call(DataType::Int32)])
            .unwrap_err(),
        BindError::UnnestArgCount
    );
}

#[test]
fn unnest_wants_an_array_constructor() {
    let not_array = BoundExpr::FunctionCall {
        expr_type: ExprType::Other,
        return_type: DataType::Int32,
    };
    assert_eq!(
        bind_unnest_function(vec![not_array]).unwrap_err(),
        BindError::UnnestNotArray
    );
}

#[test]
fn generate_series_accepts_integer_bounds() {
    let bound =
        bind_generate_series_function(vec![int_value(), int_value(), int_value()]).unwrap();
    assert!(matches!(bound.return_type, DataType::Int32));
    assert!(matches!(bound.function_type, TableFunctionType::Generate));
}

#[test]
fn generate_series_accepts_timestamp_bounds_with_interval_step() {
    let bound = bind_generate_series_function(vec![
        value_of(DataType::Timestamp),
        value_of(DataType::Timestamp),
        value_of(DataType::Interval),
    ])
    .unwrap();
    assert!(matches!(bound.return_type, DataType::Timestamp));
}

#[test]
fn generate_series_wants_exactly_three_arguments() {
    assert_eq!(
        bind_generate_series_function(vec![int_value(), int_value()]).unwrap_err(),
        BindError::GenerateSeriesArgCount
    );
}

#[test]
fn generate_series_rejects_other_type_mixes() {
    assert_eq!(
        bind_generate_series_function(vec![
            value_of(DataType::Timestamp),
            value_of(DataType::Timestamp),
            value_of(DataType::Int32),
        ])
        .unwrap_err(),
        BindError::GenerateSeriesArgType
    );
    assert_eq!(
        bind_generate_series_function(vec![
            int_value(),
            value_of(DataType::Varchar),
            int_value(),
        ])
        .unwrap_err(),
        BindError::GenerateSeriesArgType
    );
}

#[test]
fn type_check_reads_only_the_first_three() {
    let exprs = vec![int_value(), int_value(), int_value(), value_of(DataType::Varchar)];
    assert!(matches!(type_check(&exprs), Ok(DataType::Int32)));
    let too_few = vec![int_value(), int_value()];
    assert_eq!(type_check(&too_few).unwrap_err(), BindError::GenerateSeriesArgCount);
}
