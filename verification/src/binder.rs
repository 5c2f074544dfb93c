//! Binding rules for the table functions the frontend accepts: argument
//! counts and argument types for `unnest` and `generate_series`. Name
//! resolution and expression binding live outside the verified core; these
//! kernels decide over already-bound argument types.

use vstd::prelude::*;

use crate::scalar::DataType;

verus! {

/// The shape of a bound argument expression, as far as these rules read it:
/// a function call with its dispatch tag and result type, or any other bound
/// expression with its result type.
#[derive(Debug)]
pub enum BoundExpr {
    FunctionCall { expr_type: ExprType, return_type: DataType },
    Value { return_type: DataType },
}

/// The function-call dispatch tags these rules distinguish.
#[derive(Clone, Copy, PartialEq, Eq, Structural, Debug)]
pub enum ExprType {
    Array,
    Other,
}

/// Which table function a bound call runs.
#[derive(Clone, Copy, PartialEq, Eq, Structural, Debug)]
pub enum TableFunctionType {
    Unnest,
    Generate,
}

/// A bound table-function call: its arguments, its element type, and which
/// function runs it.
#[derive(Debug)]
pub struct BoundTableFunction {
    pub args: Vec<BoundExpr>,
    pub return_type: DataType,
    pub function_type: TableFunctionType,
}

/// Why binding a table function failed.
#[derive(Clone, Copy, PartialEq, Eq, Structural, Debug)]
pub enum BindError {
    UnnestArgCount,
    UnnestNotArray,
    GenerateSeriesArgCount,
    GenerateSeriesArgType,
}

impl BoundExpr {
    pub open spec fn return_type_spec(&self) -> DataType {
        match self {
            BoundExpr::FunctionCall { return_type, .. } => *return_type,
            BoundExpr::Value { return_type } => *return_type,
        }
    }

    pub fn return_type(&self) -> (t: &DataType)
        ensures
            *t == self.return_type_spec(),
    {
        match self {
            BoundExpr::FunctionCall { return_type, .. } => return_type,
            BoundExpr::Value { return_type } => return_type,
        }
    }
}

/// The element type a nested list type unnests to.
pub open spec fn unnested_list_type_spec(t: DataType) -> DataType
    decreases t,
{
    match t {
        DataType::List(inner) => unnested_list_type_spec(*inner),
        other => other,
    }
}

/// Unwraps nested list types down to their element type.
pub fn unnested_list_type(t: DataType) -> (r: DataType)
    ensures
        r == unnested_list_type_spec(t),
    decreases t,
{
    match t {
        DataType::List(inner) => unnested_list_type(*inner),
        other => other,
    }
}

/// Binds `unnest ( Array[...] )`: exactly one argument, which must be an
/// array constructor; the result rows have the array's element type.
/// (A non-call argument is outside these rules' contract, as in the
/// surrounding binder.)
pub fn bind_unnest_function(args: Vec<BoundExpr>) -> (r: Result<BoundTableFunction, BindError>)
    requires
        args@.len() == 1 ==> args@[0] is FunctionCall,
        args@.len() == 1 ==> match args@[0] {
            BoundExpr::FunctionCall { expr_type: ExprType::Array, return_type } => return_type
                is List,
            _ => true,
        },
    ensures
        match r {
            Ok(bound) => {
                &&& args@.len() == 1
                &&& args@[0] matches BoundExpr::FunctionCall { expr_type: ExprType::Array, .. }
                &&& bound.args@ == args@
                &&& bound.return_type == unnested_list_type_spec(args@[0].return_type_spec())
                &&& bound.function_type == TableFunctionType::Unnest
            },
            Err(e) => {
                &&& if args@.len() != 1 {
                    e == BindError::UnnestArgCount
                } else {
                    !(args@[0] matches BoundExpr::FunctionCall {
                        expr_type: ExprType::Array,
                        ..
                    }) && e == BindError::UnnestNotArray
                }
            },
        },
{
    if args.len() != 1 {
        return Err(BindError::UnnestArgCount);
    }
    match &args[0] {
        BoundExpr::FunctionCall { expr_type: ExprType::Array, return_type } => {
            let data_type = unnested_list_type(return_type.clone());
            Ok(
                BoundTableFunction {
                    return_type: data_type,
                    args,
                    function_type: TableFunctionType::Unnest,
                },
            )
        },
        _ => Err(BindError::UnnestNotArray),
    }
}

/// The result type the `generate_series` argument types allow: three 32-bit
/// integers yield integers; timestamp bounds with an interval step yield
/// timestamps; anything else is rejected.
pub open spec fn generate_series_type(start: DataType, stop: DataType, step: DataType) -> Option<
    DataType,
> {
    match (start, stop, step) {
        (DataType::Int32, DataType::Int32, DataType::Int32) => Some(DataType::Int32),
        (DataType::Timestamp, DataType::Timestamp, DataType::Interval) => Some(DataType::Timestamp),
        _ => None,
    }
}

/// Checks the three argument types of `generate_series`; extra bound
/// expressions beyond the first three are ignored.
pub fn type_check(exprs: &Vec<BoundExpr>) -> (r: Result<DataType, BindError>)
    ensures
        match r {
            Ok(t) => exprs@.len() >= 3 && generate_series_type(
                exprs@[0].return_type_spec(),
                exprs@[1].return_type_spec(),
                exprs@[2].return_type_spec(),
            ) == Some(t),
            Err(e) => {
                &&& if exprs@.len() < 3 {
                    e == BindError::GenerateSeriesArgCount
                } else {
                    generate_series_type(
                        exprs@[0].return_type_spec(),
                        exprs@[1].return_type_spec(),
                        exprs@[2].return_type_spec(),
                    ) is None && e == BindError::GenerateSeriesArgType
                }
            },
        },
{
    if exprs.len() < 3 {
        return Err(BindError::GenerateSeriesArgCount);
    }
    let start = exprs[0].return_type();
    let stop = exprs[1].return_type();
    let step = exprs[2].return_type();
    match (start, stop, step) {
        (DataType::Int32, DataType::Int32, DataType::Int32) => Ok(DataType::Int32),
        (DataType::Timestamp, DataType::Timestamp, DataType::Interval) => Ok(DataType::Timestamp),
        _ => Err(BindError::GenerateSeriesArgType),
    }
}

/// Binds `generate_series ( start, stop, step )`: exactly three arguments
/// whose types `type_check` accepts; the result rows have the checked type.
pub fn bind_generate_series_function(args: Vec<BoundExpr>) -> (r: Result<
    BoundTableFunction,
    BindError,
>)
    ensures
        match r {
            Ok(bound) => {
                &&& args@.len() == 3
                &&& generate_series_type(
                    args@[0].return_type_spec(),
                    args@[1].return_type_spec(),
                    args@[2].return_type_spec(),
                ) == Some(bound.return_type)
                &&& bound.args@ == args@
                &&& bound.function_type == TableFunctionType::Generate
            },
            Err(e) => {
                &&& if args@.len() != 3 {
                    e == BindError::GenerateSeriesArgCount
                } else {
                    generate_series_type(
                        args@[0].return_type_spec(),
                        args@[1].return_type_spec(),
                        args@[2].return_type_spec(),
                    ) is None && e == BindError::GenerateSeriesArgType
                }
            },
        },
{
    if args.len() != 3 {
        return Err(BindError::GenerateSeriesArgCount);
    }
    let data_type = match type_check(&args) {
        Ok(t) => t,
        Err(e) => {
            return Err(e);
        },
    };
    Ok(
        BoundTableFunction {
            return_type: data_type,
            args,
            function_type: TableFunctionType::Generate,
        },
    )
}

} // verus!
