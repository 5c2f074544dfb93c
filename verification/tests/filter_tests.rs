use stream_core::array::Column;
use stream_core::chunk::{Op, StreamChunk};
use stream_core::message::{Barrier, Message};
use stream_core::operator::{BoolColumnExpr, StreamError, StreamOperator, VecOutput};
use stream_core::filter::FilterOperator;

fn bool_chunk(ops: Vec<Op>, preds: Vec<Option<bool>>) -> StreamChunk {
    let n = ops.len();
    assert_eq!(n, preds.len());
    StreamChunk {
        ops,
        columns: vec![Column::Bool(preds)],
        visibility: None,
        cardinality: n,
    }
}

fn run_filter(ops: Vec<Op>, preds: Vec<Option<bool>>) -> StreamChunk {
    let mut op = FilterOperator::new(VecOutput::new(), BoolColumnExpr { column: 0 });
    let chunk = bool_chunk(ops, preds);
    assert!(chunk.well_formed());
    op.consume_chunk(chunk).expect("filter step should succeed");
    assert_eq!(op.output.messages.len(), 1);
    match op.output.messages.pop().unwrap() {
        Message::Chunk(c) => c,
        Message::Barrier(_) => panic!("expected a chunk"),
    }
}

#[test]
fn pass_to_fail_update_becomes_delete() {
    let out = run_filter(
        vec![Op::UpdateDelete, Op::UpdateInsert],
        vec![Some(true), Some(false)],
    );
    assert_eq!(out.ops, vec![Op::Delete, Op::UpdateInsert]);
    assert_eq!(out.visibility, Some(vec![true, false]));
    assert_eq!(out.cardinality, 1);
}

#[test]
fn plain_insert_delete_pass_through() {
    let out = run_filter(vec![Op::Insert, Op::Delete], vec![Some(true), Some(false)]);
    assert_eq!(out.ops, vec![Op::Insert, Op::Delete]);
    assert_eq!(out.visibility, Some(vec![true, false]));
    assert_eq!(out.cardinality, 1);
}

#[test]
fn update_truth_table_all_cases() {
    let cases = [
        (true, false, vec![Op::Delete, Op::UpdateInsert], vec![true, false], 1),
        (false, true, vec![Op::UpdateDelete, Op::Insert], vec![false, true], 1),
        (true, true, vec![Op::UpdateDelete, Op::UpdateInsert], vec![true, true], 2),
        (false, false, vec![Op::Insert, Op::Insert], vec![false, false], 0),
    ];
    for (a, b, ops, vis, card) in cases {
        let out = run_filter(
            vec![Op::UpdateDelete, Op::UpdateInsert],
            vec![Some(a), Some(b)],
        );
        assert_eq!(out.ops, ops);
        assert_eq!(out.visibility, Some(vis));
        assert_eq!(out.cardinality, card);
    }
}

#[test]
fn null_predicate_means_excluded() {
    let out = run_filter(vec![Op::Insert, Op::Insert], vec![None, Some(true)]);
    assert_eq!(out.ops, vec![Op::Insert, Op::Insert]);
    assert_eq!(out.visibility, Some(vec![false, true]));
    assert_eq!(out.cardinality, 1);
}

#[test]
fn output_alignment_holds() {
    let out = run_filter(
        vec![Op::Insert, Op::UpdateDelete, Op::UpdateInsert, Op::Delete],
        vec![Some(false), Some(true), Some(true), Some(true)],
    );
    let vis = out.visibility.clone().expect("filtered chunks carry a bitmap");
    assert_eq!(out.ops.len(), 4);
    assert_eq!(vis.len(), 4);
    for col in &out.columns {
        assert_eq!(col.len(), 4);
    }
    let set_bits = vis.iter().filter(|b| **b).count();
    assert_eq!(out.cardinality, set_bits);
    assert_eq!(out.cardinality, 3);
}

#[test]
fn second_pass_is_a_no_op_for_inserts_and_deletes() {
    let ops = vec![Op::Insert, Op::Delete, Op::Insert];
    let preds = vec![Some(true), Some(false), Some(false)];
    let first = run_filter(ops.clone(), preds.clone());
    let second = run_filter(first.ops.clone(), preds);
    assert_eq!(second.ops, first.ops);
    assert_eq!(second.visibility, first.visibility);
    assert_eq!(second.cardinality, first.cardinality);
}

#[test]
fn malformed_pairing_is_rejected() {
    let mut op = FilterOperator::new(VecOutput::new(), BoolColumnExpr { column: 0 });
    let chunk = bool_chunk(vec![Op::UpdateDelete, Op::Insert], vec![Some(true), Some(true)]);
    let err = op.consume_chunk(chunk).unwrap_err();
    assert_eq!(err, StreamError::MalformedChunk);
    assert!(op.output.messages.is_empty());
}

#[test]
fn evaluation_failure_drops_the_chunk() {
    let mut op = FilterOperator::new(VecOutput::new(), BoolColumnExpr { column: 7 });
    let chunk = bool_chunk(vec![Op::Insert], vec![Some(true)]);
    let err = op.consume_chunk(chunk).unwrap_err();
    assert_eq!(err, StreamError::Eval);
    assert!(op.output.messages.is_empty());
}

#[test]
fn predicate_length_divergence_is_fatal() {
    let mut op = FilterOperator::new(VecOutput::new(), BoolColumnExpr { column: 0 });
    let chunk = StreamChunk {
        ops: vec![Op::Insert, Op::Insert],
        columns: vec![Column::Bool(vec![Some(true), Some(true)])],
        visibility: Some(vec![true, false]),
        cardinality: 1,
    };
    assert!(chunk.well_formed());
    let err = op.consume_chunk(chunk).unwrap_err();
    assert_eq!(err, StreamError::LengthMismatch);
    assert!(op.output.messages.is_empty());
}

#[test]
fn barriers_flow_through_unchanged_and_in_order() {
    let mut op = FilterOperator::new(VecOutput::new(), BoolColumnExpr { column: 0 });
    op.consume_message(Message::Chunk(bool_chunk(vec![Op::Insert], vec![Some(true)])))
        .unwrap();
    op.consume_message(Message::Barrier(Barrier { epoch: 7 })).unwrap();
    op.consume_message(Message::Chunk(bool_chunk(vec![Op::Delete], vec![Some(false)])))
        .unwrap();
    assert_eq!(op.output.messages.len(), 3);
    assert!(matches!(op.output.messages[0], Message::Chunk(_)));
    match &op.output.messages[1] {
        Message::Barrier(b) => assert_eq!(b.epoch, 7),
        Message::Chunk(_) => panic!("barrier was not forwarded in order"),
    }
    assert!(matches!(op.output.messages[2], Message::Chunk(_)));
}

#[test]
fn columns_pass_through_unfiltered() {
    let mut op = FilterOperator::new(VecOutput::new(), BoolColumnExpr { column: 0 });
    let chunk = StreamChunk {
        ops: vec![Op::Insert, Op::Insert],
        columns: vec![
            Column::Bool(vec![Some(true), Some(false)]),
            Column::Int64(vec![Some(10), Some(20)]),
        ],
        visibility: None,
        cardinality: 2,
    };
    op.consume_chunk(chunk).unwrap();
    match &op.output.messages[0] {
        Message::Chunk(c) => match &c.columns[1] {
            Column::Int64(v) => assert_eq!(v, &vec![Some(10), Some(20)]),
            _ => panic!("data column kind changed"),
        },
        Message::Barrier(_) => panic!("expected a chunk"),
    }
}
