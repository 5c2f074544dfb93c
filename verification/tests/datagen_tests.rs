use stream_core::datagen::{DatagenEventGenerator, MAX_ROWS_PER_YIELD};

fn check_sequence_partition_result(
    split_num: u64,
    split_index: u64,
    rows_per_second: u64,
    expected_length: usize,
) {
    let split_id = format!("{}-{}", split_num, split_index);
    let generator = DatagenEventGenerator::new(rows_per_second, 0, split_id, split_num, split_index);
    let first_batch = generator.next_batch_size(0);
    assert_eq!(expected_length, first_batch as usize);
}

#[test]
fn test_one_partition_sequence() {
    check_sequence_partition_result(1, 0, 10, 10);
}

#[test]
fn test_two_partition_sequence() {
    check_sequence_partition_result(2, 0, 10, 5);
    check_sequence_partition_result(2, 1, 10, 5);
}

#[test]
fn test_three_partition_sequence() {
    check_sequence_partition_result(3, 0, 10, 4);
    check_sequence_partition_result(3, 1, 10, 3);
    check_sequence_partition_result(3, 2, 10, 3);
}

#[test]
fn shares_sum_to_the_whole_budget() {
    let total: u64 = (0..3)
        .map(|idx| {
            DatagenEventGenerator::new(10, 0, format!("3-{}", idx), 3, idx)
                .partition_rows_per_second
        })
        .sum();
    assert_eq!(total, 10);
}

#[test]
fn batches_are_capped_per_yield() {
    let generator = DatagenEventGenerator::new(5000, 0, "0-0".to_string(), 1, 0);
    assert_eq!(generator.next_batch_size(0), MAX_ROWS_PER_YIELD);
    assert_eq!(generator.next_batch_size(4000), 1000);
    assert_eq!(generator.next_batch_size(5000), 0);
}

#[test]
fn offsets_advance_consecutively() {
    let mut generator = DatagenEventGenerator::new(10, 100, "1-0".to_string(), 1, 0);
    let first = generator.next_offsets(3);
    assert_eq!(first, vec![100, 101, 102]);
    let second = generator.next_offsets(2);
    assert_eq!(second, vec![103, 104]);
    assert_eq!(generator.offset, 105);
}
