use zero_prover::ordering::in_transaction_order;

#[test]
fn results_are_put_in_index_order() {
    let completions = vec![(2usize, "c"), (0, "a"), (3, "d"), (1, "b")];
    assert_eq!(in_transaction_order(completions), Some(vec!["a", "b", "c", "d"]));
}

#[test]
fn completion_order_does_not_matter() {
    let orders: [[usize; 4]; 5] = [[0, 1, 2, 3], [3, 2, 1, 0], [1, 3, 0, 2], [2, 0, 3, 1], [0, 3, 1, 2]];
    for order in orders {
        let completions: Vec<(usize, u64)> = order.iter().map(|&i| (i, 100 + i as u64)).collect();
        assert_eq!(in_transaction_order(completions), Some(vec![100, 101, 102, 103]));
    }
}

#[test]
fn single_result_is_in_order() {
    assert_eq!(in_transaction_order(vec![(0usize, 7u8)]), Some(vec![7u8]));
}

#[test]
fn no_results_give_no_elements() {
    assert_eq!(in_transaction_order(Vec::<(usize, u8)>::new()), Some(Vec::new()));
}

#[test]
fn repeated_index_is_refused() {
    assert_eq!(in_transaction_order(vec![(0usize, 1u8), (0, 2), (1, 3)]), None);
    assert_eq!(in_transaction_order(vec![(1usize, 1u8), (1, 2)]), None);
}

#[test]
fn index_out_of_range_is_refused() {
    assert_eq!(in_transaction_order(vec![(0usize, 1u8), (2, 2)]), None);
    assert_eq!(in_transaction_order(vec![(5usize, 1u8)]), None);
    assert_eq!(in_transaction_order(vec![(usize::MAX, 1u8)]), None);
}
