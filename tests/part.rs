use rsp2::part::{BadPart, Part};

#[test]
fn partition_splits_by_index_lists() {
    let part = Part::new(5, vec!['a', 'b'], vec![vec![3, 0], vec![4, 1, 2]]).unwrap();
    assert_eq!(part.num_parts(), 2);
    let data = vec![10, 11, 12, 13, 14];
    assert_eq!(part.partition(&data), vec![vec![13, 10], vec![14, 11, 12]]);
}

#[test]
fn bad_partitions_are_refused() {
    assert!(matches!(Part::new(3, vec![0, 1], vec![vec![0, 1], vec![1, 2]]), Err(BadPart)));
    assert!(matches!(Part::new(3, vec![0], vec![vec![0, 1]]), Err(BadPart)));
    assert!(matches!(Part::new(2, vec![0], vec![vec![0, 2]]), Err(BadPart)));
    assert!(matches!(Part::new(2, vec![0, 1], vec![vec![0, 1]]), Err(BadPart)));
    assert!(Part::new(0, Vec::<u8>::new(), vec![]).is_ok());
}
