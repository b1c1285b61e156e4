use caverr::file::assemble::assemble;

#[test]
fn outputs_take_the_place_of_what_the_target_held() {
    let mut target = vec![9u8, 9, 9];
    let outcomes: Vec<Result<Vec<u8>, String>> = vec![Ok(vec![1, 2]), Ok(vec![]), Ok(vec![3])];
    assert_eq!(assemble(outcomes, &mut target), Ok(()));
    assert_eq!(target, vec![1, 2, 3]);
}

#[test]
fn no_blocks_make_an_empty_target() {
    let mut target = vec![9u8];
    let outcomes: Vec<Result<Vec<u8>, String>> = Vec::new();
    assert_eq!(assemble(outcomes, &mut target), Ok(()));
    assert!(target.is_empty());
}

#[test]
fn failure_of_block_two_of_four_leaves_the_target_alone() {
    let mut target = vec![7u8, 7];
    let outcomes: Vec<Result<Vec<u8>, String>> = vec![
        Ok(vec![1]),
        Ok(vec![2]),
        Err("block 2".to_string()),
        Ok(vec![4]),
    ];
    assert_eq!(assemble(outcomes, &mut target), Err("block 2".to_string()));
    assert_eq!(target, vec![7u8, 7]);
}

#[test]
fn first_of_two_failures_is_the_answer() {
    let mut target = Vec::new();
    let outcomes: Vec<Result<Vec<u8>, u32>> = vec![Err(10), Ok(vec![1]), Err(30)];
    assert_eq!(assemble(outcomes, &mut target), Err(10));
    assert!(target.is_empty());
}
