use caverr::file::blocks::chunks_of;
use caverr::file::parallel_file::ParallelFile;

#[test]
fn new_file_starts_at_block_zero() {
    let file = ParallelFile::new(4);
    assert_eq!(file.next_id(), 0);
    assert_eq!(file.buffer(), Some(vec![0u8; 4]));
}

#[test]
fn full_read_gives_a_full_block() {
    let mut file = ParallelFile::new(4);
    let read: Result<usize, String> = Ok(4);
    let chunk = file.next(vec![1, 2, 3, 4], read).expect("a block").expect("no failure");
    assert_eq!(chunk.id, 0);
    assert_eq!(chunk.data, vec![1, 2, 3, 4]);
    assert_eq!(file.next_id(), 1);
}

#[test]
fn short_read_gives_a_short_block_and_is_no_end() {
    let mut file = ParallelFile::new(4);
    let read: Result<usize, String> = Ok(1);
    let chunk = file.next(vec![9, 0, 0, 0], read).expect("a block").expect("no failure");
    assert_eq!(chunk.id, 0);
    assert_eq!(chunk.data, vec![9]);
    let read: Result<usize, String> = Ok(3);
    let chunk = file.next(vec![5, 6, 7, 0], read).expect("a block").expect("no failure");
    assert_eq!(chunk.id, 1);
    assert_eq!(chunk.data, vec![5, 6, 7]);
    assert!(file.buffer().is_some());
}

#[test]
fn read_of_no_bytes_is_the_end() {
    let mut file = ParallelFile::new(4);
    let read: Result<usize, String> = Ok(0);
    assert!(file.next(vec![0; 4], read).is_none());
    assert_eq!(file.next_id(), 1);
    assert!(file.buffer().is_some());
}

#[test]
fn read_longer_than_the_buffer_gives_the_buffer() {
    let mut file = ParallelFile::new(2);
    let read: Result<usize, String> = Ok(5);
    let chunk = file.next(vec![1, 2], read).expect("a block").expect("no failure");
    assert_eq!(chunk.data, vec![1, 2]);
}

#[test]
fn failure_is_handed_on_once_and_then_the_end_forever() {
    let mut file = ParallelFile::new(4);
    let read: Result<usize, String> = Ok(4);
    assert!(file.next(vec![1; 4], read).is_some());
    let failed = file.next(vec![0; 4], Err("bad sector".to_string()));
    match failed {
        Some(Err(text)) => assert_eq!(text, "bad sector"),
        _ => panic!("the failure is lost"),
    }
    assert_eq!(file.next_id(), 2);
    assert!(file.buffer().is_none());
    let read: Result<usize, String> = Ok(4);
    assert!(file.next(vec![2; 4], read).is_none());
    let read: Result<usize, String> = Ok(4);
    assert!(file.next(vec![3; 4], read).is_none());
    assert_eq!(file.next_id(), 2);
    assert!(file.buffer().is_none());
}

#[test]
fn file_is_cut_into_full_blocks_and_a_rest() {
    let source: Vec<u8> = (0..10u8).collect();
    let chunks = chunks_of(&source, 4);
    assert_eq!(chunks.len(), 3);
    assert_eq!(chunks[0].id, 0);
    assert_eq!(chunks[0].data, vec![0, 1, 2, 3]);
    assert_eq!(chunks[1].id, 1);
    assert_eq!(chunks[1].data, vec![4, 5, 6, 7]);
    assert_eq!(chunks[2].id, 2);
    assert_eq!(chunks[2].data, vec![8, 9]);
}

#[test]
fn file_of_full_blocks_has_no_rest() {
    let source = vec![7u8; 12];
    let chunks = chunks_of(&source, 4);
    assert_eq!(chunks.len(), 3);
    for (i, chunk) in chunks.iter().enumerate() {
        assert_eq!(chunk.id, i as u64);
        assert_eq!(chunk.data, vec![7u8; 4]);
    }
}

#[test]
fn empty_file_has_no_blocks() {
    assert!(chunks_of(&[], 4).is_empty());
}

#[test]
fn blocks_of_no_bytes_cut_nothing() {
    assert!(chunks_of(&[1, 2, 3], 0).is_empty());
}

#[test]
fn file_shorter_than_a_block_is_one_block() {
    let chunks = chunks_of(&[0x2A], 256);
    assert_eq!(chunks.len(), 1);
    assert_eq!(chunks[0].id, 0);
    assert_eq!(chunks[0].data, vec![0x2A]);
}

#[test]
fn sixteen_kib_are_sixty_four_blocks_of_256() {
    let source = vec![1u8; 16384];
    let chunks = chunks_of(&source, 256);
    assert_eq!(chunks.len(), 64);
    assert!(chunks.iter().all(|chunk| chunk.data.len() == 256));
    let joined: Vec<u8> = chunks.iter().flat_map(|chunk| chunk.data.clone()).collect();
    assert_eq!(joined, source);
}

#[test]
fn blocks_joined_are_the_file() {
    let source: Vec<u8> = (0..=255u8).cycle().take(1000).collect();
    for size in [1usize, 3, 7, 256, 999, 1000, 1001, 5000] {
        let chunks = chunks_of(&source, size);
        assert_eq!(chunks.len(), (source.len() + size - 1) / size);
        let joined: Vec<u8> = chunks.iter().flat_map(|chunk| chunk.data.clone()).collect();
        assert_eq!(joined, source);
        for (i, chunk) in chunks.iter().enumerate() {
            assert_eq!(chunk.id, i as u64);
        }
    }
}
