use caverr::file::chunk::Chunk;
use caverr::file::pending::PendingChunks;

fn chunk(id: u64, byte: u8) -> Chunk {
    Chunk { data: vec![byte; 3], id }
}

fn bytes_of(chunks: &[Chunk]) -> Vec<u8> {
    let mut bytes = Vec::new();
    for chunk in chunks {
        bytes.extend_from_slice(&chunk.data);
    }
    bytes
}

#[test]
fn new_buffer_is_empty_and_waits_for_block_zero() {
    let pending = PendingChunks::new();
    assert_eq!(pending.inner.next(), 0);
    assert_eq!(pending.inner.waiting(), 0);
}

#[test]
fn block_in_turn_is_written_at_once() {
    let mut pending = PendingChunks::new();
    let ready = pending.inner.deliver(chunk(0, 7));
    assert_eq!(ready.len(), 1);
    assert_eq!(ready[0].id, 0);
    assert_eq!(ready[0].data, vec![7, 7, 7]);
    assert_eq!(pending.inner.next(), 1);
    assert_eq!(pending.inner.waiting(), 0);
}

#[test]
fn early_block_waits_for_its_turn() {
    let mut pending = PendingChunks::new();
    assert!(pending.inner.deliver(chunk(2, 2)).is_empty());
    assert!(pending.inner.deliver(chunk(1, 1)).is_empty());
    assert_eq!(pending.inner.next(), 0);
    assert_eq!(pending.inner.waiting(), 2);
    let ready = pending.inner.deliver(chunk(0, 0));
    let ids: Vec<u64> = ready.iter().map(|c| c.id).collect();
    assert_eq!(ids, vec![0, 1, 2]);
    assert_eq!(bytes_of(&ready), vec![0, 0, 0, 1, 1, 1, 2, 2, 2]);
    assert_eq!(pending.inner.next(), 3);
    assert_eq!(pending.inner.waiting(), 0);
}

#[test]
fn drain_stops_at_the_first_gap() {
    let mut pending = PendingChunks::new();
    assert!(pending.inner.deliver(chunk(1, 1)).is_empty());
    assert!(pending.inner.deliver(chunk(3, 3)).is_empty());
    let ready = pending.inner.deliver(chunk(0, 0));
    let ids: Vec<u64> = ready.iter().map(|c| c.id).collect();
    assert_eq!(ids, vec![0, 1]);
    assert_eq!(pending.inner.next(), 2);
    assert_eq!(pending.inner.waiting(), 1);
    let ready = pending.inner.deliver(chunk(2, 2));
    let ids: Vec<u64> = ready.iter().map(|c| c.id).collect();
    assert_eq!(ids, vec![2, 3]);
    assert_eq!(pending.inner.next(), 4);
    assert_eq!(pending.inner.waiting(), 0);
}

#[test]
fn find_takes_the_block_out() {
    let mut pending = PendingChunks::new();
    pending.inner.push(chunk(5, 5));
    pending.inner.push(chunk(9, 9));
    pending.inner.push(chunk(5, 6));
    assert_eq!(pending.inner.waiting(), 3);
    let found = pending.inner.find(5).expect("block 5 waits");
    assert_eq!(found.id, 5);
    assert_eq!(found.data, vec![5, 5, 5]);
    assert_eq!(pending.inner.waiting(), 2);
    let again = pending.inner.find(5).expect("the second block 5 waits");
    assert_eq!(again.data, vec![6, 6, 6]);
    assert!(pending.inner.find(5).is_none());
    assert!(pending.inner.find(7).is_none());
    assert_eq!(pending.inner.waiting(), 1);
    assert_eq!(pending.inner.next(), 0);
}

#[test]
fn every_schedule_of_four_blocks_writes_them_in_order() {
    let orders: [[u64; 4]; 6] = [
        [0, 1, 2, 3],
        [3, 2, 1, 0],
        [1, 0, 3, 2],
        [2, 3, 0, 1],
        [1, 3, 0, 2],
        [3, 0, 2, 1],
    ];
    for order in orders.iter() {
        let mut pending = PendingChunks::new();
        let mut written: Vec<Chunk> = Vec::new();
        for id in order.iter() {
            let mut ready = pending.inner.deliver(chunk(*id, (*id as u8) + 10));
            written.append(&mut ready);
        }
        let ids: Vec<u64> = written.iter().map(|c| c.id).collect();
        assert_eq!(ids, vec![0, 1, 2, 3]);
        assert_eq!(
            bytes_of(&written),
            vec![10, 10, 10, 11, 11, 11, 12, 12, 12, 13, 13, 13]
        );
        assert_eq!(pending.inner.next(), 4);
        assert_eq!(pending.inner.waiting(), 0);
    }
}
