//! Buffer pool, inbound queue and output set tests.
use tansiv_client::buffer_pool::{BufferPool, Error as PoolError};
use tansiv_client::output_msg_set::{Error as SetError, OutputMsgSet};
use tansiv_client::time::Dur;
use tansiv_client::waitfree_array_queue::{Error as QueueError, WaitfreeArrayQueue};
use tansiv_client::wire::{DeliverPacket, SendPacketBuilder};
use tansiv_client::MAX_PACKET_SIZE;

#[test]
fn valid_input_buffer_size() {
    let mut pool = BufferPool::new(MAX_PACKET_SIZE, 100);
    let buffer = pool
        .allocate_buffer(MAX_PACKET_SIZE)
        .expect("one slot free");
    assert_eq!(buffer.len(), MAX_PACKET_SIZE);
}

#[test]
fn allocate_size_too_big() {
    let mut pool = BufferPool::new(MAX_PACKET_SIZE, 2);
    assert!(matches!(
        pool.allocate_buffer(MAX_PACKET_SIZE + 1),
        Err(PoolError::SizeTooBig)
    ));
}

#[test]
fn allocate_until_exhausted() {
    let mut pool = BufferPool::new(16, 2);
    let b1 = pool.allocate_buffer(8).expect("first slot");
    let b2 = pool.allocate_buffer(8).expect("second slot");
    assert_ne!(b1.index, b2.index);
    assert!(matches!(
        pool.allocate_buffer(8),
        Err(PoolError::NoBufferAvailable)
    ));
    pool.free_buffer(b1);
    let b3 = pool.allocate_buffer(4).expect("slot freed");
    assert_eq!(b3.len(), 4);
}

#[test]
fn buffer_contents_do_not_alias() {
    // Two live leases write independently: the pool's ranges are disjoint.
    let mut pool = BufferPool::new(4, 2);
    let b1 = pool.allocate_buffer(4).expect("first slot");
    let b2 = pool.allocate_buffer(4).expect("second slot");
    pool.buffer_copy_from_slice(&b1, &vec![1, 2, 3, 4]);
    pool.buffer_copy_from_slice(&b2, &vec![5, 6, 7, 8]);
    assert_eq!(pool.buffer_to_vec(&b1), vec![1, 2, 3, 4]);
    assert_eq!(pool.buffer_to_vec(&b2), vec![5, 6, 7, 8]);
}

#[test]
fn queue_is_fifo() {
    let mut queue = WaitfreeArrayQueue::new(4);
    assert!(queue.is_empty());
    for k in 0..3u32 {
        queue
            .push(DeliverPacket {
                src: k,
                dst: 100 + k,
                payload: vec![k as u8],
            })
            .expect("room in the queue");
    }
    assert!(!queue.is_empty());
    assert_eq!(queue.len(), 3);
    for k in 0..3u32 {
        let p = queue.pop().expect("still queued");
        assert_eq!(p.src(), k);
        assert_eq!(p.dst(), 100 + k);
        assert_eq!(p.payload().as_slice(), &[k as u8]);
    }
    assert!(queue.pop().is_none());
}

#[test]
fn queue_full_hands_item_back() {
    let mut queue = WaitfreeArrayQueue::new(1);
    queue
        .push(DeliverPacket {
            src: 1,
            dst: 2,
            payload: vec![9],
        })
        .expect("room in the queue");
    match queue.push(DeliverPacket {
        src: 3,
        dst: 4,
        payload: vec![7],
    }) {
        Err(QueueError::NoSlotAvailable { item }) => {
            assert_eq!(item.src(), 3);
            assert_eq!(item.payload().as_slice(), &[7]);
        }
        _ => panic!("expected the queue to be full"),
    }
}

#[test]
fn output_set_insert_and_drain_in_slot_order() {
    let mut pool = BufferPool::new(8, 3);
    let mut set = OutputMsgSet::new(3);
    for k in 0..3u64 {
        let buffer = pool.allocate_buffer(1).expect("slot free");
        pool.buffer_copy_from_slice(&buffer, &vec![k as u8]);
        let msg = SendPacketBuilder::new(10, 20, Dur::from_micros(k), buffer);
        set.insert(msg).expect("slot free");
    }
    let drained = set.drain();
    assert_eq!(drained.len(), 3);
    let mut k: u64 = 0;
    for msg in drained {
        assert_eq!(msg.src(), 10);
        assert_eq!(msg.dst(), 20);
        assert_eq!(msg.send_time().as_secs(), 0);
        assert_eq!(msg.send_time().subsec_micros() as u64, k);
        // the drained message still owns its pool lease; give it back
        pool.free_buffer(msg.payload);
        k += 1;
    }
    // Every slot was taken and released: both accept again.
    let buffer = pool.allocate_buffer(1).expect("pool slots were released");
    set.insert(SendPacketBuilder::new(1, 2, Dur::zero(), buffer))
        .expect("set slots were released");
}

#[test]
fn output_set_full_hands_message_back() {
    let mut pool = BufferPool::new(8, 2);
    let mut set = OutputMsgSet::new(1);
    let b1 = pool.allocate_buffer(1).expect("slot free");
    set.insert(SendPacketBuilder::new(1, 2, Dur::zero(), b1))
        .expect("slot free");
    let b2 = pool.allocate_buffer(1).expect("slot free");
    match set.insert(SendPacketBuilder::new(3, 4, Dur::zero(), b2)) {
        Err(SetError::NoSlotAvailable { msg }) => {
            assert_eq!(msg.src(), 3);
            pool.free_buffer(msg.payload);
        }
        _ => panic!("expected the set to be full"),
    }
}
