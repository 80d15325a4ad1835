//! Basic channel behaviour: send and receive in order, boundary sizes,
//! disconnection, payload drop counts, and the ring-index helper.

use nexusq2::{make_channel, fast_mod, NexusError, ProducerTracker, ReaderTracker, SendError};
use std::sync::atomic::{AtomicU64, Ordering};
use std::sync::Arc;

#[test]
fn basic_channel() {
    let (mut nx, sender, mut receiver) = make_channel(4).expect("couldn't construct channel");
    sender.send(&mut nx, 1).expect("couldn't send");
    sender.send(&mut nx, 2).expect("couldn't send");
    sender.send(&mut nx, 3).expect("couldn't send");
    assert_eq!(receiver.recv(&mut nx), 1);
    assert_eq!(receiver.recv(&mut nx), 2);
    assert_eq!(receiver.recv(&mut nx), 3);
    sender.send(&mut nx, 4).expect("couldn't send");
    sender.send(&mut nx, 5).expect("couldn't send");
    sender.send(&mut nx, 6).expect("couldn't send");
    assert_eq!(receiver.recv(&mut nx), 4);
    assert_eq!(receiver.recv(&mut nx), 5);
    assert_eq!(receiver.recv(&mut nx), 6);
}

#[test]
fn basic_channel_try() {
    let (mut nx, sender, mut receiver) = make_channel(4).expect("couldn't construct channel");
    sender.try_send(&mut nx, 1).unwrap();
    sender.try_send(&mut nx, 2).unwrap();
    sender.try_send(&mut nx, 3).unwrap();
    assert_eq!(receiver.recv(&mut nx), 1);
    assert_eq!(receiver.recv(&mut nx), 2);
    assert_eq!(receiver.recv(&mut nx), 3);
    sender.try_send(&mut nx, 4).unwrap();
    sender.try_send(&mut nx, 5).unwrap();
    sender.try_send(&mut nx, 6).unwrap();
    assert_eq!(receiver.recv(&mut nx), 4);
    assert_eq!(receiver.recv(&mut nx), 5);
    assert_eq!(receiver.recv(&mut nx), 6);
}

#[test]
fn send_without_receiver_fails() {
    let (mut nx, sender, mut receiver) = make_channel(4).expect("couldn't construct channel");
    sender.send(&mut nx, 1).expect("couldn't send");
    sender.send(&mut nx, 2).expect("couldn't send");
    assert_eq!(receiver.recv(&mut nx), 1);
    receiver.disconnect(&mut nx);
    assert_eq!(sender.send(&mut nx, 1), Err(SendError::Disconnected(Some(1))));
}

#[test]
fn buffer_min_size() {
    assert!(matches!(make_channel::<()>(0), Err(NexusError::BufferTooSmall)));
    assert!(matches!(make_channel::<()>(1), Err(NexusError::BufferTooSmall)));
    assert!(make_channel::<()>(2).is_ok());
}

#[test]
fn buffer_too_big() {
    assert!(matches!(
        make_channel::<()>(isize::MAX as usize + 1),
        Err(NexusError::BufferTooLarge)
    ));
}

#[derive(Clone, Debug)]
struct CustomDropper {
    value: i64,
    counter: Arc<AtomicU64>,
}

impl CustomDropper {
    fn new(counter: &Arc<AtomicU64>) -> Self {
        Self { value: 42_424_242, counter: Arc::clone(counter) }
    }
}

impl Drop for CustomDropper {
    fn drop(&mut self) {
        assert_eq!(self.value, 42_424_242);
        self.counter.fetch_add(1, Ordering::Relaxed);
    }
}

#[test]
fn valid_drop_full_buffer() {
    let counter: Arc<AtomicU64> = Arc::default();
    let (mut nx, sender, mut receiver) = make_channel(16).expect("couldn't construct channel");
    for _ in 0..15 {
        sender.send(&mut nx, CustomDropper::new(&counter)).expect("couldn't send");
    }
    receiver.recv(&mut nx);
    sender.send(&mut nx, CustomDropper::new(&counter)).expect("couldn't send");
    receiver.disconnect(&mut nx);
    drop(sender);
    drop(nx);
    assert_eq!(counter.load(Ordering::Relaxed), 17);
}

#[test]
fn valid_drop_partial_buffer() {
    let counter: Arc<AtomicU64> = Arc::default();
    let (mut nx, sender, receiver) = make_channel(16).expect("couldn't construct channel");
    for _ in 0..3 {
        sender.send(&mut nx, CustomDropper::new(&counter)).expect("couldn't send");
    }
    drop(sender);
    receiver.disconnect(&mut nx);
    drop(nx);
    assert_eq!(counter.load(Ordering::Acquire), 3);
}

#[test]
fn valid_drop_empty_buffer() {
    let (mut nx, sender, receiver) =
        make_channel::<CustomDropper>(10).expect("couldn't construct channel");
    receiver.disconnect(&mut nx);
    drop(sender);
    drop(nx);
}

#[test]
fn valid_drop_overwrite() {
    let counter: Arc<AtomicU64> = Arc::default();
    let (mut nx, sender, mut receiver) =
        make_channel::<CustomDropper>(4).expect("couldn't construct channel");
    sender.send(&mut nx, CustomDropper::new(&counter)).expect("couldn't send");
    sender.send(&mut nx, CustomDropper::new(&counter)).expect("couldn't send");
    sender.send(&mut nx, CustomDropper::new(&counter)).expect("couldn't send");
    receiver.recv(&mut nx);
    receiver.recv(&mut nx);
    receiver.recv(&mut nx);
    assert_eq!(counter.load(Ordering::Acquire), 3);
    sender.send(&mut nx, CustomDropper::new(&counter)).expect("couldn't send");
    assert_eq!(counter.load(Ordering::Acquire), 3);
    sender.send(&mut nx, CustomDropper::new(&counter)).expect("couldn't send");
    assert_eq!(counter.load(Ordering::Acquire), 4);
    sender.send(&mut nx, CustomDropper::new(&counter)).expect("couldn't send");
    assert_eq!(counter.load(Ordering::Acquire), 5);
    drop(sender);
    receiver.disconnect(&mut nx);
    drop(nx);
    assert_eq!(counter.load(Ordering::Acquire), 9);
}

#[test]
fn test_fast_mod() {
    for n in 0..1024usize {
        let mut d = 1usize;
        while d <= 1024usize.next_power_of_two() {
            d = d.next_power_of_two();
            let expected = n % d;
            let fast = fast_mod(n, d);
            assert_eq!(expected, fast);
            d += 1;
        }
    }
}

#[test]
fn producer_tracker_basic_test() {
    let mut producer_tracker = ProducerTracker::default();
    assert_eq!(producer_tracker.current_published(), -1);
    assert_eq!(producer_tracker.claim(), 0);
    producer_tracker.publish(0);
    assert_eq!(producer_tracker.current_published(), 0);
    producer_tracker.publish(1);
    assert_eq!(producer_tracker.current_published(), 1);
}

#[test]
fn reader_tracker_basic_test() {
    let mut reader_tracker = ReaderTracker::new(8);
    assert_eq!(reader_tracker.current_tail_position(), 0);
    for i in 0..reader_tracker.len() {
        assert_eq!(reader_tracker.token_at(i), 0);
    }

    reader_tracker.register();
    assert_eq!(reader_tracker.token_at(0), 1);

    reader_tracker.update_position(0, 1);
    assert_eq!(reader_tracker.current_tail_position(), 1);
    assert_eq!(reader_tracker.token_at(0), 0);
    assert_eq!(reader_tracker.token_at(1), 1);

    reader_tracker.update_position(1, 2);
    assert_eq!(reader_tracker.current_tail_position(), 2);

    for i in 2..15i64 {
        reader_tracker.update_position(i, i + 1);
    }

    assert_eq!(reader_tracker.current_tail_position(), 15);
    assert_eq!(reader_tracker.token_at(15 % 8), 1);
}
