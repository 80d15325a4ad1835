//! End-to-end scenarios: broadcast to several receivers, overwrite and
//! teardown drop counts, full-buffer and disconnection boundaries,
//! deadlines, batch reads, and the wait-strategy schedule.

use nexusq2::{
    make_channel, make_channel_with, BlockStrategy, HybridWait, PollNext, PollReady, RecvError,
    SendError, TakeCell, Takeable, WaitAction, WaitError, Waitable,
};
use std::cell::Cell as StdCell;
use std::rc::Rc;

#[test]
fn single_pair_basic() {
    let (mut nx, sender, mut receiver) = make_channel(4).expect("couldn't construct channel");
    sender.send(&mut nx, 1).expect("couldn't send");
    sender.send(&mut nx, 2).expect("couldn't send");
    sender.send(&mut nx, 3).expect("couldn't send");
    assert_eq!(receiver.recv(&mut nx), 1);
    assert_eq!(receiver.recv(&mut nx), 2);
    assert_eq!(receiver.recv(&mut nx), 3);
    sender.send(&mut nx, 4).expect("couldn't send");
    sender.send(&mut nx, 5).expect("couldn't send");
    sender.send(&mut nx, 6).expect("couldn't send");
    assert_eq!(receiver.recv(&mut nx), 4);
    assert_eq!(receiver.recv(&mut nx), 5);
    assert_eq!(receiver.recv(&mut nx), 6);
}

#[test]
fn broadcast_two_receivers() {
    let (mut nx, sender, mut r1) = make_channel(4).expect("couldn't construct channel");
    let mut r2 = r1.fork(&mut nx);
    sender.send(&mut nx, 1).expect("couldn't send");
    sender.send(&mut nx, 2).expect("couldn't send");
    sender.send(&mut nx, 3).expect("couldn't send");
    assert_eq!(r1.recv(&mut nx), 1);
    assert_eq!(r1.recv(&mut nx), 2);
    assert_eq!(r1.recv(&mut nx), 3);
    assert_eq!(r2.recv(&mut nx), 1);
    assert_eq!(r2.recv(&mut nx), 2);
    assert_eq!(r2.recv(&mut nx), 3);
    // Each value was delivered exactly once per receiver.
    assert_eq!(r1.try_recv(&mut nx), Err(RecvError::NoNewData));
    assert_eq!(r2.try_recv(&mut nx), Err(RecvError::NoNewData));
}

#[test]
fn read_counters_match_receiver_anchors() {
    let (mut nx, sender, mut r1) = make_channel(4).expect("couldn't construct channel");
    let mut r2 = r1.fork(&mut nx);
    assert_eq!(nx.num_receivers, 2);
    assert_eq!(nx.buffer[0].read_counter, 2);
    sender.send(&mut nx, 1).expect("couldn't send");
    sender.send(&mut nx, 2).expect("couldn't send");
    assert_eq!(r1.recv(&mut nx), 1);
    assert_eq!(nx.buffer[0].read_counter, 1);
    assert_eq!(nx.buffer[1].read_counter, 1);
    assert_eq!(r2.recv(&mut nx), 1);
    assert_eq!(nx.buffer[0].read_counter, 0);
    assert_eq!(nx.buffer[1].read_counter, 2);
    assert_eq!(r1.recv(&mut nx), 2);
    assert_eq!(nx.buffer[1].read_counter, 1);
    assert_eq!(nx.buffer[2].read_counter, 1);
    r1.disconnect(&mut nx);
    assert_eq!(nx.num_receivers, 1);
    assert_eq!(nx.buffer[2].read_counter, 0);
    r2.disconnect(&mut nx);
    assert_eq!(nx.num_receivers, 0);
    assert_eq!(nx.buffer[1].read_counter, 0);
}

#[derive(Debug)]
struct Observer {
    drops: Rc<StdCell<u64>>,
}

impl Drop for Observer {
    fn drop(&mut self) {
        self.drops.set(self.drops.get() + 1);
    }
}

#[test]
fn overwrite_drop_count() {
    let drops: Rc<StdCell<u64>> = Rc::new(StdCell::new(0));
    let (mut nx, sender, mut receiver) =
        make_channel::<Rc<Observer>>(4).expect("couldn't construct channel");
    for _ in 0..3 {
        let value = Rc::new(Observer { drops: Rc::clone(&drops) });
        sender.send(&mut nx, value).expect("couldn't send");
    }
    receiver.recv(&mut nx);
    receiver.recv(&mut nx);
    receiver.recv(&mut nx);
    receiver.disconnect(&mut nx);
    drop(sender);
    drop(nx);
    assert_eq!(drops.get(), 3);
}

#[test]
fn full_then_recovery() {
    let (mut nx, sender, mut receiver) = make_channel(4).expect("couldn't construct channel");
    sender.send(&mut nx, 1).expect("couldn't send");
    sender.send(&mut nx, 2).expect("couldn't send");
    sender.send(&mut nx, 3).expect("couldn't send");
    assert_eq!(sender.try_send(&mut nx, 4), Err(SendError::Full(4)));
    assert_eq!(receiver.recv(&mut nx), 1);
    assert_eq!(sender.try_send(&mut nx, 4), Ok(()));
}

#[test]
fn disconnect_on_send() {
    let (mut nx, sender, mut receiver) = make_channel(4).expect("couldn't construct channel");
    sender.send(&mut nx, 1).expect("couldn't send");
    assert_eq!(receiver.recv(&mut nx), 1);
    receiver.disconnect(&mut nx);
    assert_eq!(sender.send(&mut nx, 2), Err(SendError::Disconnected(Some(2))));
}

#[test]
fn deadline_miss() {
    let now: u64 = 1_000_000_000;
    let (mut nx, _sender, mut receiver) =
        make_channel::<usize>(4).expect("couldn't construct channel");
    assert_eq!(receiver.try_recv_until(&mut nx, now + 100_000_000), Err(RecvError::Timeout));
}

#[test]
fn recv_deadline_already_past() {
    let now: u64 = 1_000_000_000;
    let (mut nx, _sender, mut receiver) =
        make_channel::<usize>(4).expect("couldn't construct channel");
    assert_eq!(receiver.try_recv_until(&mut nx, now - 1_000_000), Err(RecvError::Timeout));
}

#[test]
fn try_send_full_without_draining() {
    let (mut nx, sender, _receiver) = make_channel(4).expect("couldn't construct channel");
    sender.try_send(&mut nx, 1).expect("this should be fine");
    sender.try_send(&mut nx, 2).expect("this should be fine");
    sender.try_send(&mut nx, 3).expect("this should be fine");
    assert_eq!(sender.try_send(&mut nx, 4), Err(SendError::Full(4)));
}

#[test]
fn try_send_after_receivers_dropped() {
    let (mut nx, sender, receiver) = make_channel(4).expect("couldn't construct channel");
    receiver.disconnect(&mut nx);
    assert_eq!(sender.try_send(&mut nx, 9), Err(SendError::Disconnected(Some(9))));
}

#[test]
fn try_send_try_recv_round_trip() {
    let (mut nx, sender, mut receiver) = make_channel(4).expect("couldn't construct channel");
    assert_eq!(receiver.try_recv(&mut nx), Err(RecvError::NoNewData));
    assert_eq!(sender.try_send(&mut nx, 7), Ok(()));
    assert_eq!(receiver.try_recv(&mut nx), Ok(7));
    assert_eq!(receiver.try_recv(&mut nx), Err(RecvError::NoNewData));
}

#[test]
fn try_send_before_deadlines() {
    let now: u64 = 50;
    let (mut nx, sender, mut receiver) = make_channel(4).expect("couldn't construct channel");
    assert_eq!(sender.try_send_before(&mut nx, 1, now, now - 10), Err(SendError::Timeout(1)));
    assert_eq!(sender.try_send_before(&mut nx, 1, now, now + 10), Ok(()));
    assert_eq!(sender.try_send_before(&mut nx, 2, now, now + 10), Ok(()));
    assert_eq!(sender.try_send_before(&mut nx, 3, now, now + 10), Ok(()));
    assert_eq!(sender.try_send_before(&mut nx, 4, now, now + 10), Err(SendError::Timeout(4)));
    assert_eq!(receiver.recv(&mut nx), 1);
    assert_eq!(receiver.recv(&mut nx), 2);
    assert_eq!(receiver.recv(&mut nx), 3);
}

#[test]
fn batch_reads_in_order() {
    let (mut nx, sender, mut receiver) =
        make_channel::<usize>(10).expect("couldn't construct channel");
    sender.send(&mut nx, 16).expect("send failed");
    sender.send(&mut nx, 32).expect("send failed");
    sender.send(&mut nx, 64).expect("send failed");
    sender.send(&mut nx, 128).expect("send failed");
    let mut res = Vec::new();
    let expected = vec![16, 32, 64, 128];
    assert_eq!(receiver.try_recv_batch(&mut nx, 4, &mut res), 4);
    assert_eq!(res, expected);
    assert!(receiver.try_recv(&mut nx).is_err());
    sender.send(&mut nx, 256).expect("send failed");
    assert_eq!(receiver.try_recv(&mut nx).expect("recv failed"), 256);
}

#[test]
fn batch_holds_back_after_first_lap() {
    let (mut nx, sender, mut receiver) =
        make_channel::<usize>(2).expect("couldn't construct channel");
    sender.send(&mut nx, 10).expect("send failed");
    let mut res = Vec::new();
    assert_eq!(receiver.try_recv_batch(&mut nx, 5, &mut res), 1);
    assert_eq!(res, vec![10]);
    sender.send(&mut nx, 20).expect("send failed");
    // The slot the next claim maps to was already written a lap ago, so
    // the batch leaves the newest value for a plain read.
    assert_eq!(receiver.try_recv_batch(&mut nx, 5, &mut res), 0);
    assert_eq!(receiver.try_recv(&mut nx), Ok(20));
}

#[test]
fn capacity_rounds_up_to_power_of_two() {
    let (mut nx, sender, _receiver) = make_channel(5).expect("couldn't construct channel");
    for i in 0..7 {
        sender.try_send(&mut nx, i).expect("this should be fine");
    }
    assert_eq!(sender.try_send(&mut nx, 7), Err(SendError::Full(7)));
}

#[test]
fn channel_with_custom_strategies() {
    let (mut nx, sender, mut receiver) =
        make_channel_with(4, HybridWait::new(50, 50), HybridWait::new(0, 0))
            .expect("couldn't construct channel");
    sender.send(&mut nx, 42).expect("couldn't send");
    assert_eq!(receiver.recv(&mut nx), 42);
}

#[test]
fn sender_from_receiver() {
    let (mut nx, sender, mut receiver) = make_channel(4).expect("couldn't construct channel");
    let second = receiver.new_sender();
    sender.send(&mut nx, 1).expect("couldn't send");
    second.send(&mut nx, 2).expect("couldn't send");
    assert_eq!(receiver.recv(&mut nx), 1);
    assert_eq!(receiver.recv(&mut nx), 2);
}

#[test]
fn hybrid_wait_schedule() {
    let wait = HybridWait::new(2, 3);
    assert_eq!(wait.step(0, true), WaitAction::Ready);
    assert_eq!(wait.step(0, false), WaitAction::Spin);
    assert_eq!(wait.step(1, false), WaitAction::Spin);
    assert_eq!(wait.step(2, false), WaitAction::YieldNow);
    assert_eq!(wait.step(4, false), WaitAction::YieldNow);
    assert_eq!(wait.step(5, false), WaitAction::Park);
    assert_eq!(wait.step(1000, false), WaitAction::Park);
}

#[test]
fn hybrid_wait_deadline_schedule() {
    let wait = HybridWait::new(1, 0);
    assert_eq!(wait.step_until(0, true, 10, 5), Ok(WaitAction::Ready));
    assert_eq!(wait.step_until(0, false, 10, 5), Err(WaitError::Timeout));
    assert_eq!(wait.step_until(0, false, 4, 5), Ok(WaitAction::Spin));
    assert_eq!(wait.step_until(1, false, 4, 5), Ok(WaitAction::Park));
}

#[test]
fn block_strategy_parks_immediately() {
    let block = BlockStrategy::new();
    let as_hybrid = block.as_hybrid();
    assert_eq!(as_hybrid.step(0, false), WaitAction::Park);
    assert_eq!(as_hybrid.step(0, true), WaitAction::Ready);
}

#[test]
fn take_cell_semantics() {
    let mut t = TakeCell::new(42);
    assert_eq!(t.try_take(), Some(42));
    assert_eq!(t.try_take(), None);
    t.restore(21);
    assert_eq!(t.try_take(), Some(21));
}

#[test]
fn waitable_check() {
    let x: usize = 42;
    assert!(x.check(&42));
    assert!(!x.check(&21));
}

#[test]
fn poll_based_send() {
    let (mut nx, mut sender, mut receiver) = make_channel(4).expect("couldn't construct channel");
    assert_eq!(sender.poll_ready(&mut nx), PollReady::Ready);
    sender.start_send(&mut nx, 11);
    assert_eq!(receiver.recv(&mut nx), 11);
    // Fill the ring: the slot under the receiver's anchor stays blocked.
    assert_eq!(sender.poll_ready(&mut nx), PollReady::Ready);
    sender.start_send(&mut nx, 12);
    assert_eq!(sender.poll_ready(&mut nx), PollReady::Ready);
    sender.start_send(&mut nx, 13);
    assert_eq!(sender.poll_ready(&mut nx), PollReady::Ready);
    sender.start_send(&mut nx, 14);
    assert_eq!(sender.poll_ready(&mut nx), PollReady::Pending);
    assert_eq!(receiver.recv(&mut nx), 12);
    assert_eq!(sender.poll_ready(&mut nx), PollReady::Ready);
    assert_eq!(sender.poll_flush(), PollReady::Ready);
    assert_eq!(sender.poll_close(), PollReady::Ready);
}

#[test]
fn poll_based_send_disconnects() {
    let (mut nx, mut sender, receiver) = make_channel::<i32>(4).expect("couldn't construct channel");
    receiver.disconnect(&mut nx);
    assert_eq!(sender.poll_ready(&mut nx), PollReady::Disconnected);
}

#[test]
fn poll_based_receive() {
    let (mut nx, sender, mut receiver) = make_channel(4).expect("couldn't construct channel");
    assert_eq!(receiver.poll_next(&mut nx), PollNext::Pending);
    sender.send(&mut nx, 5).expect("couldn't send");
    sender.send(&mut nx, 6).expect("couldn't send");
    assert_eq!(receiver.poll_next(&mut nx), PollNext::Ready(5));
    assert_eq!(receiver.poll_next(&mut nx), PollNext::Ready(6));
    assert_eq!(receiver.poll_next(&mut nx), PollNext::Pending);
}
