//! Stress runs driving many senders and receivers over one channel
//! under a round-robin schedule: each round, every sender that still has
//! values attempts one send, and every receiver drains what is
//! published.

use nexusq2::make_channel;
use std::collections::HashMap;

fn run_channel(num_senders: usize, num_receivers: usize, num: usize, buffer_size: usize) {
    let (mut nx, sender, receiver) =
        make_channel(buffer_size).expect("couldn't construct channel");
    let mut receivers = Vec::new();
    for _ in 0..(num_receivers - 1) {
        receivers.push(receiver.fork(&mut nx));
    }
    receivers.push(receiver);

    let mut senders = Vec::new();
    for _ in 0..(num_senders - 1) {
        senders.push(sender.clone());
    }
    senders.push(sender);

    let total = num * num_senders;
    let mut next_value = vec![0usize; num_senders];
    let mut results: Vec<Vec<usize>> = Vec::new();
    for _ in 0..num_receivers {
        results.push(Vec::with_capacity(total));
    }

    let mut rounds_without_progress = 0usize;
    loop {
        let mut progressed = false;
        for (s, sender) in senders.iter().enumerate() {
            if next_value[s] < num && sender.try_send(&mut nx, next_value[s]).is_ok() {
                next_value[s] += 1;
                progressed = true;
            }
        }
        for (ri, receiver) in receivers.iter_mut().enumerate() {
            while results[ri].len() < total {
                match receiver.try_recv(&mut nx) {
                    Ok(v) => {
                        results[ri].push(v);
                        progressed = true;
                    }
                    Err(_) => break,
                }
            }
        }
        if results.iter().all(|r| r.len() == total) {
            break;
        }
        if progressed {
            rounds_without_progress = 0;
        } else {
            rounds_without_progress += 1;
            assert!(rounds_without_progress < 4, "channel made no progress");
        }
    }

    let mut expected_map = HashMap::with_capacity(num);
    for i in 0..num {
        expected_map.insert(i, num_senders);
    }

    for result in &results {
        let mut count_map: HashMap<usize, usize> = HashMap::with_capacity(num);
        for v in result {
            let e = count_map.entry(*v).or_default();
            *e += 1;
        }
        let mut diff_map = HashMap::new();
        for (k, v) in count_map {
            let expected_count = expected_map.get(&k).expect("key didn't exist in expected map");
            if *expected_count != v {
                diff_map.insert(k, v);
            }
        }
        if !diff_map.is_empty() {
            println!("diff: {:?}", diff_map);
        }
        assert!(diff_map.is_empty());
    }

    for receiver in receivers {
        receiver.disconnect(&mut nx);
    }
}

#[test]
fn one_sender_one_receiver() {
    run_channel(1, 1, 100, 5);
}

#[test]
fn one_sender_one_receiver_long() {
    run_channel(1, 1, 500_000, 5);
}

#[test]
fn one_sender_two_receiver() {
    run_channel(1, 2, 100, 5);
}

#[test]
fn one_sender_two_receiver_long() {
    run_channel(1, 2, 500_000, 5);
}

#[test]
fn two_sender_one_receiver() {
    run_channel(2, 1, 100, 5);
}

#[test]
fn two_sender_two_receiver() {
    run_channel(2, 2, 100, 5);
}

#[test]
fn two_sender_two_receiver_long() {
    run_channel(2, 2, 1000, 5);
}
