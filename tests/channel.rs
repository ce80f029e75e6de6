use daft_local_execution::channel::{BoundedQueue, TryRecv, TrySendError};
use daft_local_execution::multi::{MultiSender, RoundRobinReceiver};

#[test]
fn full_channel_refuses_second_send() {
    let mut q: BoundedQueue<u64> = BoundedQueue::new(1);
    assert_eq!(q.try_send(1), Ok(()));
    // the consumer is paused: the producer cannot make progress
    assert_eq!(q.try_send(2), Err(TrySendError::Full(2)));
    assert_eq!(q.len(), 1);
    assert_eq!(q.try_recv(), TryRecv::Item(1));
    assert_eq!(q.try_send(2), Ok(()));
    q.close_sender();
    assert_eq!(q.try_recv(), TryRecv::Item(2));
    assert_eq!(q.try_recv(), TryRecv::Closed);
}

#[test]
fn dropped_receiver_disconnects() {
    let mut q: BoundedQueue<u64> = BoundedQueue::new(2);
    assert_eq!(q.try_recv(), TryRecv::Empty);
    q.drop_receiver();
    assert_eq!(q.try_send(5), Err(TrySendError::Disconnected(5)));
}

#[test]
fn in_order_fan_in_restores_interleaving() {
    let n = 3;
    let items: Vec<u64> = (0..10).collect();
    let mut sender = MultiSender::new(n, true);
    let mut lanes: Vec<Vec<u64>> = vec![Vec::new(); n];
    for &it in &items {
        lanes[sender.get_next_sender()].push(it);
    }
    let mut rx = RoundRobinReceiver::new(n);
    let mut pos = vec![0usize; n];
    let mut merged = Vec::new();
    loop {
        let mut got = false;
        for attempt in 0..rx.num_lanes() {
            let lane = rx.lane_to_poll(attempt);
            if pos[lane] < lanes[lane].len() {
                merged.push(lanes[lane][pos[lane]]);
                pos[lane] += 1;
                rx.on_value(lane);
                got = true;
                break;
            }
        }
        if !got {
            rx.on_all_closed();
            break;
        }
    }
    assert!(rx.is_done());
    assert_eq!(merged, items);
}

#[test]
fn out_of_order_mode_shares_one_channel() {
    let mut sender = MultiSender::new(4, false);
    assert_eq!(sender.num_channels(), 1);
    assert_eq!(sender.assign_senders(4), vec![0, 0, 0, 0]);
    let mut ordered = MultiSender::new(3, true);
    assert_eq!(ordered.num_channels(), 3);
    assert_eq!(ordered.assign_senders(5), vec![0, 1, 2, 0, 1]);
}
