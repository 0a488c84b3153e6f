use fanpipe::channel::ChannelBroker;
use fanpipe::errors::ChannelBroken;

#[test]
fn messages_leave_in_arrival_order() {
    let mut broker = ChannelBroker::new();
    assert_eq!(broker.send(1), Ok(()));
    assert_eq!(broker.send(2), Ok(()));
    assert_eq!(broker.send(3), Ok(()));
    assert_eq!(broker.receive(), Some(1));
    assert_eq!(broker.receive(), Some(2));
    assert_eq!(broker.receive(), Some(3));
    assert_eq!(broker.receive(), None);
}

#[test]
fn fan_in_of_ten_producers_returns_expected_multiset() {
    let mut broker = ChannelBroker::new();
    // One sender prototype plus nine clones: ten producer handles.
    for _ in 0..9 {
        broker.clone_sender();
    }
    // Each producer sends its identifier once; arrival order is whatever
    // the scheduler produced, so take one arbitrary interleaving.
    let arrival: Vec<u64> = vec![3, 0, 7, 1, 9, 4, 2, 8, 5, 6];
    assert_eq!(broker.send_all(&arrival), Ok(()));
    for _ in 0..10 {
        broker.drop_sender();
    }
    let mut ids = broker.drain(10);
    assert_eq!(broker.pending(), 0);
    // Order across runs is unspecified; the multiset is not.
    ids.sort();
    assert_eq!(ids, vec![0, 1, 2, 3, 4, 5, 6, 7, 8, 9]);
}

#[test]
fn drain_takes_exactly_the_requested_count() {
    let mut broker = ChannelBroker::new();
    assert_eq!(broker.send_all(&vec![10, 20, 30]), Ok(()));
    assert_eq!(broker.drain(2), vec![10, 20]);
    assert_eq!(broker.pending(), 1);
    assert_eq!(broker.receive(), Some(30));
}

#[test]
fn send_after_receiver_destroyed_is_broken_not_a_hang() {
    let mut broker = ChannelBroker::new();
    assert_eq!(broker.send(41), Ok(()));
    broker.drop_receiver();
    assert_eq!(broker.send(42), Err(ChannelBroken));
    // The failed send left the queue as it was.
    assert_eq!(broker.pending(), 1);
}

#[test]
fn send_all_after_receiver_destroyed_fails() {
    let mut broker = ChannelBroker::new();
    broker.drop_receiver();
    assert_eq!(broker.send_all(&vec![1, 2, 3]), Err(ChannelBroken));
    assert_eq!(broker.pending(), 0);
}

#[test]
fn sender_clones_share_the_queue_they_feed() {
    let mut broker = ChannelBroker::new();
    broker.clone_sender();
    assert_eq!(broker.send(5), Ok(()));
    broker.drop_sender();
    // Messages sent before a producer hung up are still delivered.
    assert_eq!(broker.send(6), Ok(()));
    assert_eq!(broker.receive(), Some(5));
    assert_eq!(broker.receive(), Some(6));
}
