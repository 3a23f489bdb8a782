use kv_store::channel::{link, ChannelLabel, CHANNEL_CAPACITY};
use kv_store::{KVError, Node, Reply, Request};

fn node_of(shards: usize) -> Node<u64, u64> {
    Node::new(0, 0, Some(shards)).unwrap()
}

#[test]
fn node_without_cores_or_floor_fails() {
    assert!(matches!(Node::<u64, u64>::new(1, 0, None), Err(KVError::NoCoresDetected)));
    assert!(matches!(Node::<u64, u64>::new(1, 0, Some(0)), Err(KVError::NoCoresDetected)));
}

#[test]
fn shard_count_is_the_larger_of_cores_and_floor() {
    assert_eq!(Node::<u64, u64>::new(9, 3, None).unwrap().num_cores(), 3);
    assert_eq!(Node::<u64, u64>::new(9, 3, Some(2)).unwrap().num_cores(), 3);
    assert_eq!(Node::<u64, u64>::new(9, 3, Some(5)).unwrap().num_cores(), 5);
    assert_eq!(Node::<u64, u64>::new(9, 0, Some(1)).unwrap().num_cores(), 1);
    let node = Node::<u64, u64>::new(9, 2, Some(2)).unwrap();
    assert_eq!(node.id(), 9);
    assert_eq!(node.num_cores(), 2);
    assert_eq!(node.active_shards(), 2);
}

#[test]
fn mesh_has_a_channel_for_every_ordered_pair() {
    for n in 1..6usize {
        let mut node = node_of(n);
        let mut channels = 0;
        for src in 0..n {
            for dst in 0..n {
                let sent = node.send_shard(src, dst, Request::GET(0));
                if src == dst {
                    assert_eq!(sent, Err(KVError::NoSuchPeer));
                } else {
                    assert_eq!(sent, Ok(()));
                    channels += 1;
                }
            }
        }
        assert_eq!(channels, n * (n - 1));
        let shards = node.start();
        assert_eq!(shards.len(), n);
        for (i, shard) in shards.iter().enumerate() {
            assert_eq!(shard.id(), i);
            assert_eq!(shard.peer_count(), n);
        }
    }
}

#[test]
fn each_channel_ends_at_its_destination() {
    let n = 4;
    let mut node = node_of(n);
    for src in 0..n {
        for dst in 0..n {
            if src != dst {
                let key = (src * 10 + dst) as u64;
                assert_eq!(node.send_shard(src, dst, Request::PUT(key, key)), Ok(()));
            }
        }
    }
    let mut shards = node.start();
    for dst in 0..n {
        let replies = shards[dst].sweep();
        let senders: Vec<usize> = replies.iter().map(|r| r.0).collect();
        let expected: Vec<usize> = (0..n).filter(|s| *s != dst).collect();
        assert_eq!(senders, expected);
        for src in 0..n {
            let key = (src * 10 + dst) as u64;
            if src != dst {
                assert_eq!(shards[dst].get(&key), Some(&key));
            } else {
                assert_eq!(shards[dst].get(&key), None);
            }
        }
    }
}

#[test]
fn send_to_unknown_shard_is_no_such_peer() {
    let mut node = node_of(3);
    assert_eq!(node.send_shard(0, 3, Request::GET(1)), Err(KVError::NoSuchPeer));
    assert_eq!(node.send_shard(3, 0, Request::GET(1)), Err(KVError::NoSuchPeer));
    assert_eq!(node.send_shard(1, 1, Request::GET(1)), Err(KVError::NoSuchPeer));
    assert_eq!(node.send_shard(0, usize::MAX, Request::GET(1)), Err(KVError::NoSuchPeer));
}

#[test]
fn route_is_the_key_modulo_the_shard_count() {
    let node = node_of(4);
    assert_eq!(node.route(&7, &Request::GET(7)), 3);
    assert_eq!(node.route(&8, &Request::GET(8)), 0);
    assert_eq!(node.route(&u64::MAX, &Request::GET(0)), 3);
    let single = node_of(1);
    assert_eq!(single.route(&12345, &Request::GET(12345)), 0);
}

#[test]
fn route_is_deterministic() {
    let node = node_of(5);
    for key in 0..100u64 {
        let first = node.route(&key, &Request::GET(key));
        let second = node.route(&key, &Request::PUT(key, 1));
        assert_eq!(first, second);
        assert_eq!(first, (key % 5) as usize);
    }
    let mut node = node;
    let before = node.route(&42, &Request::GET(42));
    node.start();
    assert_eq!(node.route(&42, &Request::GET(42)), before);
}

#[test]
fn full_channel_is_reported_and_clears_after_a_drain() {
    let mut shards = node_of(2).start();
    let (left, right) = shards.split_at_mut(1);
    let sender = &mut left[0];
    let receiver = &mut right[0];
    for key in 0..CHANNEL_CAPACITY as u64 {
        assert_eq!(sender.send(1, Request::PUT(key, key)), Ok(()));
    }
    assert_eq!(sender.send(1, Request::PUT(1000, 1)), Err(KVError::ChannelFull));
    assert_eq!(sender.send(1, Request::GET(0)), Err(KVError::ChannelFull));
    let replies = receiver.sweep();
    assert_eq!(replies.len(), CHANNEL_CAPACITY);
    assert_eq!(sender.send(1, Request::PUT(1000, 1)), Ok(()));
    assert_eq!(receiver.get(&1000), None);
    assert_eq!(receiver.sweep().len(), 1);
    assert_eq!(receiver.get(&1000), Some(&1));
}

#[test]
fn put_then_get_over_one_channel_sees_the_put() {
    let mut node = node_of(3);
    assert_eq!(node.send_shard(0, 2, Request::PUT(11, 99)), Ok(()));
    assert_eq!(node.send_shard(0, 2, Request::GET(11)), Ok(()));
    let mut shards = node.start();
    let replies = shards[2].sweep();
    assert_eq!(replies.len(), 2);
    assert!(matches!(replies[0], (0, Reply::Stored(None))));
    assert!(matches!(replies[1], (0, Reply::Fetched(Some(99)))));
}

#[test]
fn drain_takes_peers_in_ascending_order() {
    let mut node = node_of(4);
    assert_eq!(node.send_shard(3, 0, Request::PUT(1, 30)), Ok(()));
    assert_eq!(node.send_shard(1, 0, Request::PUT(1, 10)), Ok(()));
    assert_eq!(node.send_shard(2, 0, Request::PUT(1, 20)), Ok(()));
    assert_eq!(node.send_shard(1, 0, Request::PUT(1, 11)), Ok(()));
    let mut shards = node.start();
    let batch = shards[0].drain();
    assert_eq!(batch.len(), 4);
    assert!(matches!(batch[0], (1, Request::PUT(1, 10))));
    assert!(matches!(batch[1], (1, Request::PUT(1, 11))));
    assert!(matches!(batch[2], (2, Request::PUT(1, 20))));
    assert!(matches!(batch[3], (3, Request::PUT(1, 30))));
    assert_eq!(shards[0].get(&1), None);
    assert!(shards[0].drain().is_empty());
}

#[test]
fn end_to_end_put_and_get_on_four_shards() {
    let mut node = node_of(4);
    let owner = node.route(&7, &Request::PUT(7, 42));
    assert_eq!(owner, 3);
    assert!(matches!(node.submit(0, Request::PUT(7, 42)), Ok(None)));
    assert!(matches!(node.submit(0, Request::GET(7)), Ok(None)));
    assert_eq!(node.send_shard(0, 1, Request::GET(7)), Ok(()));
    let mut shards = node.start();
    let replies = shards[3].sweep();
    assert_eq!(replies.len(), 2);
    assert!(matches!(replies[0], (0, Reply::Stored(None))));
    assert!(matches!(replies[1], (0, Reply::Fetched(Some(42)))));
    let stray = shards[1].sweep();
    assert_eq!(stray.len(), 1);
    assert!(matches!(stray[0], (0, Reply::Fetched(None))));
    assert_eq!(shards[3].get(&7), Some(&42));
    assert_eq!(shards[1].get(&7), None);
}

#[test]
fn submit_applies_at_once_on_the_owning_shard() {
    let mut node = node_of(4);
    assert!(matches!(node.submit(3, Request::PUT(7, 42)), Ok(Some(Reply::Stored(None)))));
    assert!(matches!(node.submit(3, Request::GET(7)), Ok(Some(Reply::Fetched(Some(42))))));
    assert!(matches!(node.submit(4, Request::GET(7)), Err(KVError::NoSuchPeer)));
    let shards = node.start();
    assert_eq!(shards[3].get(&7), Some(&42));
    assert!(matches!(node.submit(3, Request::GET(7)), Err(KVError::NoSuchPeer)));
}

#[test]
fn submit_reports_a_full_channel() {
    let mut node = node_of(2);
    for key in 0..CHANNEL_CAPACITY as u64 {
        assert!(matches!(node.submit(0, Request::PUT(2 * key + 1, key)), Ok(None)));
    }
    assert!(matches!(node.submit(0, Request::PUT(1, 0)), Err(KVError::ChannelFull)));
    assert!(matches!(node.submit(0, Request::PUT(2, 0)), Ok(Some(Reply::Stored(None)))));
}

#[test]
fn start_hands_over_every_shard_once() {
    let mut node = node_of(3);
    assert_eq!(node.active_shards(), 3);
    let shards = node.start();
    assert_eq!(shards.len(), 3);
    assert_eq!(node.active_shards(), 0);
    assert_eq!(node.num_cores(), 3);
    assert!(node.start().is_empty());
    assert_eq!(node.send_shard(0, 1, Request::GET(1)), Err(KVError::NoSuchPeer));
}

#[test]
fn shutdown_joins_every_worker_and_is_idempotent() {
    let mut node = node_of(4);
    assert_eq!(node.lifecycle().outstanding(), 0);
    assert_eq!(node.lifecycle().next_join(), None);
    let shards = node.start();
    assert_eq!(shards.len(), 4);
    assert_eq!(node.lifecycle().outstanding(), 4);
    assert!(node.request_shutdown());
    assert!(!node.request_shutdown());
    for worker in 0..4 {
        assert_eq!(node.lifecycle().next_join(), Some(worker));
        node.record_join(true);
    }
    assert_eq!(node.lifecycle().next_join(), None);
    assert_eq!(node.lifecycle().outstanding(), 0);
    assert_eq!(node.lifecycle().report(), Ok(()));
    assert!(!node.request_shutdown());
    node.record_join(false);
    assert_eq!(node.lifecycle().outstanding(), 0);
    assert_eq!(node.lifecycle().report(), Ok(()));
}

#[test]
fn mesh_ends_are_labelled_with_their_channel() {
    for n in 1..6usize {
        let shards = node_of(n).start();
        for i in 0..n {
            for j in 0..n {
                if i == j {
                    assert_eq!(shards[i].outbound_to(j), None);
                    assert_eq!(shards[i].inbound_from(j), None);
                } else {
                    assert_eq!(
                        shards[i].outbound_to(j),
                        Some(ChannelLabel { from: i, to: j, capacity: CHANNEL_CAPACITY })
                    );
                    assert_eq!(
                        shards[i].inbound_from(j),
                        Some(ChannelLabel { from: j, to: i, capacity: CHANNEL_CAPACITY })
                    );
                }
            }
            assert_eq!(shards[i].outbound_to(n), None);
            assert_eq!(shards[i].inbound_from(n), None);
        }
    }
}

#[test]
fn link_makes_two_ends_of_one_channel() {
    let (mut sending, mut receiving) = link::<u8>(1, 2);
    let label = ChannelLabel { from: 1, to: 2, capacity: CHANNEL_CAPACITY };
    assert_eq!(sending.label(), label);
    assert_eq!(receiving.label(), label);
    assert_eq!(receiving.poll(), None);
    assert_eq!(sending.offer(5), None);
    assert_eq!(sending.offer(6), None);
    assert_eq!(receiving.poll(), Some(5));
    assert_eq!(receiving.poll(), Some(6));
    assert_eq!(receiving.poll(), None);
    assert_eq!(sending.label(), label);
    assert_eq!(receiving.label(), label);
}

#[test]
fn a_channel_holds_what_its_label_says() {
    let (mut sending, mut receiving) = link::<u32>(0, 1);
    let capacity = sending.label().capacity;
    assert_eq!(capacity, 100);
    for n in 0..capacity as u32 {
        assert_eq!(sending.offer(n), None);
    }
    assert_eq!(sending.offer(7), Some(7));
    assert_eq!(receiving.poll(), Some(0));
    assert_eq!(sending.offer(7), None);
    assert_eq!(sending.offer(8), Some(8));
}

#[test]
fn send_leaves_the_other_channels_alone() {
    let mut shards = node_of(3).start();
    assert_eq!(shards[0].send(1, Request::PUT(1, 1)), Ok(()));
    assert!(shards[2].sweep().is_empty());
    assert_eq!(shards[1].sweep().len(), 1);
    assert!(shards[0].sweep().is_empty());
    for j in 1..3 {
        assert_eq!(
            shards[0].outbound_to(j),
            Some(ChannelLabel { from: 0, to: j, capacity: CHANNEL_CAPACITY })
        );
    }
}
