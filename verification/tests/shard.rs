use kv_store::shard::{file_waiting, send_verdict};
use kv_store::{KVError, Key, Reply, Request, Shard};

#[test]
fn new_shard_is_empty_and_unwired() {
    let mut shard: Shard<u64, u64> = Shard::new(2, 4);
    assert_eq!(shard.id(), 2);
    assert_eq!(shard.peer_count(), 4);
    assert_eq!(shard.get(&1), None);
    for dst in 0..6 {
        assert_eq!(shard.send(dst, Request::GET(1)), Err(KVError::NoSuchPeer));
    }
    assert!(shard.drain().is_empty());
    assert!(shard.sweep().is_empty());
}

#[test]
fn insert_then_get_returns_the_value() {
    let mut shard: Shard<u64, u64> = Shard::new(0, 1);
    assert_eq!(shard.insert(7, 42), None);
    assert_eq!(shard.get(&7), Some(&42));
    assert_eq!(shard.get(&8), None);
}

#[test]
fn insert_returns_previous_value() {
    let mut shard: Shard<u32, u8> = Shard::new(0, 1);
    assert_eq!(shard.insert(1, 10), None);
    assert_eq!(shard.insert(1, 11), Some(10));
    assert_eq!(shard.insert(2, 20), None);
    assert_eq!(shard.get(&1), Some(&11));
    assert_eq!(shard.get(&2), Some(&20));
}

#[test]
fn get_survives_inserts_under_other_keys() {
    let mut shard: Shard<u64, u64> = Shard::new(0, 1);
    shard.insert(7, 42);
    shard.insert(8, 1);
    shard.insert(9, 2);
    assert_eq!(shard.get(&7), Some(&42));
}

#[test]
fn apply_answers_put_and_get() {
    let mut shard: Shard<u64, u64> = Shard::new(0, 1);
    assert!(matches!(shard.apply(Request::GET(7)), Reply::Fetched(None)));
    assert!(matches!(shard.apply(Request::PUT(7, 42)), Reply::Stored(None)));
    assert!(matches!(shard.apply(Request::GET(7)), Reply::Fetched(Some(42))));
    assert!(matches!(shard.apply(Request::PUT(7, 43)), Reply::Stored(Some(42))));
    assert!(matches!(shard.apply(Request::GET(7)), Reply::Fetched(Some(43))));
    assert_eq!(shard.get(&7), Some(&43));
}

#[test]
fn apply_all_keeps_the_order() {
    let mut shard: Shard<u64, u64> = Shard::new(0, 3);
    let batch = vec![
        (1, Request::GET(5)),
        (1, Request::PUT(5, 50)),
        (2, Request::GET(5)),
        (2, Request::PUT(5, 51)),
        (2, Request::GET(5)),
    ];
    let replies = shard.apply_all(batch);
    assert_eq!(replies.len(), 5);
    assert!(matches!(replies[0], (1, Reply::Fetched(None))));
    assert!(matches!(replies[1], (1, Reply::Stored(None))));
    assert!(matches!(replies[2], (2, Reply::Fetched(Some(50)))));
    assert!(matches!(replies[3], (2, Reply::Stored(Some(50)))));
    assert!(matches!(replies[4], (2, Reply::Fetched(Some(51)))));
    assert_eq!(shard.get(&5), Some(&51));
}

#[test]
fn apply_all_of_nothing_changes_nothing() {
    let mut shard: Shard<u64, u64> = Shard::new(0, 3);
    shard.insert(1, 1);
    assert!(shard.apply_all(Vec::new()).is_empty());
    assert_eq!(shard.get(&1), Some(&1));
}

#[test]
fn send_verdict_reports_full_channel() {
    assert_eq!(send_verdict::<u8>(None), Ok(()));
    assert_eq!(send_verdict(Some(3u8)), Err(KVError::ChannelFull));
}

#[test]
fn only_a_full_channel_is_worth_a_retry() {
    assert!(KVError::ChannelFull.is_retryable());
    assert!(!KVError::NoSuchPeer.is_retryable());
    assert!(!KVError::Unavailable.is_retryable());
    assert!(!KVError::NoCoresDetected.is_retryable());
    assert!(!KVError::WorkerFailure.is_retryable());
}

#[test]
fn every_failure_has_its_own_words() {
    assert_eq!(KVError::Unavailable.message(), "core enumeration is unavailable");
    assert_eq!(KVError::ChannelFull.message(), "channel is full");
    assert_eq!(KVError::NoSuchPeer.message(), "no such peer");
    assert_eq!(KVError::NoCoresDetected.message(), "no cores detected");
    assert_eq!(KVError::WorkerFailure.message(), "a worker failed");
}

#[test]
fn an_unsigned_key_hashes_to_itself() {
    assert_eq!(7u8.hash_code(), 7);
    assert_eq!(u8::MAX.hash_code(), 255);
    assert_eq!(300u16.hash_code(), 300);
    assert_eq!(70_000u32.hash_code(), 70_000);
    assert_eq!(u64::MAX.hash_code(), u64::MAX);
    assert_eq!(12usize.hash_code(), 12);
    assert_eq!(5u128.hash_code(), 5);
}

#[test]
fn other_keys_hash_to_their_lowest_bits() {
    assert_eq!(((1u128 << 64) + 9).hash_code(), 9);
    assert_eq!(u128::MAX.hash_code(), u64::MAX);
    assert_eq!(3i8.hash_code(), 3);
    assert_eq!((-1i8).hash_code(), u64::MAX);
    assert_eq!((-2i16).hash_code(), u64::MAX - 1);
    assert_eq!(i32::MIN.hash_code(), 0xffff_ffff_8000_0000);
    assert_eq!((-1i64).hash_code(), u64::MAX);
    assert_eq!(i64::MAX.hash_code(), 0x7fff_ffff_ffff_ffff);
    assert_eq!((-1i128).hash_code(), u64::MAX);
    assert_eq!(7isize.hash_code(), 7);
    assert_eq!(true.hash_code(), 1);
    assert_eq!(false.hash_code(), 0);
}

#[test]
fn shards_take_signed_keys() {
    let mut shard: Shard<i64, bool> = Shard::new(0, 1);
    assert_eq!(shard.insert(-5, true), None);
    assert_eq!(shard.get(&-5), Some(&true));
    assert_eq!(shard.get(&5), None);
}

#[test]
fn insert_leaves_the_slots_alone() {
    let mut shard: Shard<u64, u64> = Shard::new(1, 3);
    shard.insert(1, 1);
    assert_eq!(shard.peer_count(), 3);
    for peer in 0..4 {
        assert_eq!(shard.outbound_to(peer), None);
        assert_eq!(shard.inbound_from(peer), None);
    }
}

#[test]
fn shards_take_keys_and_values_of_other_types() {
    let mut shard: Shard<u8, String> = Shard::new(0, 1);
    assert_eq!(shard.insert(1, String::from("one")), None);
    assert!(matches!(shard.apply(Request::GET(1)), Reply::Fetched(Some(ref s)) if s == "one"));
    assert_eq!(shard.insert(1, String::from("eins")), Some(String::from("one")));
    assert_eq!(shard.get(&1).map(String::as_str), Some("eins"));
}

#[test]
fn a_waiting_request_is_filed_under_its_sender() {
    let mut batch: Vec<(usize, Request<u64, u64>)> = Vec::new();
    assert!(file_waiting(&mut batch, 2, Some(Request::PUT(1, 10))));
    assert!(file_waiting(&mut batch, 2, Some(Request::GET(1))));
    assert!(!file_waiting(&mut batch, 2, None));
    assert!(file_waiting(&mut batch, 3, Some(Request::GET(4))));
    assert_eq!(batch.len(), 3);
    assert!(matches!(batch[0], (2, Request::PUT(1, 10))));
    assert!(matches!(batch[1], (2, Request::GET(1))));
    assert!(matches!(batch[2], (3, Request::GET(4))));
}
