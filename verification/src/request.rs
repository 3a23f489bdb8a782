//! Requests, the replies to them, and what a request does to a store.

use std::hash::Hash;
use vstd::prelude::*;
use vstd::std_specs::hash::obeys_key_model;

verus! {

/// A key of the store. Its hash decides which shard owns it. An unsigned
/// number is its own hash; a number of another kind is hashed to its lowest
/// 64 bits, read as unsigned.
pub trait Key: Hash + Eq + Send + Sync + 'static {
    /// The hash of the key. Equal keys have equal hashes, today and tomorrow.
    spec fn shard_hash(&self) -> u64;

    /// Computes [`Self::shard_hash`].
    fn hash_code(&self) -> (hash: u64)
        ensures
            hash == self.shard_hash(),
    ;

    /// The keys behave in a hash map as values do in a mathematical map.
    proof fn key_model()
        ensures
            obeys_key_model::<Self>(),
    ;
}

impl Key for u8 {
    open spec fn shard_hash(&self) -> u64 {
        *self as u64
    }

    fn hash_code(&self) -> (hash: u64) {
        *self as u64
    }

    proof fn key_model() {
    }
}

impl Key for u16 {
    open spec fn shard_hash(&self) -> u64 {
        *self as u64
    }

    fn hash_code(&self) -> (hash: u64) {
        *self as u64
    }

    proof fn key_model() {
    }
}

impl Key for u32 {
    open spec fn shard_hash(&self) -> u64 {
        *self as u64
    }

    fn hash_code(&self) -> (hash: u64) {
        *self as u64
    }

    proof fn key_model() {
    }
}

impl Key for u64 {
    open spec fn shard_hash(&self) -> u64 {
        *self
    }

    fn hash_code(&self) -> (hash: u64) {
        *self
    }

    proof fn key_model() {
    }
}

impl Key for usize {
    open spec fn shard_hash(&self) -> u64 {
        *self as u64
    }

    fn hash_code(&self) -> (hash: u64) {
        *self as u64
    }

    proof fn key_model() {
    }
}

impl Key for u128 {
    open spec fn shard_hash(&self) -> u64 {
        *self as u64
    }

    fn hash_code(&self) -> (hash: u64) {
        #[verifier::truncate]
        (*self as u64)
    }

    proof fn key_model() {
    }
}

impl Key for i8 {
    open spec fn shard_hash(&self) -> u64 {
        *self as u64
    }

    fn hash_code(&self) -> (hash: u64) {
        #[verifier::truncate]
        (*self as u64)
    }

    proof fn key_model() {
    }
}

impl Key for i16 {
    open spec fn shard_hash(&self) -> u64 {
        *self as u64
    }

    fn hash_code(&self) -> (hash: u64) {
        #[verifier::truncate]
        (*self as u64)
    }

    proof fn key_model() {
    }
}

impl Key for i32 {
    open spec fn shard_hash(&self) -> u64 {
        *self as u64
    }

    fn hash_code(&self) -> (hash: u64) {
        #[verifier::truncate]
        (*self as u64)
    }

    proof fn key_model() {
    }
}

impl Key for i64 {
    open spec fn shard_hash(&self) -> u64 {
        *self as u64
    }

    fn hash_code(&self) -> (hash: u64) {
        #[verifier::truncate]
        (*self as u64)
    }

    proof fn key_model() {
    }
}

impl Key for i128 {
    open spec fn shard_hash(&self) -> u64 {
        *self as u64
    }

    fn hash_code(&self) -> (hash: u64) {
        #[verifier::truncate]
        (*self as u64)
    }

    proof fn key_model() {
    }
}

impl Key for isize {
    open spec fn shard_hash(&self) -> u64 {
        *self as u64
    }

    fn hash_code(&self) -> (hash: u64) {
        #[verifier::truncate]
        (*self as u64)
    }

    proof fn key_model() {
    }
}

impl Key for bool {
    open spec fn shard_hash(&self) -> u64 {
        if *self {
            1
        } else {
            0
        }
    }

    fn hash_code(&self) -> (hash: u64) {
        if *self {
            1
        } else {
            0
        }
    }

    proof fn key_model() {
    }
}

/// A value of the store.
pub trait Value: Hash + Eq + Send + Sync + 'static {

}

impl<T: Hash + Eq + Send + Sync + 'static> Value for T {

}

/// What one shard asks of another.
pub enum Request<K, V> {
    /// Store the value under the key.
    PUT(K, V),
    /// Read the value under the key.
    GET(K),
}

/// What a shard answers to a request.
pub enum Reply<V> {
    /// The answer to a `PUT`: what the key held before, if anything.
    Stored(Option<V>),
    /// The answer to a `GET`: a copy of what the key holds, if anything.
    Fetched(Option<V>),
}

/// What `store` holds under `key`.
pub open spec fn lookup<K, V>(store: Map<K, V>, key: K) -> Option<V> {
    if store.contains_key(key) {
        Some(store[key])
    } else {
        None
    }
}

impl<K, V> Request<K, V> {
    /// The key that the request is about.
    pub open spec fn key(self) -> K {
        match self {
            Request::PUT(key, _) => key,
            Request::GET(key) => key,
        }
    }

    /// The store after the request was applied to `store`.
    pub open spec fn applied_to(self, store: Map<K, V>) -> Map<K, V> {
        match self {
            Request::PUT(key, value) => store.insert(key, value),
            Request::GET(_) => store,
        }
    }

    /// Whether `reply` answers the request, applied to `store`. What a `GET`
    /// hands out is a clone of the stored value.
    pub open spec fn answered_by(self, store: Map<K, V>, reply: Reply<V>) -> bool where V: Clone {
        match self {
            Request::PUT(key, _) => reply == Reply::Stored(lookup(store, key)),
            Request::GET(key) => match reply {
                Reply::Fetched(Some(copy)) => store.contains_key(key) && cloned(store[key], copy),
                Reply::Fetched(None) => !store.contains_key(key),
                Reply::Stored(_) => false,
            },
        }
    }
}

/// The store after `requests` were applied to `store`, the first one first.
pub open spec fn applied_all<K, V>(store: Map<K, V>, requests: Seq<Request<K, V>>) -> Map<K, V>
    decreases requests.len(),
{
    if requests.len() == 0 {
        store
    } else {
        requests.last().applied_to(applied_all(store, requests.drop_last()))
    }
}

/// A value that was stored is what a later read finds, as long as no request
/// in between stores under the same key.
pub proof fn lemma_stored_value_stays<K, V>(
    store: Map<K, V>,
    key: K,
    value: V,
    later: Seq<Request<K, V>>,
)
    requires
        forall|i: int|
            0 <= i < later.len() ==> !(#[trigger] later[i] is PUT && later[i].key() == key),
    ensures
        lookup(applied_all(store.insert(key, value), later), key) == Some(value),
    decreases later.len(),
{
    if later.len() > 0 {
        let earlier = later.drop_last();
        assert forall|i: int| 0 <= i < earlier.len() implies !(#[trigger] earlier[i] is PUT
            && earlier[i].key() == key) by {
            assert(earlier[i] == later[i]);
        }
        lemma_stored_value_stays(store, key, value, earlier);
        assert(!(later.last() is PUT && later.last().key() == key));
    }
}

/// Applying one more request is applying the others first.
pub proof fn lemma_applied_all_push<K, V>(
    store: Map<K, V>,
    requests: Seq<Request<K, V>>,
    next: Request<K, V>,
)
    ensures
        applied_all(store, requests.push(next)) == next.applied_to(applied_all(store, requests)),
{
    assert(requests.push(next).drop_last() =~= requests);
}

/// Applying two runs of requests one after the other is applying them as one.
pub proof fn lemma_applied_all_concat<K, V>(
    store: Map<K, V>,
    first: Seq<Request<K, V>>,
    second: Seq<Request<K, V>>,
)
    ensures
        applied_all(store, first + second) == applied_all(applied_all(store, first), second),
    decreases second.len(),
{
    if second.len() == 0 {
        assert(first + second =~= first);
    } else {
        lemma_applied_all_concat(store, first, second.drop_last());
        assert((first + second).drop_last() =~= first + second.drop_last());
    }
}

/// Requests are applied in their order: a `GET` that comes after a `PUT` under
/// the same key, with no other `PUT` under that key between the two, is
/// answered with a copy of the value that was put.
pub proof fn lemma_get_sees_earlier_put<K, V: Clone>(
    store: Map<K, V>,
    requests: Seq<Request<K, V>>,
    put: int,
    get: int,
    reply: Reply<V>,
)
    requires
        0 <= put < get < requests.len(),
        requests[put] is PUT,
        requests[get] is GET,
        requests[get].key() == requests[put].key(),
        forall|i: int|
            put < i < get ==> !(#[trigger] requests[i] is PUT && requests[i].key()
                == requests[put].key()),
        requests[get].answered_by(applied_all(store, requests.take(get)), reply),
    ensures
        reply matches Reply::Fetched(Some(copy)) && requests[put] matches Request::PUT(_, value)
            && cloned(value, copy),
{
    let key = requests[put].key();
    let value = requests[put]->PUT_1;
    let before = requests.take(put);
    let between = requests.subrange(put + 1, get);
    assert(requests.take(get) =~= before.push(requests[put]) + between);
    lemma_applied_all_concat(store, before.push(requests[put]), between);
    lemma_applied_all_push(store, before, requests[put]);
    lemma_stored_value_stays(applied_all(store, before), key, value, between);
}

} // verus!
