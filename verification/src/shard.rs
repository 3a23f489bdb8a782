//! One shard: a part of the keyspace, and the channel ends that reach its peers.

use crate::channel::{label_of, ChannelLabel, Inbound, Outbound, CHANNEL_CAPACITY};
use crate::error::KVError;
use crate::request::{applied_all, lemma_applied_all_push, lookup, Key, Reply, Request, Value};
use std::collections::HashMap;
use vstd::prelude::*;

verus! {

/// A part of the keyspace with its channel ends. The slot of a peer holds the
/// end of the channel to or from that peer; a shard has no channel to itself.
#[verifier::reject_recursive_types(K)]
#[verifier::reject_recursive_types(V)]
pub struct Shard<K, V> {
    id: usize,
    data: HashMap<K, V>,
    out_vec: Vec<Option<Outbound<Request<K, V>>>>,
    in_vec: Vec<Option<Inbound<Request<K, V>>>>,
}

impl<K, V> View for Shard<K, V> {
    type V = Map<K, V>;

    /// What the shard stores.
    closed spec fn view(&self) -> Map<K, V> {
        self.data@
    }
}

/// The requests of a batch, without their senders.
pub open spec fn requests_of<K, V>(batch: Seq<(usize, Request<K, V>)>) -> Seq<Request<K, V>> {
    batch.map_values(|entry: (usize, Request<K, V>)| entry.1)
}

/// How many of the first `limit` slots hold something.
pub open spec fn filled_below<T>(slots: Seq<Option<T>>, limit: int) -> nat
    decreases limit,
{
    if limit <= 0 {
        0
    } else {
        filled_below(slots, limit - 1) + if limit <= slots.len() && slots[limit - 1] is Some {
            1nat
        } else {
            0nat
        }
    }
}

/// Where all slots but one are filled, one less than all are.
proof fn lemma_filled_but_one<T>(slots: Seq<Option<T>>, hole: int, limit: int)
    requires
        0 <= limit <= slots.len(),
        forall|i: int| 0 <= i < slots.len() ==> (slots[i] is Some <==> i != hole),
    ensures
        filled_below(slots, limit) == if 0 <= hole < limit {
            limit - 1
        } else {
            limit
        },
    decreases limit,
{
    if limit > 0 {
        lemma_filled_but_one(slots, hole, limit - 1);
    }
}

impl<K, V> Shard<K, V> {
    /// The number of the shard.
    pub closed spec fn spec_id(&self) -> usize {
        self.id
    }

    /// The sending slots: slot `dst` holds the sending end of the channel to
    /// shard `dst`, if the shard has one.
    pub closed spec fn outbound(&self) -> Seq<Option<Outbound<Request<K, V>>>> {
        self.out_vec@
    }

    /// The receiving slots: slot `src` holds the receiving end of the channel
    /// from shard `src`, if the shard has one.
    pub closed spec fn inbound(&self) -> Seq<Option<Inbound<Request<K, V>>>> {
        self.in_vec@
    }

    /// How many sending slots the shard has: one for each shard of the node.
    pub open spec fn peers(&self) -> nat {
        self.outbound().len()
    }

    /// Whether the shard holds the sending end of a channel to `dst`.
    pub open spec fn has_outbound(&self, dst: int) -> bool {
        0 <= dst < self.outbound().len() && self.outbound()[dst] is Some
    }

    /// Whether the shard holds the receiving end of a channel from `src`.
    pub open spec fn has_inbound(&self, src: int) -> bool {
        0 <= src < self.inbound().len() && self.inbound()[src] is Some
    }

    /// The label of the end in sending slot `dst`, if there is one.
    pub open spec fn outbound_label(&self, dst: int) -> Option<ChannelLabel> {
        if self.has_outbound(dst) {
            Some(self.outbound()[dst]->0@)
        } else {
            None
        }
    }

    /// The label of the end in receiving slot `src`, if there is one.
    pub open spec fn inbound_label(&self, src: int) -> Option<ChannelLabel> {
        if self.has_inbound(src) {
            Some(self.inbound()[src]->0@)
        } else {
            None
        }
    }

    /// How many channels lead away from the shard.
    pub open spec fn outbound_count(&self) -> nat {
        filled_below(self.outbound(), self.outbound().len() as int)
    }

    /// How many channels lead to the shard.
    pub open spec fn inbound_count(&self) -> nat {
        filled_below(self.inbound(), self.inbound().len() as int)
    }

    /// The shard has as many slots for receiving as for sending.
    pub open spec fn wf(&self) -> bool {
        self.inbound().len() == self.outbound().len()
    }

    /// `other` has the number of this shard, and every slot of it holds what
    /// the same slot holds here.
    pub open spec fn same_wiring(&self, other: &Self) -> bool {
        &&& self.spec_id() == other.spec_id()
        &&& self.outbound() == other.outbound()
        &&& self.inbound() == other.inbound()
    }

    /// `other` has the number and the slots of this shard, and an end of the
    /// same channel wherever this shard has an end. What the channels hold
    /// may differ.
    pub open spec fn same_links(&self, other: &Self) -> bool {
        &&& self.spec_id() == other.spec_id()
        &&& self.outbound().len() == other.outbound().len()
        &&& self.inbound().len() == other.inbound().len()
        &&& forall|peer: int| #[trigger] self.outbound_label(peer) == other.outbound_label(peer)
        &&& forall|peer: int| #[trigger] self.inbound_label(peer) == other.inbound_label(peer)
    }

    /// `after` is this shard after a request was offered to the channel to
    /// `dst`: it stores the same, no receiving slot and no other sending slot
    /// was touched, and slot `dst` holds an end of the same channel.
    pub open spec fn offered_to(&self, after: &Self, dst: int) -> bool {
        &&& after@ == self@
        &&& self.same_links(after)
        &&& after.inbound() == self.inbound()
        &&& forall|peer: int|
            0 <= peer < self.outbound().len() && peer != dst ==> #[trigger] after.outbound()[peer]
                == self.outbound()[peer]
    }

    /// The shard has as many slots each way as there are shards. Towards each
    /// shard but itself it holds the sending end of the channel from itself to
    /// that shard, and the receiving end of the channel from that shard to
    /// itself, each made for [`CHANNEL_CAPACITY`] requests. Its own slots are
    /// empty.
    pub open spec fn fully_wired(&self) -> bool {
        &&& self.wf()
        &&& forall|peer: int|
            0 <= peer < self.peers() ==> #[trigger] self.outbound_label(peer) == if peer
                == self.spec_id() {
                None
            } else {
                Some(label_of(self.spec_id(), peer as usize))
            }
        &&& forall|peer: int|
            0 <= peer < self.peers() ==> #[trigger] self.inbound_label(peer) == if peer
                == self.spec_id() {
                None
            } else {
                Some(label_of(peer as usize, self.spec_id()))
            }
    }

    /// A shard with all its channels has one each way for each shard but
    /// itself.
    pub proof fn lemma_channel_counts(&self)
        requires
            self.fully_wired(),
        ensures
            self.outbound_count() == if self.spec_id() < self.peers() {
                self.peers() - 1
            } else {
                self.peers() as int
            },
            self.inbound_count() == self.outbound_count(),
    {
        assert forall|i: int| 0 <= i < self.outbound().len() implies (self.outbound()[i] is Some
            <==> i != self.spec_id() as int) by {
            assert(self.outbound_label(i) is Some <==> i != self.spec_id());
        }
        assert forall|i: int| 0 <= i < self.inbound().len() implies (self.inbound()[i] is Some
            <==> i != self.spec_id() as int) by {
            assert(self.inbound_label(i) is Some <==> i != self.spec_id());
        }
        lemma_filled_but_one(self.outbound(), self.spec_id() as int, self.outbound().len() as int);
        lemma_filled_but_one(self.inbound(), self.spec_id() as int, self.inbound().len() as int);
    }
}

/// What a sender is told, from what the channel did with the request: a
/// channel that took it reports nothing, a full one hands it back.
pub fn send_verdict<T>(refused: Option<T>) -> (verdict: Result<(), KVError>)
    ensures
        verdict == if refused is None {
            Ok::<(), KVError>(())
        } else {
            Err::<(), KVError>(KVError::ChannelFull)
        },
{
    match refused {
        None => Ok(()),
        Some(_) => Err(KVError::ChannelFull),
    }
}

/// The batch after the channel from `src` was asked once: a request that
/// waited there stands at the end, under its sender, and an empty channel
/// leaves the batch as it was.
pub open spec fn filed<K, V>(
    batch: Seq<(usize, Request<K, V>)>,
    src: usize,
    waiting: Option<Request<K, V>>,
) -> Seq<(usize, Request<K, V>)> {
    match waiting {
        Some(request) => batch.push((src, request)),
        None => batch,
    }
}

/// Files what the channel from `src` handed out when it was asked once, and
/// says whether it is worth asking again: it is after a request, and it is
/// not after an empty answer.
pub fn file_waiting<K, V>(
    batch: &mut Vec<(usize, Request<K, V>)>,
    src: usize,
    waiting: Option<Request<K, V>>,
) -> (more: bool)
    ensures
        final(batch)@ == filed(old(batch)@, src, waiting),
        more == waiting is Some,
{
    match waiting {
        Some(request) => {
            batch.push((src, request));
            true
        },
        None => false,
    }
}

/// The senders of `batch` never go down, each has a channel into `shard`, and
/// no sender fills more than one channel's worth of it.
pub open spec fn fair_batch<K, V>(batch: Seq<(usize, Request<K, V>)>, shard: &Shard<K, V>) -> bool {
    &&& forall|i: int| 0 <= i < batch.len() ==> shard.has_inbound(#[trigger] batch[i].0 as int)
    &&& forall|i: int, j: int| 0 <= i <= j < batch.len() ==> batch[i].0 <= batch[j].0
    &&& forall|i: int, j: int|
        0 <= i && i + CHANNEL_CAPACITY <= j < batch.len() ==> batch[i].0 < batch[j].0
}

impl<K: Key, V: Value> Shard<K, V> {
    /// A shard that stores nothing and has `num_cores` empty slots each way.
    pub fn new(id: usize, num_cores: usize) -> (shard: Self)
        ensures
            shard@ == Map::<K, V>::empty(),
            shard.spec_id() == id,
            shard.peers() == num_cores,
            shard.wf(),
            forall|peer: int| !shard.has_outbound(peer) && !shard.has_inbound(peer),
    {
        let mut out_vec: Vec<Option<Outbound<Request<K, V>>>> = Vec::new();
        let mut in_vec: Vec<Option<Inbound<Request<K, V>>>> = Vec::new();
        let mut n: usize = 0;
        while n < num_cores
            invariant
                n <= num_cores,
                out_vec@.len() == n,
                in_vec@.len() == n,
                forall|i: int| 0 <= i < n ==> out_vec@[i] is None && in_vec@[i] is None,
            decreases num_cores - n,
        {
            out_vec.push(None);
            in_vec.push(None);
            n = n + 1;
        }
        Shard { id, data: HashMap::new(), out_vec, in_vec }
    }

    /// The number of the shard.
    pub fn id(&self) -> (id: usize)
        ensures
            id == self.spec_id(),
    {
        self.id
    }

    /// How many slots the shard has each way.
    pub fn peer_count(&self) -> (n: usize)
        ensures
            n == self.peers(),
    {
        self.out_vec.len()
    }

    /// The label of the end in sending slot `dst`, if there is one.
    pub fn outbound_to(&self, dst: usize) -> (label: Option<ChannelLabel>)
        ensures
            label == self.outbound_label(dst as int),
    {
        if dst >= self.out_vec.len() {
            return None;
        }
        match &self.out_vec[dst] {
            Some(end) => Some(end.label()),
            None => None,
        }
    }

    /// The label of the end in receiving slot `src`, if there is one.
    pub fn inbound_from(&self, src: usize) -> (label: Option<ChannelLabel>)
        ensures
            label == self.inbound_label(src as int),
    {
        if src >= self.in_vec.len() {
            return None;
        }
        match &self.in_vec[src] {
            Some(end) => Some(end.label()),
            None => None,
        }
    }

    /// Puts the sending end of the channel to `dst` into its slot.
    pub(crate) fn connect_outbound(&mut self, dst: usize, end: Outbound<Request<K, V>>)
        requires
            dst < old(self).peers(),
        ensures
            final(self)@ == old(self)@,
            final(self).spec_id() == old(self).spec_id(),
            final(self).outbound() == old(self).outbound().update(dst as int, Some(end)),
            final(self).inbound() == old(self).inbound(),
    {
        self.out_vec[dst] = Some(end);
    }

    /// Puts the receiving end of the channel from `src` into its slot.
    pub(crate) fn connect_inbound(&mut self, src: usize, end: Inbound<Request<K, V>>)
        requires
            src < old(self).inbound().len(),
        ensures
            final(self)@ == old(self)@,
            final(self).spec_id() == old(self).spec_id(),
            final(self).outbound() == old(self).outbound(),
            final(self).inbound() == old(self).inbound().update(src as int, Some(end)),
    {
        self.in_vec[src] = Some(end);
    }

    /// Stores `value` under `key` and hands back what the key held before.
    pub fn insert(&mut self, key: K, value: V) -> (previous: Option<V>)
        ensures
            final(self)@ == old(self)@.insert(key, value),
            previous == lookup(old(self)@, key),
            old(self).same_wiring(final(self)),
    {
        proof {
            K::key_model();
        }
        self.data.insert(key, value)
    }

    /// What the shard holds under `key`.
    pub fn get(&self, key: &K) -> (found: Option<&V>)
        ensures
            found == match lookup(self@, *key) {
                Some(value) => Some(&value),
                None => None,
            },
    {
        proof {
            K::key_model();
        }
        self.data.get(key)
    }

    /// Hands `request` to the channel that leads to shard `dst`, without
    /// waiting. Where there is no such channel the answer is `NoSuchPeer`, and
    /// nothing was touched. Where there is one, it alone is asked, and it
    /// decides: it takes the request, or it is full and the answer is
    /// `ChannelFull`, as [`send_verdict`] says.
    pub fn send(&mut self, dst: usize, request: Request<K, V>) -> (sent: Result<(), KVError>)
        ensures
            !old(self).has_outbound(dst as int) ==> sent == Err::<(), KVError>(KVError::NoSuchPeer)
                && old(self).same_wiring(final(self)),
            old(self).has_outbound(dst as int) ==> sent == Ok::<(), KVError>(()) || sent == Err::<
                (),
                KVError,
            >(KVError::ChannelFull),
            old(self).offered_to(final(self), dst as int),
    {
        if dst >= self.out_vec.len() {
            return Err(KVError::NoSuchPeer);
        }
        let sent = match &mut self.out_vec[dst] {
            Some(end) => send_verdict(end.offer(request)),
            None => Err(KVError::NoSuchPeer),
        };
        proof {
            assert forall|peer: int| #[trigger]
                old(self).outbound_label(peer) == self.outbound_label(peer) by {
                if peer != dst {
                    assert(self.out_vec@[peer] == old(self).out_vec@[peer] || !(0 <= peer
                        < self.out_vec@.len()));
                }
            }
            if !old(self).has_outbound(dst as int) {
                assert(self.out_vec@ =~= old(self).out_vec@);
            }
        }
        sent
    }

    /// Applies one request to the store and answers it.
    pub fn apply(&mut self, request: Request<K, V>) -> (reply: Reply<V>) where V: Clone
        ensures
            final(self)@ == request.applied_to(old(self)@),
            request.answered_by(old(self)@, reply),
            old(self).same_wiring(final(self)),
    {
        match request {
            Request::PUT(key, value) => Reply::Stored(self.insert(key, value)),
            Request::GET(key) => {
                let copy = match self.get(&key) {
                    Some(value) => Some(value.clone()),
                    None => None,
                };
                Reply::Fetched(copy)
            },
        }
    }

    /// Takes the requests that wait in the channels into the shard: peer after
    /// peer, the lowest number first, and from each channel in the order in
    /// which they were sent, until it is empty or one channel's worth was
    /// taken. No peer can thus keep the others waiting. What waits is for the
    /// senders to decide, so an empty batch is an ordinary outcome; what
    /// becomes of each answer of a channel is said by [`file_waiting`].
    pub fn drain(&mut self) -> (batch: Vec<(usize, Request<K, V>)>)
        ensures
            fair_batch(batch@, old(self)),
            final(self)@ == old(self)@,
            old(self).same_links(final(self)),
            final(self).outbound() == old(self).outbound(),
    {
        let ghost start = *self;
        let mut batch: Vec<(usize, Request<K, V>)> = Vec::new();
        let mut src: usize = 0;
        while src < self.in_vec.len()
            invariant
                self@ == start@,
                self.in_vec@.len() == start.in_vec@.len(),
                self.out_vec@ == start.out_vec@,
                start.same_links(self),
                fair_batch(batch@, &start),
                forall|i: int| 0 <= i < batch@.len() ==> batch@[i].0 < src,
            decreases self.in_vec.len() - src,
        {
            let ghost base = batch@.len();
            let mut taken: usize = 0;
            let mut more = true;
            while more && taken < CHANNEL_CAPACITY
                invariant
                    src < self.in_vec.len(),
                    self@ == start@,
                    self.in_vec@.len() == start.in_vec@.len(),
                    self.out_vec@ == start.out_vec@,
                    start.same_links(self),
                    fair_batch(batch@, &start),
                    taken <= CHANNEL_CAPACITY,
                    batch@.len() == base + taken,
                    forall|i: int| 0 <= i < base ==> batch@[i].0 < src,
                    forall|i: int| base <= i < batch@.len() ==> batch@[i].0 == src,
                decreases CHANNEL_CAPACITY - taken + if more {
                        1int
                    } else {
                        0int
                    },
            {
                let ghost before = *self;
                let waiting = match &mut self.in_vec[src] {
                    Some(end) => end.poll(),
                    None => None,
                };
                proof {
                    assert forall|peer: int| #[trigger]
                        before.inbound_label(peer) == self.inbound_label(peer) by {
                        if peer != src {
                            assert(self.in_vec@[peer] == before.in_vec@[peer] || !(0 <= peer
                                < self.in_vec@.len()));
                        }
                    }
                    if waiting is Some {
                        assert(self.has_inbound(src as int));
                        assert(start.inbound_label(src as int) == self.inbound_label(src as int));
                    }
                }
                more = file_waiting(&mut batch, src, waiting);
                if more {
                    taken = taken + 1;
                }
            }
            src = src + 1;
        }
        batch
    }

    /// Applies the requests of `batch` in their order and answers each. The
    /// answer to a request stands where the request stood, under its sender.
    pub fn apply_all(&mut self, batch: Vec<(usize, Request<K, V>)>) -> (replies: Vec<
        (usize, Reply<V>),
    >) where V: Clone
        ensures
            final(self)@ == applied_all(old(self)@, requests_of(batch@)),
            replies@.len() == batch@.len(),
            forall|i: int|
                0 <= i < batch@.len() ==> (#[trigger] replies@[i]).0 == batch@[i].0
                    && batch@[i].1.answered_by(
                    applied_all(old(self)@, requests_of(batch@).take(i)),
                    replies@[i].1,
                ),
            old(self).same_wiring(final(self)),
    {
        let ghost start = *self;
        let ghost requests = requests_of(batch@);
        let ghost whole = batch@;
        let mut replies: Vec<(usize, Reply<V>)> = Vec::new();
        proof {
            assert(requests.take(0) =~= Seq::<Request<K, V>>::empty());
        }
        for entry in it: batch
            invariant
                it.seq() == whole,
                requests == requests_of(whole),
                start.same_wiring(self),
                self@ == applied_all(start@, requests.take(it.index() as int)),
                replies@.len() == it.index(),
                forall|i: int|
                    0 <= i < it.index() ==> (#[trigger] replies@[i]).0 == whole[i].0
                        && whole[i].1.answered_by(
                        applied_all(start@, requests.take(i)),
                        replies@[i].1,
                    ),
        {
            let ghost done = it.index() as int;
            let (src, request) = entry;
            proof {
                assert(requests.take(done + 1) =~= requests.take(done).push(request));
                lemma_applied_all_push(start@, requests.take(done), request);
            }
            let reply = self.apply(request);
            replies.push((src, reply));
        }
        proof {
            assert(requests.take(whole.len() as int) =~= requests);
        }
        replies
    }

    /// One pass over the channels: [`Self::drain`], then [`Self::apply_all`]
    /// on what was found. The answers come back in the order in which the
    /// requests were applied.
    pub fn sweep(&mut self) -> (replies: Vec<(usize, Reply<V>)>) where V: Clone
        ensures
            old(self).same_links(final(self)),
            final(self).outbound() == old(self).outbound(),
            exists|batch: Seq<(usize, Request<K, V>)>|
                {
                    &&& fair_batch(batch, old(self))
                    &&& #[trigger] applied_all(old(self)@, requests_of(batch)) == final(self)@
                    &&& replies@.len() == batch.len()
                    &&& forall|i: int|
                        0 <= i < batch.len() ==> (#[trigger] replies@[i]).0 == batch[i].0
                            && batch[i].1.answered_by(
                            applied_all(old(self)@, requests_of(batch).take(i)),
                            replies@[i].1,
                        )
                },
    {
        let batch = self.drain();
        let ghost found = batch@;
        let replies = self.apply_all(batch);
        assert(applied_all(old(self)@, requests_of(found)) == self@);
        replies
    }
}

} // verus!
