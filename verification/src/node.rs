//! The node: all the shards of one process, and a channel for every ordered
//! pair of them.

use crate::channel::{label_of, link, CHANNEL_CAPACITY};
use crate::error::KVError;
use crate::lifecycle::{Lifecycle, LifecycleView};
use crate::request::{Key, Reply, Request, Value};
use crate::shard::Shard;
use vstd::layout::size_of;
use vstd::prelude::*;

verus! {

/// The number of shards of a node on a machine with `detected_cores` cores:
/// that many, and at least the lower bound where one is given.
pub open spec fn shard_count(detected_cores: usize, min_shard_count: Option<usize>) -> usize {
    match min_shard_count {
        Some(floor) => if detected_cores >= floor {
            detected_cores
        } else {
            floor
        },
        None => detected_cores,
    }
}

/// The shard that owns the keys with this hash, where there are
/// `shard_count` shards.
pub open spec fn owner_of(hash: u64, shard_count: usize) -> int {
    hash as int % shard_count as int
}

/// Shard `i` of `shards` has the number `i`, and for every pair of distinct
/// shards `i` and `j` the two ends of the channel from `i` to `j` sit where
/// they belong: the sending end in sending slot `j` of shard `i`, the
/// receiving end in receiving slot `i` of shard `j`. No shard has a channel
/// to itself.
pub open spec fn full_mesh<K, V>(shards: Seq<Shard<K, V>>) -> bool {
    forall|i: int|
        0 <= i < shards.len() ==> {
            &&& (#[trigger] shards[i]).spec_id() == i
            &&& shards[i].peers() == shards.len()
            &&& shards[i].fully_wired()
        }
}

/// How many channels lead away from the first `limit` of `shards`.
pub open spec fn channel_count<K, V>(shards: Seq<Shard<K, V>>, limit: int) -> nat
    decreases limit,
{
    if limit <= 0 || limit > shards.len() {
        0
    } else {
        channel_count(shards, limit - 1) + shards[limit - 1].outbound_count()
    }
}

/// How many channels lead to the first `limit` of `shards`.
pub open spec fn inbound_channel_count<K, V>(shards: Seq<Shard<K, V>>, limit: int) -> nat
    decreases limit,
{
    if limit <= 0 || limit > shards.len() {
        0
    } else {
        inbound_channel_count(shards, limit - 1) + shards[limit - 1].inbound_count()
    }
}

/// `after` stores what `before` stores, shard by shard, and has an end of the
/// same channel in every slot in which `before` has one.
pub open spec fn same_stores<K, V>(before: Seq<Shard<K, V>>, after: Seq<Shard<K, V>>) -> bool {
    &&& before.len() == after.len()
    &&& forall|i: int|
        0 <= i < before.len() ==> (#[trigger] before[i])@ == after[i]@ && before[i].same_links(
            &after[i],
        )
}

/// `after` stores what `before` stores, shard by shard, and every slot holds
/// what it held.
pub open spec fn same_shards<K, V>(before: Seq<Shard<K, V>>, after: Seq<Shard<K, V>>) -> bool {
    &&& before.len() == after.len()
    &&& forall|i: int|
        0 <= i < before.len() ==> (#[trigger] before[i])@ == after[i]@ && before[i].same_wiring(
            &after[i],
        )
}

/// The first `limit` shards of a full mesh of `n` shards send over `n - 1`
/// channels each, and receive over as many.
proof fn lemma_channel_count_below<K, V>(shards: Seq<Shard<K, V>>, limit: int)
    requires
        full_mesh(shards),
        0 <= limit <= shards.len(),
    ensures
        channel_count(shards, limit) == limit * (shards.len() - 1),
        inbound_channel_count(shards, limit) == limit * (shards.len() - 1),
    decreases limit,
{
    if limit > 0 {
        let n = shards.len() as int;
        lemma_channel_count_below(shards, limit - 1);
        let last = shards[limit - 1];
        assert(last.spec_id() == limit - 1 && last.peers() == n && last.fully_wired());
        last.lemma_channel_counts();
        assert(last.outbound_count() == n - 1);
        assert(channel_count(shards, limit) == channel_count(shards, limit - 1)
            + last.outbound_count());
        assert(inbound_channel_count(shards, limit) == inbound_channel_count(shards, limit - 1)
            + last.inbound_count());
        assert(limit * (n - 1) == (limit - 1) * (n - 1) + (n - 1)) by (nonlinear_arith);
    } else {
        assert(limit * (shards.len() - 1) == 0) by (nonlinear_arith)
            requires
                limit == 0,
        ;
    }
}

/// A full mesh of `n` shards has `n * (n - 1)` channels, counted at their
/// sending ends or at their receiving ends. Every slot of a shard towards
/// another shard is filled, and no shard has a channel to itself.
pub proof fn lemma_full_mesh_channels<K, V>(shards: Seq<Shard<K, V>>)
    requires
        full_mesh(shards),
    ensures
        channel_count(shards, shards.len() as int) == shards.len() * (shards.len() - 1),
        inbound_channel_count(shards, shards.len() as int) == shards.len() * (shards.len() - 1),
        forall|i: int, j: int|
            0 <= i < shards.len() && 0 <= j < shards.len() ==> (#[trigger] shards[i].has_outbound(j)
                <==> i != j),
        forall|i: int, j: int|
            0 <= i < shards.len() && 0 <= j < shards.len() ==> (#[trigger] shards[i].has_inbound(j)
                <==> i != j),
{
    lemma_channel_count_below(shards, shards.len() as int);
    assert forall|i: int, j: int| 0 <= i < shards.len() && 0 <= j < shards.len() implies (
    #[trigger] shards[i].has_outbound(j) <==> i != j) by {
        assert(shards[i].outbound_label(j) is Some <==> j != shards[i].spec_id());
    }
    assert forall|i: int, j: int| 0 <= i < shards.len() && 0 <= j < shards.len() implies (
    #[trigger] shards[i].has_inbound(j) <==> i != j) by {
        assert(shards[i].inbound_label(j) is Some <==> j != shards[i].spec_id());
    }
}

/// In a full mesh the two ends of the channel from `src` to `dst` are where
/// a request needs them: what shard `src` sends to `dst` goes into the channel
/// whose receiving end shard `dst` asks for requests from `src`.
pub proof fn lemma_full_mesh_connects<K, V>(shards: Seq<Shard<K, V>>, src: int, dst: int)
    requires
        full_mesh(shards),
        0 <= src < shards.len(),
        0 <= dst < shards.len(),
        src != dst,
    ensures
        shards[src].outbound_label(dst) == Some(label_of(src as usize, dst as usize)),
        shards[dst].inbound_label(src) == Some(label_of(src as usize, dst as usize)),
        forall|i: int, j: int|
            0 <= i < shards.len() && 0 <= j < shards.len() && (i != src || j != dst)
                ==> #[trigger] shards[i].outbound_label(j) != Some(
                label_of(src as usize, dst as usize),
            ),
        forall|i: int, j: int|
            0 <= i < shards.len() && 0 <= j < shards.len() && (i != dst || j != src)
                ==> #[trigger] shards[i].inbound_label(j) != Some(
                label_of(src as usize, dst as usize),
            ),
{
    assert(shards[src].spec_id() == src && shards[dst].spec_id() == dst);
    assert forall|i: int, j: int|
        0 <= i < shards.len() && 0 <= j < shards.len() && (i != src || j != dst) implies #[trigger] shards[i].outbound_label(
        j,
    ) != Some(label_of(src as usize, dst as usize)) by {
        assert(shards[i].spec_id() == i && shards[j].spec_id() == j);
        assert(shards[i].outbound_label(j) == if j == i {
            None
        } else {
            Some(label_of(i as usize, j as usize))
        });
    }
    assert forall|i: int, j: int|
        0 <= i < shards.len() && 0 <= j < shards.len() && (i != dst || j != src) implies #[trigger] shards[i].inbound_label(
        j,
    ) != Some(label_of(src as usize, dst as usize)) by {
        assert(shards[i].spec_id() == i && shards[j].spec_id() == j);
        assert(shards[i].inbound_label(j) == if j == i {
            None
        } else {
            Some(label_of(j as usize, i as usize))
        });
    }
}

/// Whether the channel from `s` to `d` is made before the one from `src` to
/// `dst`, where the channels are made source by source and, for one source,
/// destination by destination.
pub open spec fn made_before(s: int, d: int, src: int, dst: int) -> bool {
    s != d && (s < src || (s == src && d < dst))
}

/// `shard` is shard `i` of `n`: it stores nothing, and of its channels the
/// ends of those made before the one from `src` to `dst` are in their slots,
/// and no others.
spec fn row_wired<K, V>(shard: Shard<K, V>, i: int, n: int, src: int, dst: int) -> bool {
    &&& shard.spec_id() == i
    &&& shard.peers() == n
    &&& shard.wf()
    &&& shard@ == Map::<K, V>::empty()
    &&& forall|peer: int|
        0 <= peer < n ==> #[trigger] shard.outbound_label(peer) == if made_before(
            i,
            peer,
            src,
            dst,
        ) {
            Some(label_of(i as usize, peer as usize))
        } else {
            None
        }
    &&& forall|peer: int|
        0 <= peer < n ==> #[trigger] shard.inbound_label(peer) == if made_before(
            peer,
            i,
            src,
            dst,
        ) {
            Some(label_of(peer as usize, i as usize))
        } else {
            None
        }
}

/// `shards` are the first `count` shards of `n`, wired as far as the channel
/// from `src` to `dst`.
spec fn partly_wired<K, V>(shards: Seq<Shard<K, V>>, count: int, n: int, src: int, dst: int) -> bool {
    &&& shards.len() == count
    &&& forall|i: int| 0 <= i < count ==> row_wired(#[trigger] shards[i], i, n, src, dst)
}

/// The shards of one process and the state of their workers.
#[verifier::reject_recursive_types(K)]
#[verifier::reject_recursive_types(V)]
pub struct Node<K: Key, V: Value> {
    id: usize,
    num_cores: usize,
    shards: Vec<Shard<K, V>>,
    lifecycle: Lifecycle,
}

impl<K: Key, V: Value> Node<K, V> {
    /// The identifier that the node was given.
    pub closed spec fn spec_id(&self) -> usize {
        self.id
    }

    /// The number of shards, fixed when the node was made.
    pub closed spec fn spec_num_cores(&self) -> usize {
        self.num_cores
    }

    /// The shards that the node owns: all of them, or none once they were
    /// handed to their workers.
    pub closed spec fn shards_view(&self) -> Seq<Shard<K, V>> {
        self.shards@
    }

    /// The state of the workers.
    pub closed spec fn lifecycle_view(&self) -> LifecycleView {
        self.lifecycle@
    }

    /// The node has a shard count of one or more and a worker for each shard.
    /// Before the start it owns every shard, wired as a full mesh; after it, it
    /// owns none.
    pub open spec fn wf(&self) -> bool {
        &&& self.spec_num_cores() >= 1
        &&& self.lifecycle_view().wf()
        &&& self.lifecycle_view().workers == self.spec_num_cores()
        &&& if self.lifecycle_view().started {
            self.shards_view().len() == 0
        } else {
            self.shards_view().len() == self.spec_num_cores() && full_mesh(self.shards_view())
        }
    }

    /// The shard that owns `key` on this node.
    pub open spec fn route_spec(&self, key: K) -> int {
        owner_of(key.shard_hash(), self.spec_num_cores())
    }

    /// Whether the node owns shard `src` and that shard has a channel to
    /// `dst`.
    pub open spec fn links(&self, src: int, dst: int) -> bool {
        0 <= src < self.shards_view().len() && self.shards_view()[src].has_outbound(dst)
    }

    /// `after` is this node after shard `src` offered a request to its channel
    /// to `dst`: no other shard was touched, and of shard `src` nothing but
    /// that one channel.
    pub open spec fn sent_from(&self, after: &Self, src: int, dst: int) -> bool {
        &&& self.same_but_channels(after)
        &&& forall|i: int|
            0 <= i < self.shards_view().len() && i != src ==> #[trigger] after.shards_view()[i]
                == self.shards_view()[i]
        &&& 0 <= src < self.shards_view().len() ==> self.shards_view()[src].offered_to(
            &after.shards_view()[src],
            dst,
        )
    }

    /// `after` is this node with the same identifier, shard count and worker
    /// state. Every shard stores the same and has an end of the same channel
    /// in every slot in which it had one.
    pub open spec fn same_but_channels(&self, after: &Self) -> bool {
        &&& after.spec_id() == self.spec_id()
        &&& after.spec_num_cores() == self.spec_num_cores()
        &&& after.lifecycle_view() == self.lifecycle_view()
        &&& same_stores(self.shards_view(), after.shards_view())
        &&& after.wf() == self.wf()
    }

    /// Makes a node for a machine on which `detected_cores` cores were found,
    /// with at least `min_shard_count` shards where that is given. Every
    /// shard starts empty, and every ordered pair of distinct shards gets a
    /// channel of its own, made by [`link`] for that pair, with its sending
    /// end put into the first shard and its receiving end into the second. With no core found and no lower bound above zero
    /// there is nothing to make.
    pub fn new(id: usize, detected_cores: usize, min_shard_count: Option<usize>) -> (node: Result<
        Self,
        KVError,
    >)
        requires
            CHANNEL_CAPACITY * size_of::<Request<K, V>>() <= isize::MAX,
        ensures
            node is Err <==> shard_count(detected_cores, min_shard_count) == 0,
            node matches Err(e) ==> e == KVError::NoCoresDetected,
            node matches Ok(n) ==> {
                &&& n.wf()
                &&& n.spec_id() == id
                &&& n.spec_num_cores() == shard_count(detected_cores, min_shard_count)
                &&& n.lifecycle_view() == LifecycleView::fresh(n.spec_num_cores() as nat)
                &&& full_mesh(n.shards_view())
                &&& channel_count(n.shards_view(), n.spec_num_cores() as int) == n.spec_num_cores()
                    * (n.spec_num_cores() - 1)
                &&& inbound_channel_count(n.shards_view(), n.spec_num_cores() as int)
                    == n.spec_num_cores() * (n.spec_num_cores() - 1)
                &&& forall|i: int, j: int|
                    0 <= i < n.spec_num_cores() && 0 <= j < n.spec_num_cores() ==> (
                    #[trigger] n.shards_view()[i].has_outbound(j) <==> i != j)
                &&& forall|i: int, j: int|
                    0 <= i < n.spec_num_cores() && 0 <= j < n.spec_num_cores() ==> (
                    #[trigger] n.shards_view()[i].has_inbound(j) <==> i != j)
                &&& forall|i: int|
                    0 <= i < n.spec_num_cores() ==> (#[trigger] n.shards_view()[i])@ == Map::<
                        K,
                        V,
                    >::empty()
            },
    {
        let num_cores = match min_shard_count {
            Some(floor) => if detected_cores >= floor {
                detected_cores
            } else {
                floor
            },
            None => detected_cores,
        };
        if num_cores == 0 {
            return Err(KVError::NoCoresDetected);
        }
        let mut shards: Vec<Shard<K, V>> = Vec::new();
        let mut i: usize = 0;
        while i < num_cores
            invariant
                i <= num_cores,
                partly_wired(shards@, i as int, num_cores as int, 0, 0),
            decreases num_cores - i,
        {
            shards.push(Shard::new(i, num_cores));
            i = i + 1;
        }
        let mut src: usize = 0;
        while src < num_cores
            invariant
                src <= num_cores,
                CHANNEL_CAPACITY * size_of::<Request<K, V>>() <= isize::MAX,
                partly_wired(shards@, num_cores as int, num_cores as int, src as int, 0),
            decreases num_cores - src,
        {
            let mut dst: usize = 0;
            while dst < num_cores
                invariant
                    src < num_cores,
                    dst <= num_cores,
                    CHANNEL_CAPACITY * size_of::<Request<K, V>>() <= isize::MAX,
                    partly_wired(
                        shards@,
                        num_cores as int,
                        num_cores as int,
                        src as int,
                        dst as int,
                    ),
                decreases num_cores - dst,
            {
                let ghost before = shards@;
                if src != dst {
                    let (sending, receiving) = link::<Request<K, V>>(src, dst);
                    assert(row_wired(
                        before[src as int],
                        src as int,
                        num_cores as int,
                        src as int,
                        dst as int,
                    ));
                    shards[src].connect_outbound(dst, sending);
                    assert(row_wired(
                        before[dst as int],
                        dst as int,
                        num_cores as int,
                        src as int,
                        dst as int,
                    ));
                    assert(shards@[dst as int] == before[dst as int]);
                    shards[dst].connect_inbound(src, receiving);
                }
                proof {
                    assert forall|i: int| 0 <= i < num_cores implies row_wired(
                        #[trigger] shards@[i],
                        i,
                        num_cores as int,
                        src as int,
                        dst + 1,
                    ) by {
                        assert(row_wired(before[i], i, num_cores as int, src as int, dst as int));
                        if src == dst || (i != src && i != dst) {
                            assert(shards@[i] == before[i]);
                        }
                    }
                }
                dst = dst + 1;
            }
            proof {
                assert forall|i: int| 0 <= i < num_cores implies row_wired(
                    #[trigger] shards@[i],
                    i,
                    num_cores as int,
                    src + 1,
                    0,
                ) by {
                    assert(row_wired(shards@[i], i, num_cores as int, src as int, num_cores as int));
                }
            }
            src = src + 1;
        }
        proof {
            assert forall|i: int| 0 <= i < shards@.len() implies {
                &&& (#[trigger] shards@[i]).spec_id() == i
                &&& shards@[i].peers() == shards@.len()
                &&& shards@[i].fully_wired()
            } by {
                assert(row_wired(shards@[i], i, num_cores as int, num_cores as int, 0));
            }
            lemma_full_mesh_channels(shards@);
        }
        Ok(Node { id, num_cores, shards, lifecycle: Lifecycle::new(num_cores) })
    }

    /// The identifier that the node was given.
    pub fn id(&self) -> (id: usize)
        ensures
            id == self.spec_id(),
    {
        self.id
    }

    /// The number of shards.
    pub fn num_cores(&self) -> (n: usize)
        ensures
            n == self.spec_num_cores(),
    {
        self.num_cores
    }

    /// How many shards the node still owns.
    pub fn active_shards(&self) -> (n: usize)
        ensures
            n == self.shards_view().len(),
    {
        self.shards.len()
    }

    /// The state of the workers.
    pub fn lifecycle(&self) -> (state: Lifecycle)
        ensures
            state@ == self.lifecycle_view(),
    {
        self.lifecycle
    }

    /// The shard that owns `key`: the key's hash modulo the number of shards.
    /// The request plays no part in it.
    pub fn route(&self, key: &K, request: &Request<K, V>) -> (shard_id: usize)
        requires
            self.wf(),
        ensures
            shard_id == self.route_spec(*key),
            shard_id < self.spec_num_cores(),
    {
        (key.hash_code() % (self.num_cores as u64)) as usize
    }

    /// Hands `request` to the channel that leads from shard `src` to shard
    /// `dst`. Where the node owns no shard `src`, or that shard has no channel
    /// to `dst`, the answer is `NoSuchPeer`; else it is the channel's, as for
    /// [`Shard::send`]. No other shard is touched, and of shard `src` nothing
    /// but that one channel.
    pub fn send_shard(&mut self, src: usize, dst: usize, request: Request<K, V>) -> (sent: Result<
        (),
        KVError,
    >)
        ensures
            !old(self).links(src as int, dst as int) ==> sent == Err::<(), KVError>(
                KVError::NoSuchPeer,
            ),
            old(self).links(src as int, dst as int) ==> sent == Ok::<(), KVError>(()) || sent
                == Err::<(), KVError>(KVError::ChannelFull),
            old(self).sent_from(final(self), src as int, dst as int),
            !old(self).links(src as int, dst as int) ==> same_shards(
                old(self).shards_view(),
                final(self).shards_view(),
            ),
    {
        if src >= self.shards.len() {
            return Err(KVError::NoSuchPeer);
        }
        let ghost before = self.shards@;
        let sent = self.shards[src].send(dst, request);
        proof {
            lemma_mesh_survives(before, self.shards@, src as int);
        }
        sent
    }

    /// Takes `request` from the caller that stands at shard `src` and brings
    /// it to the shard that owns its key. Where that is `src` itself, the
    /// request is applied there at once and its answer comes back. Where it is
    /// another shard, the request goes into the channel to it, and the answer
    /// is that shard's to give.
    pub fn submit(&mut self, src: usize, request: Request<K, V>) -> (outcome: Result<
        Option<Reply<V>>,
        KVError,
    >) where V: Clone
        requires
            old(self).wf(),
        ensures
            final(self).wf(),
            final(self).spec_id() == old(self).spec_id(),
            final(self).spec_num_cores() == old(self).spec_num_cores(),
            final(self).lifecycle_view() == old(self).lifecycle_view(),
            final(self).shards_view().len() == old(self).shards_view().len(),
            src >= old(self).shards_view().len() ==> outcome == Err::<Option<Reply<V>>, KVError>(
                KVError::NoSuchPeer,
            ) && final(self).shards_view() == old(self).shards_view(),
            src < old(self).shards_view().len() && old(self).route_spec(request.key()) == src
                ==> {
                &&& outcome matches Ok(Some(reply))
                &&& request.answered_by(old(self).shards_view()[src as int]@, reply)
                &&& final(self).shards_view()[src as int]@ == request.applied_to(
                    old(self).shards_view()[src as int]@,
                )
                &&& old(self).shards_view()[src as int].same_wiring(
                    &final(self).shards_view()[src as int],
                )
                &&& forall|i: int|
                    0 <= i < old(self).shards_view().len() && i != src ==> #[trigger] final(self).shards_view()[i]
                        == old(self).shards_view()[i]
            },
            src < old(self).shards_view().len() && old(self).route_spec(request.key()) != src
                ==> {
                &&& outcome == Ok::<Option<Reply<V>>, KVError>(None) || outcome == Err::<
                    Option<Reply<V>>,
                    KVError,
                >(KVError::ChannelFull)
                &&& old(self).sent_from(
                    final(self),
                    src as int,
                    old(self).route_spec(request.key()),
                )
            },
    {
        if src >= self.shards.len() {
            return Err(KVError::NoSuchPeer);
        }
        let dst = match &request {
            Request::PUT(key, _) => self.route(key, &request),
            Request::GET(key) => self.route(key, &request),
        };
        let ghost before = self.shards@;
        if dst == src {
            let reply = self.shards[src].apply(request);
            proof {
                lemma_mesh_survives(before, self.shards@, src as int);
            }
            Ok(Some(reply))
        } else {
            let sent = self.shards[src].send(dst, request);
            proof {
                lemma_mesh_survives(before, self.shards@, src as int);
                assert(before[src as int].fully_wired());
                assert(before[src as int].outbound_label(dst as int) is Some);
            }
            match sent {
                Ok(()) => Ok(None),
                Err(e) => Err(e),
            }
        }
    }

    /// Hands over the shards, each to be moved into its worker, the lowest
    /// number first, and marks the workers as started. The node owns no shard
    /// from then on: a second start hands over none.
    pub fn start(&mut self) -> (shards: Vec<Shard<K, V>>)
        requires
            old(self).wf(),
        ensures
            final(self).wf(),
            shards@ == old(self).shards_view(),
            shards@.len() == old(self).lifecycle_view().to_spawn(),
            final(self).shards_view().len() == 0,
            final(self).lifecycle_view() == old(self).lifecycle_view().start(),
            final(self).spec_id() == old(self).spec_id(),
            final(self).spec_num_cores() == old(self).spec_num_cores(),
    {
        let mut shards: Vec<Shard<K, V>> = Vec::new();
        core::mem::swap(&mut shards, &mut self.shards);
        self.lifecycle.start();
        shards
    }

    /// Notes that the workers were asked to stop, and says whether this was
    /// the first time. Asking again changes nothing.
    pub fn request_shutdown(&mut self) -> (first: bool)
        ensures
            first == !old(self).lifecycle_view().stopping,
            final(self).lifecycle_view() == old(self).lifecycle_view().request_shutdown(),
            final(self).shards_view() == old(self).shards_view(),
            final(self).spec_id() == old(self).spec_id(),
            final(self).spec_num_cores() == old(self).spec_num_cores(),
            old(self).wf() ==> final(self).wf(),
    {
        self.lifecycle.request_shutdown()
    }

    /// Notes that the worker that [`Lifecycle::next_join`] names was joined,
    /// and whether it had ended in order.
    pub fn record_join(&mut self, clean: bool)
        ensures
            final(self).lifecycle_view() == old(self).lifecycle_view().join(clean),
            final(self).shards_view() == old(self).shards_view(),
            final(self).spec_id() == old(self).spec_id(),
            final(self).spec_num_cores() == old(self).spec_num_cores(),
            old(self).wf() ==> final(self).wf(),
    {
        self.lifecycle.record_join(clean)
    }
}

/// A mesh stays the mesh it is when one shard is replaced by one with ends of
/// the same channels.
proof fn lemma_mesh_survives<K, V>(before: Seq<Shard<K, V>>, after: Seq<Shard<K, V>>, at: int)
    requires
        0 <= at < before.len(),
        after.len() == before.len(),
        forall|i: int| 0 <= i < before.len() && i != at ==> #[trigger] after[i] == before[i],
        before[at].same_links(&after[at]),
    ensures
        full_mesh(before) == full_mesh(after),
        forall|i: int| 0 <= i < before.len() ==> (#[trigger] before[i]).same_links(&after[i]),
{
    assert forall|i: int| 0 <= i < before.len() implies (#[trigger] before[i]).same_links(
        &after[i],
    ) by {
        if i != at {
            assert(after[i] == before[i]);
        }
    }
    if full_mesh(before) {
        assert forall|i: int| 0 <= i < after.len() implies {
            &&& (#[trigger] after[i]).spec_id() == i
            &&& after[i].peers() == after.len()
            &&& after[i].fully_wired()
        } by {
            lemma_links_keep_wiring(before[i], after[i]);
        }
    }
    if full_mesh(after) {
        assert forall|i: int| 0 <= i < before.len() implies {
            &&& (#[trigger] before[i]).spec_id() == i
            &&& before[i].peers() == before.len()
            &&& before[i].fully_wired()
        } by {
            lemma_links_keep_wiring(before[i], after[i]);
        }
    }
}

/// Two shards with ends of the same channels are fully wired together or not
/// at all.
proof fn lemma_links_keep_wiring<K, V>(a: Shard<K, V>, b: Shard<K, V>)
    requires
        a.same_links(&b),
    ensures
        a.spec_id() == b.spec_id(),
        a.peers() == b.peers(),
        a.fully_wired() == b.fully_wired(),
{
    if a.fully_wired() {
        assert forall|peer: int| 0 <= peer < b.peers() implies #[trigger] b.outbound_label(peer)
            == if peer == b.spec_id() {
            None
        } else {
            Some(label_of(b.spec_id(), peer as usize))
        } by {
            assert(a.outbound_label(peer) == b.outbound_label(peer));
        }
        assert forall|peer: int| 0 <= peer < b.peers() implies #[trigger] b.inbound_label(peer)
            == if peer == b.spec_id() {
            None
        } else {
            Some(label_of(peer as usize, b.spec_id()))
        } by {
            assert(a.inbound_label(peer) == b.inbound_label(peer));
        }
    }
    if b.fully_wired() {
        assert forall|peer: int| 0 <= peer < a.peers() implies #[trigger] a.outbound_label(peer)
            == if peer == a.spec_id() {
            None
        } else {
            Some(label_of(a.spec_id(), peer as usize))
        } by {
            assert(a.outbound_label(peer) == b.outbound_label(peer));
        }
        assert forall|peer: int| 0 <= peer < a.peers() implies #[trigger] a.inbound_label(peer)
            == if peer == a.spec_id() {
            None
        } else {
            Some(label_of(peer as usize, a.spec_id()))
        } by {
            assert(a.inbound_label(peer) == b.inbound_label(peer));
        }
    }
}

/// The shard that owns a key depends on the key and the number of shards
/// alone: two nodes with as many shards send equal keys to the same shard.
pub proof fn lemma_route_is_deterministic<K: Key, V: Value>(
    a: &Node<K, V>,
    b: &Node<K, V>,
    key: K,
    again: K,
)
    requires
        a.spec_num_cores() == b.spec_num_cores(),
        key == again,
    ensures
        a.route_spec(key) == b.route_spec(again),
        a.spec_num_cores() >= 1 ==> 0 <= a.route_spec(key) < a.spec_num_cores(),
{
}

} // verus!
