//! Cores and sets of cores, as plain values.
//!
//! The platform is asked elsewhere; here stands what is computed from its
//! answers and what is handed to it.

use crate::error::KVError;
use vstd::prelude::*;
use vstd::std_specs::convert::FromSpecImpl;

verus! {

/// The number of cores that a [`CpuSet`] can tell apart.
pub const CPU_SETSIZE: usize = 1024;

/// This represents a CPU core.
#[derive(Copy, Clone, Debug, PartialEq, Eq, PartialOrd, Ord, Hash, Structural)]
pub struct CoreId {
    pub id: usize,
}

impl From<usize> for CoreId {
    fn from(value: usize) -> (core: CoreId) {
        CoreId { id: value }
    }
}

impl FromSpecImpl<usize> for CoreId {
    open spec fn obeys_from_spec() -> bool {
        true
    }

    open spec fn from_spec(value: usize) -> CoreId {
        CoreId { id: value }
    }
}

/// A set of cores, each named by a number below [`CPU_SETSIZE`].
pub struct CpuSet {
    flags: Vec<bool>,
}

impl View for CpuSet {
    type V = Set<int>;

    /// The numbers of the cores in the set.
    closed spec fn view(&self) -> Set<int> {
        members_below(self.flags@, self.flags@.len() as int)
    }
}

/// The positions below `limit` at which `flags` holds `true`.
pub open spec fn members_below(flags: Seq<bool>, limit: int) -> Set<int> {
    Set::new(|c: int| 0 <= c < limit && c < flags.len() && flags[c])
}

/// `members_below` grows by at most the one position that the limit passes.
proof fn lemma_members_step(flags: Seq<bool>, limit: int)
    requires
        0 <= limit < flags.len(),
    ensures
        members_below(flags, 0) =~= Set::<int>::empty(),
        flags[limit] ==> members_below(flags, limit + 1) =~= members_below(flags, limit).insert(
            limit,
        ),
        !flags[limit] ==> members_below(flags, limit + 1) =~= members_below(flags, limit),
        !members_below(flags, limit).contains(limit),
{
}

/// The members below a limit are finitely many, and no more than the limit.
proof fn lemma_members_finite(flags: Seq<bool>, limit: int)
    requires
        0 <= limit <= flags.len(),
    ensures
        members_below(flags, limit).finite(),
        members_below(flags, limit).len() <= limit,
    decreases limit,
{
    if limit == 0 {
        assert(members_below(flags, 0) =~= Set::<int>::empty());
    } else {
        lemma_members_finite(flags, limit - 1);
        lemma_members_step(flags, limit - 1);
    }
}

impl CpuSet {
    #[verifier::type_invariant]
    spec fn sized(&self) -> bool {
        self.flags@.len() == CPU_SETSIZE
    }

    /// The set without any core.
    pub fn new() -> (set: CpuSet)
        ensures
            set@ == Set::<int>::empty(),
    {
        let mut flags: Vec<bool> = Vec::new();
        let mut n: usize = 0;
        while n < CPU_SETSIZE
            invariant
                n <= CPU_SETSIZE,
                flags@.len() == n,
                forall|c: int| 0 <= c < n ==> !flags@[c],
            decreases CPU_SETSIZE - n,
        {
            flags.push(false);
            n = n + 1;
        }
        let set = CpuSet { flags };
        assert(set@ =~= Set::<int>::empty());
        set
    }

    /// The set that holds `core_id` alone, if a set can hold that core at all.
    pub fn single(core_id: CoreId) -> (set: Option<CpuSet>)
        ensures
            set is Some <==> core_id.id < CPU_SETSIZE,
            set matches Some(s) ==> s@ == set![core_id.id as int],
    {
        if core_id.id < CPU_SETSIZE {
            let mut s = CpuSet::new();
            s.insert(core_id.id);
            assert(s@ =~= set![core_id.id as int]);
            Some(s)
        } else {
            None
        }
    }

    /// Puts `cpu` into the set. A number that no set can hold is refused, and
    /// the set stays as it was.
    pub fn insert(&mut self, cpu: usize) -> (accepted: bool)
        ensures
            accepted == (cpu < CPU_SETSIZE),
            accepted ==> final(self)@ == old(self)@.insert(cpu as int),
            !accepted ==> final(self)@ == old(self)@,
    {
        proof {
            use_type_invariant(&*self);
        }
        if cpu < CPU_SETSIZE {
            self.flags[cpu] = true;
            assert(self@ =~= old(self)@.insert(cpu as int));
            true
        } else {
            false
        }
    }

    /// Whether `cpu` is in the set.
    pub fn contains(&self, cpu: usize) -> (present: bool)
        ensures
            present == self@.contains(cpu as int),
    {
        proof {
            use_type_invariant(self);
        }
        cpu < CPU_SETSIZE && self.flags[cpu]
    }

    /// How many cores the set holds.
    pub fn count(&self) -> (n: usize)
        ensures
            self@.finite(),
            n == self@.len(),
            n <= CPU_SETSIZE,
    {
        proof {
            use_type_invariant(self);
            lemma_members_finite(self.flags@, 0);
        }
        let mut n: usize = 0;
        let mut cpu: usize = 0;
        while cpu < CPU_SETSIZE
            invariant
                cpu <= CPU_SETSIZE,
                self.flags@.len() == CPU_SETSIZE,
                members_below(self.flags@, cpu as int).finite(),
                n == members_below(self.flags@, cpu as int).len(),
                n <= cpu,
            decreases CPU_SETSIZE - cpu,
        {
            proof {
                lemma_members_step(self.flags@, cpu as int);
                lemma_members_finite(self.flags@, cpu as int + 1);
            }
            if self.flags[cpu] {
                n = n + 1;
            }
            cpu = cpu + 1;
        }
        n
    }
}

/// `ids` names each core of `cores` once, the smallest number first.
pub open spec fn lists_ascending(ids: Seq<CoreId>, cores: Set<int>) -> bool {
    &&& forall|i: int, j: int| 0 <= i < j < ids.len() ==> ids[i].id < ids[j].id
    &&& forall|i: int| 0 <= i < ids.len() ==> cores.contains(#[trigger] ids[i].id as int)
    &&& forall|c: int| #[trigger]
        cores.contains(c) ==> exists|i: int| 0 <= i < ids.len() && #[trigger] ids[i].id == c
}

/// The cores on which the current thread may run, from the affinity set that
/// the platform reported: `None` stands for a platform that reported none.
pub fn get_core_ids(affinity: Option<&CpuSet>) -> (cores: Result<Vec<CoreId>, KVError>)
    ensures
        affinity is None <==> cores is Err,
        cores matches Err(e) ==> e == KVError::Unavailable,
        cores matches Ok(ids) ==> lists_ascending(ids@, affinity.unwrap()@) && ids@.len()
            == affinity.unwrap()@.len(),
{
    match affinity {
        None => Err(KVError::Unavailable),
        Some(full_set) => {
            proof {
                use_type_invariant(full_set);
                lemma_members_finite(full_set.flags@, 0);
            }
            let mut core_ids: Vec<CoreId> = Vec::new();
            let mut i: usize = 0;
            while i < CPU_SETSIZE
                invariant
                    i <= CPU_SETSIZE,
                    full_set.flags@.len() == CPU_SETSIZE,
                    lists_ascending(core_ids@, members_below(full_set.flags@, i as int)),
                    members_below(full_set.flags@, i as int).finite(),
                    core_ids@.len() == members_below(full_set.flags@, i as int).len(),
                decreases CPU_SETSIZE - i,
            {
                proof {
                    lemma_members_step(full_set.flags@, i as int);
                    lemma_members_finite(full_set.flags@, i as int + 1);
                }
                if full_set.flags[i] {
                    let ghost before = core_ids@;
                    core_ids.push(CoreId { id: i });
                    proof {
                        let now = members_below(full_set.flags@, i as int + 1);
                        assert forall|c: int| #[trigger] now.contains(c) implies exists|k: int|
                            0 <= k < core_ids@.len() && #[trigger] core_ids@[k].id == c by {
                            if c == i {
                                assert(core_ids@[before.len() as int].id == c);
                            } else {
                                assert(members_below(full_set.flags@, i as int).contains(c));
                                let k = choose|k: int|
                                    0 <= k < before.len() && #[trigger] before[k].id == c;
                                assert(core_ids@[k].id == c);
                            }
                        }
                        assert forall|a: int, b: int| 0 <= a < b < core_ids@.len() implies core_ids@[a].id
                            < core_ids@[b].id by {
                            if b == before.len() {
                                assert(members_below(full_set.flags@, i as int).contains(
                                    before[a].id as int,
                                ));
                            }
                        }
                    }
                }
                i = i + 1;
            }
            Ok(core_ids)
        },
    }
}

/// Whether the current thread is pinned to `core_id`, from what the platform
/// answered when it was asked to install [`CpuSet::single`] of that core:
/// zero for done, `None` if it was never asked.
pub fn set_for_current(core_id: CoreId, status: Option<i32>) -> (pinned: bool)
    ensures
        pinned == (core_id.id < CPU_SETSIZE && status == Some(0i32)),
{
    match status {
        Some(res) => core_id.id < CPU_SETSIZE && res == 0,
        None => false,
    }
}

} // verus!
