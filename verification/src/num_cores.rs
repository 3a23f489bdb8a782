//! The number of logical cores.

use crate::core_affinity::{CpuSet, CPU_SETSIZE};
use vstd::prelude::*;

verus! {

/// The count that [`detect`] gives.
pub open spec fn detected(affinity: Option<Set<int>>, online: isize) -> int {
    match affinity {
        Some(cores) => cores.len() as int,
        None => if online < 1 {
            1
        } else {
            online as int
        },
    }
}

/// The number of cores to plan for. Where the platform reported an affinity
/// set, the cores in it are counted. Where it did not, the number of
/// processors that it said were online is taken, and one if it named none.
pub fn detect(affinity: Option<&CpuSet>, online: isize) -> (cores: usize)
    ensures
        cores == detected(
            match affinity {
                Some(set) => Some(set@),
                None => None,
            },
            online,
        ),
        affinity is Some ==> cores <= CPU_SETSIZE,
{
    match affinity {
        Some(set) => set.count(),
        None => if online < 1 {
            1
        } else {
            online as usize
        },
    }
}

} // verus!
