//! Core identification from the multiprocessor affinity value.
use vstd::prelude::*;

verus! {

/// Number of logical cores the firmware runs on.
pub const CPU_COUNT: u64 = 4;

/// The core index carried by a raw affinity value: its low eight bits.
pub open spec fn core_of(affinity: u64) -> nat {
    (affinity % 256) as nat
}

/// Derives the core index from the raw affinity register value by keeping
/// its low eight bits.
pub fn cpu_id(affinity: u64) -> (r: u64)
    ensures
        r == core_of(affinity),
        r < 256,
{
    let r = affinity & 0xff;
    assert(affinity & 0xff == affinity % 256) by (bit_vector);
    r
}

} // verus!
