//! The address decoder: which part of the machine an address names.

use crate::{uxsize, MAP_START};
use vstd::prelude::*;

verus! {

/// What an address names, with the offset inside it.
#[derive(Clone, Copy, Debug, PartialEq, Eq, Structural)]
pub enum Target {
    /// A byte of main memory, at this offset.
    MainMemory(uxsize),
    /// A byte of the mapped region, at this offset.
    Mapped(uxsize),
}

/// The target of `addr`: main memory below `MAP_START`, the mapped region
/// from there on, at the distance from `MAP_START`.
pub open spec fn spec_decode(addr: uxsize) -> Target {
    if addr < MAP_START {
        Target::MainMemory(addr)
    } else {
        Target::Mapped((addr - MAP_START) as uxsize)
    }
}

/// Classifies `addr`. Every address has exactly one target.
pub fn decode(addr: uxsize) -> (target: Target)
    ensures
        target == spec_decode(addr),
{
    if addr < MAP_START {
        Target::MainMemory(addr)
    } else {
        Target::Mapped(addr - MAP_START)
    }
}

/// The address that decodes to `target`, where there is one.
pub open spec fn spec_encode(target: Target) -> uxsize
    recommends
        target matches Target::MainMemory(offset) ==> offset < MAP_START,
        target matches Target::Mapped(offset) ==> offset + MAP_START <= uxsize::MAX,
{
    match target {
        Target::MainMemory(offset) => offset,
        Target::Mapped(offset) => (offset + MAP_START) as uxsize,
    }
}

/// The decoder splits the address space in two at `MAP_START` and loses
/// nothing: the target determines the address.
pub proof fn lemma_decode_partitions(addr: uxsize)
    ensures
        addr < MAP_START <==> spec_decode(addr) == Target::MainMemory(addr),
        addr >= MAP_START <==> spec_decode(addr) == Target::Mapped((addr - MAP_START) as uxsize),
        spec_encode(spec_decode(addr)) == addr,
{
}

} // verus!
