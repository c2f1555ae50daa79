//! What the device has done so far, as seen from outside.
use crate::audio_backends::pipewire::{PwAction, PwBackend};
use crate::guest_memory::{guest, written};
use crate::queue::VirtQueue;
use vm_memory::GuestMemoryMmap;
use vstd::prelude::*;

verus! {

/// The effects of the device, each kind in order: reads from and writes to guest memory, actions
/// passed on to the audio backend, actions offered to it when its worker was gone, and chains given
/// back on a queue.
#[verifier::ext_equal]
pub struct Effects {
    pub reads: Seq<(u64, Seq<u8>)>,
    pub writes: Seq<(u64, Seq<u8>)>,
    pub sent: Seq<PwAction>,
    pub refused: Seq<PwAction>,
    pub used: Seq<(u16, u32)>,
}

/// The effects on a memory, a backend and a queue up to now.
pub open spec fn effects(mem: GuestMemoryMmap, backend: PwBackend, queue: VirtQueue) -> Effects {
    Effects {
        reads: guest(mem).reads,
        writes: guest(mem).writes,
        sent: backend.sent(),
        refused: backend.refused(),
        used: queue@.used,
    }
}

impl Effects {
    /// No effect.
    pub open spec fn none() -> Self {
        Effects {
            reads: Seq::empty(),
            writes: Seq::empty(),
            sent: Seq::empty(),
            refused: Seq::empty(),
            used: Seq::empty(),
        }
    }

    /// These effects, and then some more.
    pub open spec fn plus(self, more: Effects) -> Self {
        Effects {
            reads: self.reads + more.reads,
            writes: self.writes + more.writes,
            sent: self.sent + more.sent,
            refused: self.refused + more.refused,
            used: self.used + more.used,
        }
    }

    /// These effects without the earlier ones.
    pub open spec fn since(self, earlier: Effects) -> Self {
        Effects {
            reads: self.reads.skip(earlier.reads.len() as int),
            writes: self.writes.skip(earlier.writes.len() as int),
            sent: self.sent.skip(earlier.sent.len() as int),
            refused: self.refused.skip(earlier.refused.len() as int),
            used: self.used.skip(earlier.used.len() as int),
        }
    }
}

/// What an attempt to write `bytes` at `addr` stores.
pub open spec fn stored(mapped: Set<u64>, addr: u64, bytes: Seq<u8>) -> Seq<(u64, Seq<u8>)> {
    written(Seq::empty(), mapped, addr, bytes)
}

/// No effect before or after some effects makes no difference.
pub proof fn lemma_plus_none(a: Effects)
    ensures
        a.plus(Effects::none()) == a,
        Effects::none().plus(a) == a,
{
    assert(a.plus(Effects::none()) =~= a);
    assert(Effects::none().plus(a) =~= a);
}

/// Effects in three parts can be put together in either order.
pub proof fn lemma_plus_assoc(a: Effects, b: Effects, c: Effects)
    ensures
        a.plus(b).plus(c) == a.plus(b.plus(c)),
{
    assert(a.plus(b).plus(c) =~= a.plus(b.plus(c)));
}

/// The later of two groups of effects is found again.
pub proof fn lemma_plus_since(a: Effects, b: Effects)
    ensures
        a.plus(b).since(a) == b,
{
    assert(a.plus(b).since(a) =~= b);
}

/// What a write stores does not depend on the writes before it.
pub proof fn lemma_stored(writes: Seq<(u64, Seq<u8>)>, mapped: Set<u64>, addr: u64, bytes: Seq<u8>)
    ensures
        written(writes, mapped, addr, bytes) == writes + stored(mapped, addr, bytes),
{
    assert(written(writes, mapped, addr, bytes) =~= writes + stored(mapped, addr, bytes));
}

} // verus!
