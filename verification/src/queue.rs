//! Virtqueues, as far as the device looks into them.
use std::collections::VecDeque;
use vstd::prelude::*;

verus! {

/// One descriptor: a piece of guest memory.
#[derive(Clone, Copy, Debug, PartialEq, Eq, Structural)]
pub struct Descriptor {
    /// Where the memory begins.
    pub addr: u64,
    /// How long it is.
    pub len: u32,
    /// Index of the descriptor in its table.
    pub index: u16,
    /// Whether the device may only write to it; else it may only read from it.
    pub write_only: bool,
}

impl Descriptor {
    /// May the device only write to the memory?
    pub fn is_write_only(&self) -> (res: bool)
        ensures
            res == self.write_only,
    {
        self.write_only
    }
}

/// The descriptors that the driver made available together.
#[derive(Debug, PartialEq, Eq)]
pub struct DescriptorChain {
    /// Index of the first descriptor, which stands for the chain.
    pub index: u16,
    /// Address that the first descriptor holds.
    pub addr: u64,
    /// The descriptors in order.
    pub descriptors: Vec<Descriptor>,
}

/// The contents of a [`DescriptorChain`].
#[verifier::ext_equal]
pub struct ChainView {
    pub index: u16,
    pub addr: u64,
    pub descriptors: Seq<Descriptor>,
}

impl View for DescriptorChain {
    type V = ChainView;

    open spec fn view(&self) -> ChainView {
        ChainView { index: self.index, addr: self.addr, descriptors: self.descriptors@ }
    }
}

impl DescriptorChain {
    /// A second chain with the same contents.
    pub fn duplicate(&self) -> (chain: Self)
        ensures
            chain@ == self@,
    {
        let mut descriptors: Vec<Descriptor> = Vec::new();
        let mut i: usize = 0;
        while i < self.descriptors.len()
            invariant
                i <= self.descriptors.len(),
                descriptors@ == self.descriptors@.take(i as int),
            decreases self.descriptors.len() - i,
        {
            descriptors.push(self.descriptors[i]);
            i = i + 1;
        }
        DescriptorChain { index: self.index, addr: self.addr, descriptors }
    }
}

/// A virtqueue: the chains that the driver made available and the device has not yet taken, and
/// those that the device has given back and the driver has not yet been shown.
#[derive(Debug)]
pub struct VirtQueue {
    /// Greatest number of descriptors in the queue.
    pub max_size: u16,
    /// Chains to be taken, oldest first.
    pub pending: VecDeque<DescriptorChain>,
    /// Chains given back, oldest first: each with the index that stands for it and the number
    /// of bytes that the device wrote.
    pub used: Vec<(u16, u32)>,
}

/// The contents of a [`VirtQueue`].
#[verifier::ext_equal]
pub struct QueueView {
    pub max_size: u16,
    pub pending: Seq<ChainView>,
    pub used: Seq<(u16, u32)>,
}

/// The contents of chains in a row.
pub open spec fn chain_views(chains: Seq<DescriptorChain>) -> Seq<ChainView> {
    chains.map_values(|c: DescriptorChain| c@)
}

impl View for VirtQueue {
    type V = QueueView;

    open spec fn view(&self) -> QueueView {
        QueueView {
            max_size: self.max_size,
            pending: chain_views(self.pending@),
            used: self.used@,
        }
    }
}

impl VirtQueue {
    /// An empty queue.
    pub fn new(max_size: u16) -> (queue: Self)
        ensures
            queue@ == (QueueView { max_size, pending: Seq::empty(), used: Seq::empty() }),
    {
        VirtQueue { max_size, pending: VecDeque::new(), used: Vec::new() }
    }

    /// A second queue with the same contents.
    pub fn duplicate(&self) -> (queue: Self)
        ensures
            queue@ == self@,
    {
        let mut pending: VecDeque<DescriptorChain> = VecDeque::new();
        let mut i: usize = 0;
        while i < self.pending.len()
            invariant
                i <= self.pending.len(),
                chain_views(pending@) == chain_views(self.pending@).take(i as int),
            decreases self.pending.len() - i,
        {
            let chain = self.pending[i].duplicate();
            let ghost before = pending@;
            pending.push_back(chain);
            assert(chain_views(pending@) == chain_views(before).push(chain@));
            assert(chain_views(self.pending@).take(i + 1) == chain_views(self.pending@).take(
                i as int,
            ).push(self.pending@[i as int]@));
            i = i + 1;
        }
        let mut used: Vec<(u16, u32)> = Vec::new();
        let mut j: usize = 0;
        while j < self.used.len()
            invariant
                j <= self.used.len(),
                used@ == self.used@.take(j as int),
            decreases self.used.len() - j,
        {
            used.push(self.used[j]);
            j = j + 1;
        }
        let queue = VirtQueue { max_size: self.max_size, pending, used };
        assert(queue@ == self@);
        queue
    }

    /// Adds a chain that the driver made available.
    pub fn make_available(&mut self, chain: DescriptorChain)
        ensures
            final(self)@ == (QueueView { pending: old(self)@.pending.push(chain@), ..old(self)@ }),
    {
        self.pending.push_back(chain);
        assert(chain_views(self.pending@) == chain_views(old(self).pending@).push(chain@));
    }

    /// Takes the oldest chain that the driver made available.
    pub fn pop(&mut self) -> (chain: Option<DescriptorChain>)
        ensures
            match chain {
                Some(c) => {
                    &&& old(self)@.pending.len() > 0
                    &&& c@ == old(self)@.pending[0]
                    &&& final(self)@ == (QueueView {
                        pending: old(self)@.pending.drop_first(),
                        ..old(self)@
                    })
                },
                None => old(self)@.pending.len() == 0 && final(self)@ == old(self)@,
            },
    {
        let chain = self.pending.pop_front();
        proof {
            if chain is Some {
                assert(chain_views(self.pending@) == chain_views(old(self).pending@).drop_first());
            }
        }
        chain
    }

    /// Gives the chain with this index back, `len` bytes of it written.
    pub fn add_used(&mut self, index: u16, len: u32)
        ensures
            final(self)@ == (QueueView { used: old(self)@.used.push((index, len)), ..old(self)@ }),
    {
        self.used.push((index, len));
    }

    /// Hands out the chains that were given back since the last call.
    pub fn take_used(&mut self) -> (used: Vec<(u16, u32)>)
        ensures
            used@ == old(self)@.used,
            final(self)@ == (QueueView { used: Seq::empty(), ..old(self)@ }),
    {
        let mut used: Vec<(u16, u32)> = Vec::new();
        used.append(&mut self.used);
        assert(used@ == old(self)@.used);
        used
    }
}

} // verus!
