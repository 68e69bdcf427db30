//! Bulk item storage (the shared storage that deliveries fill and quests draw
//! from): a count for every kind of item.

use vstd::prelude::*;
use crate::items::{spec_item_index, BlockType};

verus! {

/// Number of item kinds.
pub const ITEM_KINDS: usize = 12;

/// A count per item kind, indexed by the catalogue order.
pub struct ItemStore {
    pub counts: Vec<u32>,
}

impl ItemStore {
    pub open spec fn wf(&self) -> bool {
        self.counts@.len() == ITEM_KINDS
    }

    /// How many of `item` are stored.
    pub open spec fn count(&self, item: BlockType) -> u32 {
        self.counts@[spec_item_index(item) as int]
    }

    pub fn new() -> (s: ItemStore)
        ensures
            s.wf(),
            forall|x: BlockType| s.count(x) == 0,
    {
        let mut counts: Vec<u32> = Vec::new();
        let mut i: usize = 0;
        while i < ITEM_KINDS
            invariant
                i <= ITEM_KINDS,
                counts@.len() == i,
                forall|j: int| 0 <= j < i ==> counts@[j] == 0,
            decreases ITEM_KINDS - i,
        {
            counts.push(0);
            i = i + 1;
        }
        ItemStore { counts }
    }

    pub fn get_count(&self, item: BlockType) -> (n: u32)
        requires
            self.wf(),
        ensures
            n == self.count(item),
    {
        self.counts[item.index() as usize]
    }

    /// Store more of an item; the count saturates at `u32::MAX`.
    pub fn add_item(&mut self, item: BlockType, amount: u32)
        requires
            old(self).wf(),
        ensures
            final(self).wf(),
            final(self).count(item) == (if old(self).count(item) + amount > u32::MAX {
                u32::MAX as int
            } else {
                old(self).count(item) + amount
            }),
            forall|x: BlockType| x != item ==> final(self).count(x) == old(self).count(x),
    {
        let i = item.index() as usize;
        let c = self.counts[i];
        let n = if c > u32::MAX - amount { u32::MAX } else { c + amount };
        self.counts.set(i, n);
        proof {
            assert forall|x: BlockType| x != item implies final(self).count(x) == old(self).count(x) by {
                assert(spec_item_index(x) != spec_item_index(item));
            }
        }
    }

    /// Take `amount` of an item if that many are stored; otherwise nothing changes.
    pub fn remove_item(&mut self, item: BlockType, amount: u32) -> (ok: bool)
        requires
            old(self).wf(),
        ensures
            final(self).wf(),
            ok == (old(self).count(item) >= amount),
            ok ==> final(self).count(item) == old(self).count(item) - amount,
            !ok ==> final(self).counts@ == old(self).counts@,
            forall|x: BlockType| x != item ==> final(self).count(x) == old(self).count(x),
    {
        let i = item.index() as usize;
        let c = self.counts[i];
        if c < amount {
            return false;
        }
        self.counts.set(i, c - amount);
        proof {
            assert forall|x: BlockType| x != item implies final(self).count(x) == old(self).count(x) by {
                assert(spec_item_index(x) != spec_item_index(item));
            }
        }
        true
    }
}

pub open spec fn item_at_index(i: int) -> BlockType {
    if i == 0 {
        BlockType::Grass
    } else if i == 1 {
        BlockType::Stone
    } else if i == 2 {
        BlockType::IronOre
    } else if i == 3 {
        BlockType::CopperOre
    } else if i == 4 {
        BlockType::Coal
    } else if i == 5 {
        BlockType::IronIngot
    } else if i == 6 {
        BlockType::CopperIngot
    } else if i == 7 {
        BlockType::MinerBlock
    } else if i == 8 {
        BlockType::ConveyorBlock
    } else if i == 9 {
        BlockType::FurnaceBlock
    } else if i == 10 {
        BlockType::CrusherBlock
    } else {
        BlockType::AssemblerBlock
    }
}

pub fn item_from_index(i: usize) -> (b: BlockType)
    requires
        i < ITEM_KINDS,
    ensures
        b == item_at_index(i as int),
        spec_item_index(b) == i,
{
    match i {
        0 => BlockType::Grass,
        1 => BlockType::Stone,
        2 => BlockType::IronOre,
        3 => BlockType::CopperOre,
        4 => BlockType::Coal,
        5 => BlockType::IronIngot,
        6 => BlockType::CopperIngot,
        7 => BlockType::MinerBlock,
        8 => BlockType::ConveyorBlock,
        9 => BlockType::FurnaceBlock,
        10 => BlockType::CrusherBlock,
        _ => BlockType::AssemblerBlock,
    }
}

/// The stored kinds with a non-zero count among the first `n` kinds, in catalogue order.
pub open spec fn stored_prefix(counts: Seq<u32>, n: int) -> Seq<(BlockType, u32)>
    decreases n,
{
    if n <= 0 {
        Seq::empty()
    } else {
        let rest = stored_prefix(counts, n - 1);
        if counts[n - 1] > 0 {
            rest.push((item_at_index(n - 1), counts[n - 1]))
        } else {
            rest
        }
    }
}

impl ItemStore {
    /// Every stored kind with its count, in catalogue order.
    pub fn get_all_items(&self) -> (v: Vec<(BlockType, u32)>)
        requires
            self.wf(),
        ensures
            v@ == stored_prefix(self.counts@, ITEM_KINDS as int),
    {
        let mut v: Vec<(BlockType, u32)> = Vec::new();
        let mut i: usize = 0;
        while i < ITEM_KINDS
            invariant
                i <= ITEM_KINDS,
                self.counts@.len() == ITEM_KINDS,
                v@ == stored_prefix(self.counts@, i as int),
            decreases ITEM_KINDS - i,
        {
            let c = self.counts[i];
            if c > 0 {
                v.push((item_from_index(i), c));
            }
            i = i + 1;
        }
        v
    }
}

} // verus!
