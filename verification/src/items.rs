//! Item and block kinds, and the facts the game rules need about them.

use vstd::prelude::*;

verus! {

/// Every kind of block or item the factory handles.
#[derive(Clone, Copy, Debug, PartialEq, Eq, Structural, Hash)]
pub enum BlockType {
    Grass,
    Stone,
    IronOre,
    CopperOre,
    Coal,
    IronIngot,
    CopperIngot,
    MinerBlock,
    ConveyorBlock,
    FurnaceBlock,
    CrusherBlock,
    AssemblerBlock,
}

/// The catalogue order; also the order in which stored items are listed.
pub open spec fn spec_item_index(b: BlockType) -> nat {
    match b {
        BlockType::Grass => 0,
        BlockType::Stone => 1,
        BlockType::IronOre => 2,
        BlockType::CopperOre => 3,
        BlockType::Coal => 4,
        BlockType::IronIngot => 5,
        BlockType::CopperIngot => 6,
        BlockType::MinerBlock => 7,
        BlockType::ConveyorBlock => 8,
        BlockType::FurnaceBlock => 9,
        BlockType::CrusherBlock => 10,
        BlockType::AssemblerBlock => 11,
    }
}

pub open spec fn spec_is_machine(b: BlockType) -> bool {
    match b {
        BlockType::MinerBlock | BlockType::ConveyorBlock | BlockType::FurnaceBlock
        | BlockType::CrusherBlock | BlockType::AssemblerBlock => true,
        _ => false,
    }
}

/// Ingots cannot be put into the world; every other kind can.
pub open spec fn spec_is_placeable(b: BlockType) -> bool {
    !(b == BlockType::IronIngot || b == BlockType::CopperIngot)
}

pub open spec fn spec_is_ore(b: BlockType) -> bool {
    b == BlockType::IronOre || b == BlockType::CopperOre
}

/// What a furnace makes from an ore.
pub open spec fn spec_smelt_output(b: BlockType) -> Option<BlockType> {
    match b {
        BlockType::IronOre => Some(BlockType::IronIngot),
        BlockType::CopperOre => Some(BlockType::CopperIngot),
        _ => None,
    }
}

/// What a miner extracts from the block beneath it.
pub open spec fn spec_mined_resource(b: BlockType) -> Option<BlockType> {
    match b {
        BlockType::IronOre => Some(BlockType::IronOre),
        BlockType::Coal => Some(BlockType::Coal),
        BlockType::CopperOre => Some(BlockType::CopperOre),
        BlockType::Stone => Some(BlockType::Stone),
        _ => None,
    }
}

impl BlockType {
    pub fn index(self) -> (i: u32)
        ensures
            i == spec_item_index(self),
    {
        match self {
            BlockType::Grass => 0,
            BlockType::Stone => 1,
            BlockType::IronOre => 2,
            BlockType::CopperOre => 3,
            BlockType::Coal => 4,
            BlockType::IronIngot => 5,
            BlockType::CopperIngot => 6,
            BlockType::MinerBlock => 7,
            BlockType::ConveyorBlock => 8,
            BlockType::FurnaceBlock => 9,
            BlockType::CrusherBlock => 10,
            BlockType::AssemblerBlock => 11,
        }
    }

    pub fn is_machine(self) -> (r: bool)
        ensures
            r == spec_is_machine(self),
    {
        match self {
            BlockType::MinerBlock | BlockType::ConveyorBlock | BlockType::FurnaceBlock
            | BlockType::CrusherBlock | BlockType::AssemblerBlock => true,
            _ => false,
        }
    }

    pub fn is_placeable(self) -> (r: bool)
        ensures
            r == spec_is_placeable(self),
    {
        match self {
            BlockType::IronIngot | BlockType::CopperIngot => false,
            _ => true,
        }
    }

    pub fn is_ore(self) -> (r: bool)
        ensures
            r == spec_is_ore(self),
    {
        match self {
            BlockType::IronOre | BlockType::CopperOre => true,
            _ => false,
        }
    }

    pub fn smelt_output(self) -> (r: Option<BlockType>)
        ensures
            r == spec_smelt_output(self),
    {
        match self {
            BlockType::IronOre => Some(BlockType::IronIngot),
            BlockType::CopperOre => Some(BlockType::CopperIngot),
            _ => None,
        }
    }

    pub fn mined_resource(self) -> (r: Option<BlockType>)
        ensures
            r == spec_mined_resource(self),
    {
        match self {
            BlockType::IronOre => Some(BlockType::IronOre),
            BlockType::Coal => Some(BlockType::Coal),
            BlockType::CopperOre => Some(BlockType::CopperOre),
            BlockType::Stone => Some(BlockType::Stone),
            _ => None,
        }
    }
}

/// The full creative catalogue, in catalogue order.
pub fn creative_catalog() -> (v: Vec<BlockType>)
    ensures
        v.len() == 12,
        forall|i: int| 0 <= i < 12 ==> spec_item_index(#[trigger] v@[i]) == i,
{
    let v = vec![
        BlockType::Grass,
        BlockType::Stone,
        BlockType::IronOre,
        BlockType::CopperOre,
        BlockType::Coal,
        BlockType::IronIngot,
        BlockType::CopperIngot,
        BlockType::MinerBlock,
        BlockType::ConveyorBlock,
        BlockType::FurnaceBlock,
        BlockType::CrusherBlock,
        BlockType::AssemblerBlock,
    ];
    v
}

/// Smelting turns each ore into its own ingot: iron ore into iron ingots and
/// copper ore into copper ingots; nothing else smelts, and no ore comes out as
/// an ore.
pub proof fn law_smelting_table(b: BlockType)
    ensures
        spec_smelt_output(BlockType::IronOre) == Some(BlockType::IronIngot),
        spec_smelt_output(BlockType::CopperOre) == Some(BlockType::CopperIngot),
        spec_smelt_output(b) is Some <==> (b == BlockType::IronOre || b == BlockType::CopperOre),
        spec_smelt_output(b) is Some ==> spec_smelt_output(b) != Some(b) && !spec_is_ore(spec_smelt_output(b).unwrap()),
{
}

/// A miner takes the block beneath it as that same kind: iron ore, copper ore,
/// coal and stone are mined as themselves, and nothing else is minable.
pub proof fn law_mined_is_the_block(b: BlockType)
    ensures
        spec_mined_resource(b) is Some <==> (b == BlockType::IronOre || b == BlockType::CopperOre
            || b == BlockType::Coal || b == BlockType::Stone),
        spec_mined_resource(b) is Some ==> spec_mined_resource(b) == Some(b),
{
}

} // verus!
