//! Furnaces, crushers and miners: what they accept, what one finished work cycle
//! does to their slots, what clicking their slots moves to or from the player's
//! inventory, and what breaking a machine gives back.
//!
//! Work progress is timed by the caller; these rules say whether a machine can
//! work and what happens when a cycle completes.

use vstd::prelude::*;
use crate::geometry::{Direction, Pos};
use crate::inventory::{add_item, consume_item, take_pass, total, Slot};
use crate::items::{spec_is_ore, spec_mined_resource, spec_smelt_output, BlockType};

verus! {

/// Most items a machine slot (fuel, input, output, miner buffer) holds.
pub const MACHINE_SLOT_LIMIT: u32 = 64;

#[derive(Clone, Copy, Debug, PartialEq, Eq, Structural)]
pub enum MachineSlotType {
    Fuel,
    Input,
    Output,
}

/// A furnace: coal fuel, an ore input stack and an ingot output stack.
#[derive(Clone, Copy, Debug, PartialEq, Eq, Structural)]
pub struct Furnace {
    pub position: Pos,
    pub facing: Direction,
    pub fuel: u32,
    pub input_type: Option<BlockType>,
    pub input_count: u32,
    pub output_type: Option<BlockType>,
    pub output_count: u32,
}

/// Slot counts stay within the limit, and a stack's kind is set exactly when it is non-empty.
pub open spec fn furnace_wf(f: Furnace) -> bool {
    &&& f.fuel <= MACHINE_SLOT_LIMIT
    &&& f.input_count <= MACHINE_SLOT_LIMIT
    &&& f.output_count <= MACHINE_SLOT_LIMIT
    &&& (f.input_type is Some <==> f.input_count > 0)
    &&& (f.output_type is Some <==> f.output_count > 0)
}

/// The furnace takes one more of `ore` as input: it smelts it, the input holds
/// nothing else, and there is room.
pub open spec fn spec_furnace_can_add_input(f: Furnace, ore: BlockType) -> bool {
    &&& spec_smelt_output(ore) is Some
    &&& (f.input_type is None || f.input_type == Some(ore))
    &&& f.input_count < MACHINE_SLOT_LIMIT
}

pub fn furnace_can_add_input(f: &Furnace, ore: BlockType) -> (r: bool)
    ensures
        r == spec_furnace_can_add_input(*f, ore),
{
    ore.smelt_output().is_some() && (f.input_type.is_none() || f.input_type == Some(ore))
        && f.input_count < MACHINE_SLOT_LIMIT
}

/// The furnace can smelt: it has fuel and ore, and the ingot fits the output.
pub open spec fn spec_furnace_ready(f: Furnace) -> bool {
    match f.input_type {
        Some(ore) => f.fuel > 0 && f.input_count > 0 && match (f.output_type, spec_smelt_output(ore)) {
            (None, Some(_)) => true,
            (Some(cur), Some(new)) => cur == new && f.output_count < MACHINE_SLOT_LIMIT,
            _ => false,
        },
        None => false,
    }
}

pub fn furnace_ready(f: &Furnace) -> (r: bool)
    ensures
        r == spec_furnace_ready(*f),
{
    match f.input_type {
        Some(ore) => {
            if f.fuel == 0 || f.input_count == 0 {
                return false;
            }
            match (f.output_type, ore.smelt_output()) {
                (None, Some(_)) => true,
                (Some(cur), Some(new)) => cur == new && f.output_count < MACHINE_SLOT_LIMIT,
                _ => false,
            }
        },
        None => false,
    }
}

/// One finished smelting cycle: a coal and an ore are used up and an ingot is made.
pub fn furnace_finish_smelt(f: &mut Furnace)
    requires
        spec_furnace_ready(*old(f)),
        old(f).output_count < u32::MAX,
    ensures
        final(f).fuel == old(f).fuel - 1,
        final(f).input_count == old(f).input_count - 1,
        final(f).input_type == (if old(f).input_count == 1 { None } else { old(f).input_type }),
        final(f).output_type == spec_smelt_output(old(f).input_type.unwrap()),
        final(f).output_count == old(f).output_count + 1,
        final(f).position == old(f).position,
        final(f).facing == old(f).facing,
        furnace_wf(*old(f)) ==> furnace_wf(*final(f)),
{
    let ore = f.input_type.unwrap();
    f.fuel = f.fuel - 1;
    f.input_count = f.input_count - 1;
    if f.input_count == 0 {
        f.input_type = None;
    }
    f.output_type = ore.smelt_output();
    f.output_count = f.output_count + 1;
}

/// The furnace after one smelting cycle.
pub open spec fn spec_smelted(f: Furnace) -> Furnace {
    Furnace {
        fuel: (f.fuel - 1) as u32,
        input_count: (f.input_count - 1) as u32,
        input_type: if f.input_count == 1 { None } else { f.input_type },
        output_type: spec_smelt_output(f.input_type.unwrap()),
        output_count: (f.output_count + 1) as u32,
        ..f
    }
}

/// A furnace over one frame: a cycle completes when it can smelt and its timed
/// progress reached a whole cycle (`cycle_done`); otherwise nothing changes.
pub open spec fn spec_furnace_frame(f: Furnace, cycle_done: bool) -> Furnace {
    if spec_furnace_ready(f) && cycle_done { spec_smelted(f) } else { f }
}

/// One frame of a furnace (the caller times the progress, and resets it when
/// the furnace cannot smelt or a cycle completes). Returns whether one smelt
/// completed.
pub fn furnace_frame(f: &mut Furnace, cycle_done: bool) -> (smelted: bool)
    requires
        furnace_wf(*old(f)),
    ensures
        smelted == (spec_furnace_ready(*old(f)) && cycle_done),
        *final(f) == spec_furnace_frame(*old(f), cycle_done),
        furnace_wf(*final(f)),
{
    if cycle_done && furnace_ready(f) {
        furnace_finish_smelt(f);
        true
    } else {
        false
    }
}

/// Every frame of a well-formed furnace keeps it well-formed, and either leaves
/// it as it is or completes exactly one smelt: one coal and one ore fewer, one
/// more ingot of what the ore smelts into, the input emptied with its last ore.
pub proof fn law_furnace_frame(f: Furnace, cycle_done: bool)
    requires
        furnace_wf(f),
    ensures
        furnace_wf(spec_furnace_frame(f, cycle_done)),
        ({
            let g = spec_furnace_frame(f, cycle_done);
            ||| g == f
            ||| {
                &&& g.fuel == f.fuel - 1
                &&& g.input_count == f.input_count - 1
                &&& g.output_count == f.output_count + 1
                &&& g.output_type == spec_smelt_output(f.input_type.unwrap())
                &&& (g.input_type is None <==> g.input_count == 0)
                &&& g.position == f.position && g.facing == f.facing
            }
        }),
{
}

/// Click a furnace slot with the player's inventory: the fuel slot takes one coal,
/// the input takes one iron ore (else one copper ore), the output gives one ingot.
/// An ingot that does not fit the inventory is lost.
pub fn furnace_slot_click(f: &mut Furnace, slot: MachineSlotType, inv: &mut Vec<Slot>, max_stack: u32)
    ensures
        final(f).position == old(f).position,
        final(f).facing == old(f).facing,
        match slot {
            MachineSlotType::Fuel => {
                let moved = old(f).fuel < MACHINE_SLOT_LIMIT && total(old(inv)@, BlockType::Coal) >= 1;
                &&& final(f).fuel == old(f).fuel + (if moved { 1int } else { 0 })
                &&& final(inv)@ == (if moved { take_pass(old(inv)@, BlockType::Coal, 1, 0) } else { old(inv)@ })
                &&& total(final(inv)@, BlockType::Coal) + final(f).fuel == total(old(inv)@, BlockType::Coal) + old(f).fuel
                &&& final(f).input_type == old(f).input_type && final(f).input_count == old(f).input_count
                &&& final(f).output_type == old(f).output_type && final(f).output_count == old(f).output_count
                &&& forall|x: BlockType| x != BlockType::Coal ==> total(final(inv)@, x) == total(old(inv)@, x)
            },
            MachineSlotType::Input => {
                let iron = spec_furnace_can_add_input(*old(f), BlockType::IronOre) && total(old(inv)@, BlockType::IronOre) >= 1;
                let copper = !iron && spec_furnace_can_add_input(*old(f), BlockType::CopperOre) && total(old(inv)@, BlockType::CopperOre) >= 1;
                &&& iron ==> final(f).input_type == Some(BlockType::IronOre) && final(f).input_count == old(f).input_count + 1
                    && final(inv)@ == take_pass(old(inv)@, BlockType::IronOre, 1, 0)
                    && total(final(inv)@, BlockType::IronOre) + 1 == total(old(inv)@, BlockType::IronOre)
                    && forall|x: BlockType| x != BlockType::IronOre ==> total(final(inv)@, x) == total(old(inv)@, x)
                &&& copper ==> final(f).input_type == Some(BlockType::CopperOre) && final(f).input_count == old(f).input_count + 1
                    && final(inv)@ == take_pass(old(inv)@, BlockType::CopperOre, 1, 0)
                    && total(final(inv)@, BlockType::CopperOre) + 1 == total(old(inv)@, BlockType::CopperOre)
                    && forall|x: BlockType| x != BlockType::CopperOre ==> total(final(inv)@, x) == total(old(inv)@, x)
                &&& !iron && !copper ==> final(f).input_type == old(f).input_type && final(f).input_count == old(f).input_count
                    && final(inv)@ == old(inv)@
                &&& final(f).fuel == old(f).fuel
                &&& final(f).output_type == old(f).output_type && final(f).output_count == old(f).output_count
            },
            MachineSlotType::Output => {
                &&& final(f).fuel == old(f).fuel
                &&& final(f).input_type == old(f).input_type && final(f).input_count == old(f).input_count
                &&& if old(f).output_count > 0 && old(f).output_type is Some {
                    let t = old(f).output_type.unwrap();
                    &&& final(f).output_count == old(f).output_count - 1
                    &&& final(f).output_type == (if old(f).output_count == 1 { None } else { old(f).output_type })
                    &&& final(inv)@ == crate::inventory::spec_store(old(inv)@, t, 1, 0, old(inv)@.len() as int, max_stack).0
                } else {
                    final(f).output_count == old(f).output_count && final(f).output_type == old(f).output_type
                        && final(inv)@ == old(inv)@
                }
            },
        },
{
    match slot {
        MachineSlotType::Fuel => {
            if f.fuel < MACHINE_SLOT_LIMIT && consume_item(inv, BlockType::Coal, 1) {
                f.fuel = f.fuel + 1;
            }
        },
        MachineSlotType::Input => {
            if furnace_can_add_input(f, BlockType::IronOre) && consume_item(inv, BlockType::IronOre, 1) {
                f.input_type = Some(BlockType::IronOre);
                f.input_count = f.input_count + 1;
            } else if furnace_can_add_input(f, BlockType::CopperOre) && consume_item(
                inv,
                BlockType::CopperOre,
                1,
            ) {
                f.input_type = Some(BlockType::CopperOre);
                f.input_count = f.input_count + 1;
            }
        },
        MachineSlotType::Output => {
            if f.output_count > 0 {
                if let Some(t) = f.output_type {
                    f.output_count = f.output_count - 1;
                    let _ = add_item(inv, t, 1, max_stack);
                    if f.output_count == 0 {
                        f.output_type = None;
                    }
                }
            }
        },
    }
}

/// An item arriving by belt from `source`: the furnace takes it only through its
/// input port (the block behind it); coal goes to the fuel and smeltable ore to the
/// input while there is room. Returns whether it was taken.
pub fn furnace_accept_from_conveyor(f: &mut Furnace, source: Pos, item: BlockType) -> (taken: bool)
    requires
        old(f).position.interior(),
    ensures
        taken == (source == old(f).position.spec_step(old(f).facing.spec_opposite()) && (
        if item == BlockType::Coal {
            old(f).fuel < MACHINE_SLOT_LIMIT
        } else if spec_is_ore(item) {
            spec_furnace_can_add_input(*old(f), item)
        } else {
            false
        })),
        taken && item == BlockType::Coal ==> *final(f) == (Furnace { fuel: (old(f).fuel + 1) as u32, ..*old(f) }),
        taken && item != BlockType::Coal ==> *final(f) == (Furnace {
            input_type: Some(item),
            input_count: (old(f).input_count + 1) as u32,
            ..*old(f)
        }),
        !taken ==> *final(f) == *old(f),
{
    let port = f.position.step(f.facing.opposite());
    if source != port {
        return false;
    }
    match item {
        BlockType::Coal => {
            if f.fuel < MACHINE_SLOT_LIMIT {
                f.fuel = f.fuel + 1;
                true
            } else {
                false
            }
        },
        BlockType::IronOre | BlockType::CopperOre => {
            if furnace_can_add_input(f, item) {
                f.input_type = Some(item);
                f.input_count = f.input_count + 1;
                true
            } else {
                false
            }
        },
        _ => false,
    }
}

/// A crusher: an ore input stack and an output stack of the same ore, doubled.
#[derive(Clone, Copy, Debug, PartialEq, Eq, Structural)]
pub struct Crusher {
    pub position: Pos,
    pub facing: Direction,
    pub input_type: Option<BlockType>,
    pub input_count: u32,
    pub output_type: Option<BlockType>,
    pub output_count: u32,
}

pub open spec fn crusher_wf(c: Crusher) -> bool {
    &&& c.input_count <= MACHINE_SLOT_LIMIT
    &&& c.output_count <= MACHINE_SLOT_LIMIT
    &&& (c.input_type is Some <==> c.input_count > 0)
    &&& (c.output_type is Some <==> c.output_count > 0)
}

/// The crusher can work: it has ore, and two more of it fit the output.
pub open spec fn spec_crusher_ready(c: Crusher) -> bool {
    match c.input_type {
        Some(ore) => c.input_count > 0 && match c.output_type {
            None => true,
            Some(cur) => cur == ore && c.output_count < MACHINE_SLOT_LIMIT - 1,
        },
        None => false,
    }
}

pub fn crusher_ready(c: &Crusher) -> (r: bool)
    ensures
        r == spec_crusher_ready(*c),
{
    match c.input_type {
        Some(ore) => c.input_count > 0 && match c.output_type {
            None => true,
            Some(cur) => cur == ore && c.output_count < MACHINE_SLOT_LIMIT - 1,
        },
        None => false,
    }
}

/// The crusher after one cycle: one ore leaves the input (which empties when it
/// was the last) and two of it join the output.
pub open spec fn spec_crushed(c: Crusher) -> Crusher {
    Crusher {
        input_count: (c.input_count - 1) as u32,
        input_type: if c.input_count == 1 { None } else { c.input_type },
        output_type: c.input_type,
        output_count: (c.output_count + 2) as u32,
        ..c
    }
}

/// One finished crushing cycle: one ore in, two of the same ore out.
pub fn crusher_finish(c: &mut Crusher)
    requires
        spec_crusher_ready(*old(c)),
        old(c).output_count <= u32::MAX - 2,
    ensures
        *final(c) == spec_crushed(*old(c)),
        crusher_wf(*old(c)) ==> crusher_wf(*final(c)),
{
    let ore = c.input_type.unwrap();
    c.input_count = c.input_count - 1;
    if c.input_count == 0 {
        c.input_type = None;
    }
    c.output_type = Some(ore);
    c.output_count = c.output_count + 2;
}

/// A crusher over one frame: a cycle completes when it can work and its timed
/// progress reached a whole cycle; otherwise nothing changes.
pub open spec fn spec_crusher_frame(c: Crusher, cycle_done: bool) -> Crusher {
    if spec_crusher_ready(c) && cycle_done { spec_crushed(c) } else { c }
}

/// One frame of a crusher (the caller times the progress). Returns whether one
/// crush completed.
pub fn crusher_frame(c: &mut Crusher, cycle_done: bool) -> (crushed: bool)
    requires
        crusher_wf(*old(c)),
    ensures
        crushed == (spec_crusher_ready(*old(c)) && cycle_done),
        *final(c) == spec_crusher_frame(*old(c), cycle_done),
        crusher_wf(*final(c)),
{
    if cycle_done && crusher_ready(c) {
        crusher_finish(c);
        true
    } else {
        false
    }
}

/// Every frame of a well-formed crusher keeps it well-formed, and either leaves
/// it as it is or completes exactly one crush: one ore fewer in, two more of it
/// out.
pub proof fn law_crusher_frame(c: Crusher, cycle_done: bool)
    requires
        crusher_wf(c),
    ensures
        crusher_wf(spec_crusher_frame(c, cycle_done)),
        ({
            let g = spec_crusher_frame(c, cycle_done);
            ||| g == c
            ||| {
                &&& g.input_count == c.input_count - 1
                &&& g.output_count == c.output_count + 2
                &&& g.output_type == c.input_type
                &&& (g.input_type is None <==> g.input_count == 0)
                &&& g.position == c.position && g.facing == c.facing
            }
        }),
{
}

/// Crushing doubles ore: after a cycle the crusher holds one more of the ore than
/// before, counting input and output together, and its output is that ore.
pub proof fn law_crusher_doubles(c: Crusher)
    requires
        spec_crusher_ready(c),
        c.output_count <= u32::MAX - 2,
    ensures
        spec_crushed(c).input_count + spec_crushed(c).output_count == c.input_count + c.output_count + 1,
        spec_crushed(c).output_type == c.input_type,
        spec_crushed(c).input_type is Some ==> spec_crushed(c).input_type == c.input_type,
{
}

/// The crusher takes one more of `ore` as input.
pub open spec fn spec_crusher_can_add(c: Crusher, ore: BlockType) -> bool {
    &&& spec_is_ore(ore)
    &&& (c.input_type is None || c.input_type == Some(ore))
    &&& c.input_count < MACHINE_SLOT_LIMIT
}

/// Click a crusher slot: the input takes one iron ore (else one copper ore), the
/// output gives one ore back; the fuel slot does nothing.
pub fn crusher_slot_click(c: &mut Crusher, slot: MachineSlotType, inv: &mut Vec<Slot>, max_stack: u32)
    ensures
        final(c).position == old(c).position,
        final(c).facing == old(c).facing,
        match slot {
            MachineSlotType::Fuel => *final(c) == *old(c) && final(inv)@ == old(inv)@,
            MachineSlotType::Input => {
                let iron = spec_crusher_can_add(*old(c), BlockType::IronOre) && total(old(inv)@, BlockType::IronOre) >= 1;
                let copper = !iron && spec_crusher_can_add(*old(c), BlockType::CopperOre) && total(old(inv)@, BlockType::CopperOre) >= 1;
                &&& iron ==> final(c).input_type == Some(BlockType::IronOre) && final(c).input_count == old(c).input_count + 1
                    && final(inv)@ == take_pass(old(inv)@, BlockType::IronOre, 1, 0)
                &&& copper ==> final(c).input_type == Some(BlockType::CopperOre) && final(c).input_count == old(c).input_count + 1
                    && final(inv)@ == take_pass(old(inv)@, BlockType::CopperOre, 1, 0)
                &&& !iron && !copper ==> *final(c) == *old(c) && final(inv)@ == old(inv)@
                &&& final(c).output_type == old(c).output_type && final(c).output_count == old(c).output_count
            },
            MachineSlotType::Output => {
                &&& final(c).input_type == old(c).input_type && final(c).input_count == old(c).input_count
                &&& if old(c).output_count > 0 && old(c).output_type is Some {
                    let t = old(c).output_type.unwrap();
                    &&& final(c).output_count == old(c).output_count - 1
                    &&& final(c).output_type == (if old(c).output_count == 1 { None } else { old(c).output_type })
                    &&& final(inv)@ == crate::inventory::spec_store(old(inv)@, t, 1, 0, old(inv)@.len() as int, max_stack).0
                } else {
                    *final(c) == *old(c) && final(inv)@ == old(inv)@
                }
            },
        },
{
    match slot {
        MachineSlotType::Fuel => {},
        MachineSlotType::Input => {
            if c.input_count < MACHINE_SLOT_LIMIT && (c.input_type.is_none() || c.input_type == Some(
                BlockType::IronOre,
            )) && consume_item(inv, BlockType::IronOre, 1) {
                c.input_type = Some(BlockType::IronOre);
                c.input_count = c.input_count + 1;
            } else if c.input_count < MACHINE_SLOT_LIMIT && (c.input_type.is_none() || c.input_type
                == Some(BlockType::CopperOre)) && consume_item(inv, BlockType::CopperOre, 1) {
                c.input_type = Some(BlockType::CopperOre);
                c.input_count = c.input_count + 1;
            }
        },
        MachineSlotType::Output => {
            if c.output_count > 0 {
                if let Some(t) = c.output_type {
                    c.output_count = c.output_count - 1;
                    let _ = add_item(inv, t, 1, max_stack);
                    if c.output_count == 0 {
                        c.output_type = None;
                    }
                }
            }
        },
    }
}

/// An item arriving by belt from `source`: taken only through the input port
/// (the block behind the crusher), only ore, only matching the input, only with room.
pub fn crusher_accept_from_conveyor(c: &mut Crusher, source: Pos, item: BlockType) -> (taken: bool)
    requires
        old(c).position.interior(),
    ensures
        taken == (source == old(c).position.spec_step(old(c).facing.spec_opposite())
            && spec_crusher_can_add(*old(c), item)),
        taken ==> *final(c) == (Crusher {
            input_type: Some(item),
            input_count: (old(c).input_count + 1) as u32,
            ..*old(c)
        }),
        !taken ==> *final(c) == *old(c),
{
    let port = c.position.step(c.facing.opposite());
    if source != port {
        return false;
    }
    if item.is_ore() && (c.input_type.is_none() || c.input_type == Some(item)) && c.input_count
        < MACHINE_SLOT_LIMIT {
        c.input_type = Some(item);
        c.input_count = c.input_count + 1;
        true
    } else {
        false
    }
}

/// A crusher hands one of its output straight to a furnace that stands in front of
/// it and has the crusher at its back, when the furnace takes that ore.
pub fn crusher_feed_furnace(c: &mut Crusher, f: &mut Furnace) -> (moved: bool)
    requires
        old(c).position.interior(),
        old(f).position.interior(),
    ensures
        moved == (old(c).output_type is Some && old(c).output_count > 0
            && old(f).position == old(c).position.spec_step(old(c).facing)
            && old(f).position.spec_step(old(f).facing.spec_opposite()) == old(c).position
            && spec_furnace_can_add_input(*old(f), old(c).output_type.unwrap())),
        moved ==> final(c).output_count == old(c).output_count - 1
            && final(c).output_type == (if old(c).output_count == 1 { None } else { old(c).output_type })
            && final(f).input_type == old(c).output_type
            && final(f).input_count == old(f).input_count + 1,
        !moved ==> *final(c) == *old(c) && *final(f) == *old(f),
        final(c).input_type == old(c).input_type && final(c).input_count == old(c).input_count,
        final(c).position == old(c).position && final(c).facing == old(c).facing,
        final(f).position == old(f).position && final(f).facing == old(f).facing,
        final(f).fuel == old(f).fuel,
        final(f).output_type == old(f).output_type && final(f).output_count == old(f).output_count,
{
    let t = match c.output_type {
        Some(t) => t,
        None => return false,
    };
    if c.output_count == 0 {
        return false;
    }
    let front = c.position.step(c.facing);
    let furnace_back = f.position.step(f.facing.opposite());
    if f.position == front && furnace_back == c.position && furnace_can_add_input(f, t) {
        f.input_type = Some(t);
        f.input_count = f.input_count + 1;
        c.output_count = c.output_count - 1;
        if c.output_count == 0 {
            c.output_type = None;
        }
        true
    } else {
        false
    }
}

/// What a miner does this frame, given the block beneath it.
#[derive(Clone, Copy, Debug, PartialEq, Eq, Structural)]
pub enum MineStep {
    /// The buffer is full: leave the progress as it is.
    Wait,
    /// Nothing minable beneath: reset the progress.
    Reset,
    /// Keep mining this resource.
    Mine(BlockType),
}

pub open spec fn spec_mine_step(buffer: Option<(BlockType, u32)>, below: Option<BlockType>) -> MineStep {
    if buffer matches Some((_, c)) && c >= MACHINE_SLOT_LIMIT {
        MineStep::Wait
    } else {
        match below {
            None => MineStep::Reset,
            Some(b) => match spec_mined_resource(b) {
                Some(r) => MineStep::Mine(r),
                None => MineStep::Reset,
            },
        }
    }
}

pub fn mine_step(buffer: Option<(BlockType, u32)>, below: Option<BlockType>) -> (s: MineStep)
    ensures
        s == spec_mine_step(buffer, below),
{
    if let Some((_, c)) = buffer {
        if c >= MACHINE_SLOT_LIMIT {
            return MineStep::Wait;
        }
    }
    match below {
        None => MineStep::Reset,
        Some(b) => match b.mined_resource() {
            Some(r) => MineStep::Mine(r),
            None => MineStep::Reset,
        },
    }
}

/// A finished mining cycle: the resource joins the buffer when the buffer is empty
/// or holds the same resource; a resource of another kind is dropped.
pub fn mine_complete(buffer: Option<(BlockType, u32)>, resource: BlockType) -> (b: Option<(BlockType, u32)>)
    requires
        buffer matches Some((_, c)) ==> c < MACHINE_SLOT_LIMIT,
    ensures
        b == (match buffer {
            Some((t, c)) => if t == resource { Some((t, (c + 1) as u32)) } else { buffer },
            None => Some((resource, 1u32)),
        }),
{
    match buffer {
        Some((t, c)) => if t == resource {
            Some((t, c + 1))
        } else {
            buffer
        },
        None => Some((resource, 1)),
    }
}

/// The resource a miner gets from the block beneath it, if any.
pub open spec fn resource_below(below: Option<BlockType>) -> Option<BlockType> {
    match below {
        Some(k) => spec_mined_resource(k),
        None => None,
    }
}

/// A miner's buffer holds at most a slot's worth of one resource.
pub open spec fn buffer_wf(buffer: Option<(BlockType, u32)>) -> bool {
    buffer matches Some((_, c)) ==> c <= MACHINE_SLOT_LIMIT
}

/// A miner's buffer over one frame, given the block beneath it: when it mines
/// and its timed progress reached a whole cycle, the resource joins the buffer.
pub open spec fn spec_miner_frame(buffer: Option<(BlockType, u32)>, below: Option<BlockType>, cycle_done: bool) -> Option<(BlockType, u32)> {
    match spec_mine_step(buffer, below) {
        MineStep::Mine(r) => if cycle_done {
            match buffer {
                Some((t, c)) => if t == r { Some((t, (c + 1) as u32)) } else { buffer },
                None => Some((r, 1u32)),
            }
        } else {
            buffer
        },
        _ => buffer,
    }
}

/// One frame of a miner: what it does with its progress (see [`mine_step`]) and
/// its buffer afterwards. The world is not changed: the resource is produced,
/// the block beneath stays.
pub fn miner_frame(buffer: Option<(BlockType, u32)>, below: Option<BlockType>, cycle_done: bool) -> (r: (MineStep, Option<(BlockType, u32)>))
    requires
        buffer_wf(buffer),
    ensures
        r.0 == spec_mine_step(buffer, below),
        r.1 == spec_miner_frame(buffer, below, cycle_done),
        buffer_wf(r.1),
{
    let step = mine_step(buffer, below);
    match step {
        MineStep::Mine(res) => if cycle_done {
            (step, mine_complete(buffer, res))
        } else {
            (step, buffer)
        },
        _ => (step, buffer),
    }
}

/// Every miner frame keeps the buffer within a slot, and changes it only by one
/// more of the resource beneath, into an empty buffer or one holding that
/// resource.
pub proof fn law_miner_frame(buffer: Option<(BlockType, u32)>, below: Option<BlockType>, cycle_done: bool)
    requires
        buffer_wf(buffer),
    ensures
        buffer_wf(spec_miner_frame(buffer, below, cycle_done)),
        ({
            let b = spec_miner_frame(buffer, below, cycle_done);
            ||| b == buffer
            ||| {
                let r = resource_below(below).unwrap();
                &&& resource_below(below) is Some
                &&& (buffer is None && b == Some((r, 1u32))) || (buffer is Some && buffer.unwrap().0 == r
                    && b == Some((r, (buffer.unwrap().1 + 1) as u32)))
            }
        }),
{
}

/// The neighbours a miner or furnace hands output to, in order: east, west,
/// south, north, above.
pub fn output_neighbours(p: Pos) -> (v: Vec<Pos>)
    requires
        p.interior(),
    ensures
        v@ == seq![
            p.spec_step(Direction::East),
            p.spec_step(Direction::West),
            p.spec_step(Direction::South),
            p.spec_step(Direction::North),
            p.spec_shifted(0, 1, 0),
        ],
{
    let mut v: Vec<Pos> = Vec::new();
    v.push(p.step(Direction::East));
    v.push(p.step(Direction::West));
    v.push(p.step(Direction::South));
    v.push(p.step(Direction::North));
    v.push(p.above());
    assert(v@ =~= seq![
        p.spec_step(Direction::East),
        p.spec_step(Direction::West),
        p.spec_step(Direction::South),
        p.spec_step(Direction::North),
        p.spec_shifted(0, 1, 0),
    ]);
    v
}

/// Take one item off an output stack that has just been handed on.
pub fn take_one(stack: Option<(BlockType, u32)>) -> (r: Option<(BlockType, u32)>)
    requires
        stack matches Some((_, c)) ==> c > 0,
    ensures
        r == (match stack {
            Some((t, c)) => if c == 1 { None } else { Some((t, (c - 1) as u32)) },
            None => None,
        }),
{
    match stack {
        Some((t, c)) => if c == 1 {
            None
        } else {
            Some((t, c - 1))
        },
        None => None,
    }
}

/// The miner's "take all" button: the buffer goes to the inventory (what does not
/// fit is lost) and the buffer empties.
pub fn miner_take_buffer(buffer: &mut Option<(BlockType, u32)>, inv: &mut Vec<Slot>, max_stack: u32)
    ensures
        *final(buffer) == None::<(BlockType, u32)>,
        match *old(buffer) {
            Some((t, c)) => final(inv)@ == crate::inventory::spec_store(old(inv)@, t, c as nat, 0, old(inv)@.len() as int, max_stack).0,
            None => final(inv)@ == old(inv)@,
        },
{
    if let Some((t, c)) = *buffer {
        let _ = add_item(inv, t, c, max_stack);
    }
    *buffer = None;
}

/// Contents of one machine slot.
#[derive(Clone, Copy, Debug, PartialEq, Eq, Structural)]
pub struct SlotContents {
    pub item_id: Option<BlockType>,
    pub count: u32,
}

/// What a slot gives back when its machine is broken.
pub open spec fn slot_return(s: SlotContents) -> Seq<(BlockType, u32)> {
    match s.item_id {
        Some(t) => if s.count > 0 { seq![(t, s.count)] } else { Seq::empty() },
        None => Seq::empty(),
    }
}

pub open spec fn slots_return(v: Seq<SlotContents>) -> Seq<(BlockType, u32)>
    decreases v.len(),
{
    if v.len() == 0 {
        Seq::empty()
    } else {
        slots_return(v.drop_last()) + slot_return(v.last())
    }
}

fn push_slot_returns(out: &mut Vec<(BlockType, u32)>, slots: &Vec<SlotContents>)
    ensures
        final(out)@ == old(out)@ + slots_return(slots@),
{
    let mut i: usize = 0;
    while i < slots.len()
        invariant
            i <= slots.len(),
            out@ == old(out)@ + slots_return(slots@.take(i as int)),
        decreases slots.len() - i,
    {
        proof {
            assert(slots@.take(i as int + 1).drop_last() =~= slots@.take(i as int));
        }
        let s = slots[i];
        let ghost before = out@;
        if let Some(t) = s.item_id {
            if s.count > 0 {
                out.push((t, s.count));
            }
        }
        proof {
            assert(out@ =~= before + slot_return(s));
            assert(old(out)@ + slots_return(slots@.take(i as int + 1)) =~= old(out)@ + slots_return(slots@.take(i as int)) + slot_return(s));
        }
        i = i + 1;
    }
    assert(slots@.take(i as int) =~= slots@);
}

/// What breaking a miner, crusher or furnace gives the player: its fuel as coal,
/// the contents of its input and output slots, and the machine itself. Other
/// kinds are not broken this way.
pub open spec fn spec_machine_break_returns(
    machine: BlockType,
    fuel: u32,
    inputs: Seq<SlotContents>,
    outputs: Seq<SlotContents>,
) -> Option<Seq<(BlockType, u32)>> {
    if machine == BlockType::MinerBlock || machine == BlockType::CrusherBlock || machine
        == BlockType::FurnaceBlock {
        Some((if fuel > 0 { seq![(BlockType::Coal, fuel)] } else { Seq::empty() }) + slots_return(
            inputs,
        ) + slots_return(outputs) + seq![(machine, 1u32)])
    } else {
        None
    }
}

pub fn machine_break_returns(
    machine: BlockType,
    fuel: u32,
    inputs: &Vec<SlotContents>,
    outputs: &Vec<SlotContents>,
) -> (r: Option<Vec<(BlockType, u32)>>)
    ensures
        match r {
            Some(v) => spec_machine_break_returns(machine, fuel, inputs@, outputs@) == Some(v@),
            None => spec_machine_break_returns(machine, fuel, inputs@, outputs@) is None,
        },
{
    if machine == BlockType::MinerBlock || machine == BlockType::CrusherBlock || machine
        == BlockType::FurnaceBlock {
        let mut out: Vec<(BlockType, u32)> = Vec::new();
        if fuel > 0 {
            out.push((BlockType::Coal, fuel));
        }
        proof {
            assert(out@ =~= (if fuel > 0 { seq![(BlockType::Coal, fuel)] } else { Seq::empty() }));
        }
        push_slot_returns(&mut out, inputs);
        push_slot_returns(&mut out, outputs);
        out.push((machine, 1));
        Some(out)
    } else {
        None
    }
}

/// What breaking a belt gives the player: one of each item it carries, then the belt.
pub fn conveyor_break_returns(items: &Vec<BlockType>) -> (r: Vec<(BlockType, u32)>)
    ensures
        r@ == items@.map_values(|t: BlockType| (t, 1u32)).push((BlockType::ConveyorBlock, 1u32)),
{
    let mut out: Vec<(BlockType, u32)> = Vec::new();
    let mut i: usize = 0;
    while i < items.len()
        invariant
            i <= items.len(),
            out@ =~= items@.take(i as int).map_values(|t: BlockType| (t, 1u32)),
        decreases items.len() - i,
    {
        out.push((items[i], 1));
        proof {
            assert(items@.take(i as int + 1).map_values(|t: BlockType| (t, 1u32)) =~= items@.take(
                i as int,
            ).map_values(|t: BlockType| (t, 1u32)).push((items@[i as int], 1u32)));
        }
        i = i + 1;
    }
    assert(items@.take(i as int) =~= items@);
    out.push((BlockType::ConveyorBlock, 1));
    out
}

/// A completed smelt adds one ingot of the ore's own metal: a furnace smelting
/// copper ore gains one copper ingot, one smelting iron ore one iron ingot,
/// using up one coal and one ore.
pub proof fn law_smelt_makes_ingot(f: Furnace)
    requires
        furnace_wf(f),
        spec_furnace_ready(f),
    ensures
        f.input_type == Some(BlockType::CopperOre) ==> spec_furnace_frame(f, true).output_type == Some(BlockType::CopperIngot),
        f.input_type == Some(BlockType::IronOre) ==> spec_furnace_frame(f, true).output_type == Some(BlockType::IronIngot),
        spec_furnace_frame(f, true).output_count == f.output_count + 1,
        spec_furnace_frame(f, true).fuel == f.fuel - 1,
        spec_furnace_frame(f, true).input_count == f.input_count - 1,
{
}

/// A completed mining cycle adds one of the block beneath the miner, as that
/// same kind: into an empty buffer it makes one, onto a buffer of that kind
/// one more.
pub proof fn law_miner_mines_block_below(buffer: Option<(BlockType, u32)>, b: BlockType)
    requires
        buffer_wf(buffer),
        b == BlockType::IronOre || b == BlockType::CopperOre || b == BlockType::Coal || b == BlockType::Stone,
    ensures
        buffer is None ==> spec_mine_step(buffer, Some(b)) == MineStep::Mine(b)
            && spec_miner_frame(buffer, Some(b), true) == Some((b, 1u32)),
        buffer is Some && buffer.unwrap().0 == b && buffer.unwrap().1 < MACHINE_SLOT_LIMIT
            ==> spec_mine_step(buffer, Some(b)) == MineStep::Mine(b)
            && spec_miner_frame(buffer, Some(b), true) == Some((b, (buffer.unwrap().1 + 1) as u32)),
{
}

} // verus!
