//! Hold-to-break sessions: which target is being broken, when a new session
//! starts, and what the player gets back when the break completes.

use vstd::prelude::*;
use crate::edits::{source_of, spec_source_of, BlockEvent, WorldEdit};
use crate::geometry::Pos;
use crate::inventory::{spec_store, PlayerInventory, Slot};
use crate::items::{spec_is_machine, BlockType};
use crate::machines::{conveyor_break_returns, machine_break_returns, spec_machine_break_returns, SlotContents};

verus! {

/// What the player is breaking.
#[derive(Clone, Copy, Debug, PartialEq, Eq, Structural)]
pub enum BreakTarget {
    /// A machine or belt entity and the item it drops.
    Machine(u64, BlockType),
    /// A world block at a position and its kind.
    WorldBlock(Pos, BlockType),
}

/// The target of the break in progress (the elapsed fraction is kept beside it).
#[derive(Clone, Copy, Debug, PartialEq, Eq, Structural)]
pub struct BreakSession {
    pub target_entity: Option<u64>,
    pub target_pos: Option<Pos>,
    pub is_machine: bool,
}

/// No break in progress.
pub open spec fn idle_session() -> BreakSession {
    BreakSession { target_entity: None, target_pos: None, is_machine: false }
}

/// The session that breaking `t` starts.
pub open spec fn session_for(t: BreakTarget) -> BreakSession {
    match t {
        BreakTarget::Machine(e, _) => BreakSession { target_entity: Some(e), target_pos: None, is_machine: true },
        BreakTarget::WorldBlock(p, _) => BreakSession { target_entity: None, target_pos: Some(p), is_machine: false },
    }
}

/// The session is not about `t`: for a machine, a different (or no) entity; for a
/// world block, a different (or no) position, or a machine session.
pub open spec fn spec_target_changed(s: BreakSession, t: BreakTarget) -> bool {
    match t {
        BreakTarget::Machine(e, _) => s.target_entity != Some(e),
        BreakTarget::WorldBlock(p, _) => s.target_pos != Some(p) || s.is_machine,
    }
}

impl BreakSession {
    pub fn new() -> (s: BreakSession)
        ensures
            s == idle_session(),
    {
        BreakSession { target_entity: None, target_pos: None, is_machine: false }
    }

    /// Forget the target.
    pub fn reset(&mut self)
        ensures
            *final(self) == idle_session(),
    {
        self.target_entity = None;
        self.target_pos = None;
        self.is_machine = false;
    }
}

pub fn target_changed(s: &BreakSession, t: BreakTarget) -> (r: bool)
    ensures
        r == spec_target_changed(*s, t),
{
    match t {
        BreakTarget::Machine(e, _) => s.target_entity != Some(e),
        BreakTarget::WorldBlock(p, _) => s.target_pos != Some(p) || s.is_machine,
    }
}

/// Aim at `t`: when it is not the current target, a fresh session for it starts
/// (and the caller starts the elapsed fraction from zero). Returns whether a new
/// session started.
pub fn aim_at(s: &mut BreakSession, t: BreakTarget) -> (started: bool)
    ensures
        started == spec_target_changed(*old(s), t),
        *final(s) == (if started { session_for(t) } else { *old(s) }),
{
    if target_changed(s, t) {
        s.reset();
        match t {
            BreakTarget::Machine(e, _) => {
                s.target_entity = Some(e);
                s.is_machine = true;
            },
            BreakTarget::WorldBlock(p, _) => {
                s.target_pos = Some(p);
                s.is_machine = false;
            },
        }
        true
    } else {
        false
    }
}

/// The item whose break time applies.
pub fn break_item(t: BreakTarget) -> (b: BlockType)
    ensures
        b == (match t {
            BreakTarget::Machine(_, b) => b,
            BreakTarget::WorldBlock(_, b) => b,
        }),
{
    match t {
        BreakTarget::Machine(_, b) => b,
        BreakTarget::WorldBlock(_, b) => b,
    }
}

/// A world block can be the break target unless its kind is a machine (machines
/// are broken as entities), it is beyond reach, or the delivery platform is hit
/// first.
pub open spec fn spec_world_block_breakable(kind: BlockType, within_reach: bool, platform_in_front: bool) -> bool {
    !spec_is_machine(kind) && within_reach && !platform_in_front
}

pub fn world_block_breakable(kind: BlockType, within_reach: bool, platform_in_front: bool) -> (r: bool)
    ensures
        r == spec_world_block_breakable(kind, within_reach, platform_in_front),
{
    !kind.is_machine() && within_reach && !platform_in_front
}

/// What a frame of hold-to-break does before the timing.
#[derive(Clone, Copy, Debug, PartialEq, Eq, Structural)]
pub enum BreakStep {
    /// Not breaking: the session is reset (and the elapsed fraction with it).
    Idle,
    /// Breaking the target; `started` tells whether a new session began
    /// (the elapsed fraction starts from zero).
    Aiming { started: bool },
}

/// One frame of hold-to-break: without an inventory, with block actions
/// blocked or the cursor free, with the button up, or with nothing in reach,
/// the session is reset; otherwise it follows the target (see [`aim_at`]).
pub fn block_break(s: &mut BreakSession, has_inventory: bool, allowed: bool, pressing: bool, target: Option<BreakTarget>) -> (step: BreakStep)
    ensures
        (!has_inventory || !allowed || !pressing || target is None) ==> step == BreakStep::Idle && *final(s) == idle_session(),
        (has_inventory && allowed && pressing && target is Some) ==> {
            let started = spec_target_changed(*old(s), target.unwrap());
            &&& step == (BreakStep::Aiming { started })
            &&& *final(s) == (if started { session_for(target.unwrap()) } else { *old(s) })
        },
{
    if !has_inventory || !allowed || !pressing {
        s.reset();
        return BreakStep::Idle;
    }
    match target {
        Some(t) => {
            let started = aim_at(s, t);
            BreakStep::Aiming { started }
        },
        None => {
            s.reset();
            BreakStep::Idle
        },
    }
}

/// The inventory after storing each (item, amount) of the first `n` in turn;
/// what does not fit is dropped.
pub open spec fn store_all(slots: Seq<Slot>, items: Seq<(BlockType, u32)>, max_stack: u32, n: int) -> Seq<Slot>
    decreases n,
{
    if n <= 0 {
        slots
    } else {
        let prev = store_all(slots, items, max_stack, n - 1);
        spec_store(prev, items[n - 1].0, items[n - 1].1 as nat, 0, prev.len() as int, max_stack).0
    }
}

/// A completed break hands the player what it gives back, in order (see
/// [`crate::machines::machine_break_returns`] and
/// [`crate::machines::conveyor_break_returns`]; a world block gives one of
/// itself); what does not fit is lost.
pub fn give_break_returns(inv: &mut PlayerInventory, items: &Vec<(BlockType, u32)>)
    ensures
        final(inv).slots@ == store_all(old(inv).slots@, items@, old(inv).max_stack, items@.len() as int),
        final(inv).selected_slot == old(inv).selected_slot,
        final(inv).max_stack == old(inv).max_stack,
{
    let mut i: usize = 0;
    while i < items.len()
        invariant
            i <= items.len(),
            inv.max_stack == old(inv).max_stack,
            inv.selected_slot == old(inv).selected_slot,
            inv.slots@ == store_all(old(inv).slots@, items@, old(inv).max_stack, i as int),
        decreases items.len() - i,
    {
        let (item, n) = items[i];
        let _ = inv.add_item_by_id(item, n);
        i = i + 1;
    }
}

/// What the machine entity being broken holds, as far as it could be read.
pub enum MachineHoldings {
    /// A belt: the items on it and the entities that show them.
    Belt { items: Vec<BlockType>, visuals: Vec<u64> },
    /// A miner, furnace or crusher: its fuel and its input and output slots.
    Slots { fuel: u32, inputs: Vec<SlotContents>, outputs: Vec<SlotContents> },
    /// Nothing could be read from the entity.
    Unknown,
}

/// What breaking a machine of kind `kind` gives back, or `None` when `kind` is no
/// belt, miner, furnace or crusher (then nothing happens to the entity).
/// A belt gives one of each item it carries and then itself; a miner, furnace
/// or crusher gives its fuel as coal, its slot contents and then itself (only
/// itself when its slots could not be read).
pub open spec fn spec_machine_returns(kind: BlockType, h: MachineHoldings) -> Option<Seq<(BlockType, u32)>> {
    if kind == BlockType::ConveyorBlock {
        let items = match h {
            MachineHoldings::Belt { items, .. } => items@,
            _ => Seq::empty(),
        };
        Some(items.map_values(|t: BlockType| (t, 1u32)).push((BlockType::ConveyorBlock, 1u32)))
    } else if kind == BlockType::MinerBlock || kind == BlockType::CrusherBlock || kind == BlockType::FurnaceBlock {
        match h {
            MachineHoldings::Slots { fuel, inputs, outputs } => spec_machine_break_returns(kind, fuel, inputs@, outputs@),
            _ => Some(seq![(kind, 1u32)]),
        }
    } else {
        None
    }
}

/// The item entities shown on a broken belt, which leave with it.
pub open spec fn spec_broken_visuals(kind: BlockType, h: MachineHoldings) -> Seq<u64> {
    match h {
        MachineHoldings::Belt { visuals, .. } => if kind == BlockType::ConveyorBlock { visuals@ } else { Seq::empty() },
        _ => Seq::empty(),
    }
}

/// What a completed break does besides filling the inventory.
pub struct BreakCompletion {
    /// The world block removed (its chunk marked dirty at that position).
    pub edit: Option<WorldEdit>,
    /// The block-broken event sent for a world block.
    pub broken: Option<BlockEvent>,
    /// The machine entity removed, with its children.
    pub despawn: Option<u64>,
    /// The item entities shown on a broken belt, removed with it.
    pub despawn_visuals: Vec<u64>,
    /// The tutorial hears that a block was broken.
    pub tutorial_broken: bool,
}

/// The break of `target` completes (its progress reached the whole break time).
///
/// A world block leaves the world (nothing else changes), the player gets one
/// of it, its chunk is marked dirty and one block-broken event is sent, from the
/// local player when there is one. A belt, miner, furnace or crusher entity is
/// removed (the world is untouched) and the player gets back what it held and
/// the machine itself (see [`spec_machine_returns`]). Either way one tutorial
/// event is sent and the session is reset. What does not fit in the inventory
/// is lost.
pub fn complete_break(
    s: &mut BreakSession,
    inv: &mut PlayerInventory,
    target: BreakTarget,
    holdings: MachineHoldings,
    player: Option<u64>,
) -> (c: BreakCompletion)
    ensures
        *final(s) == idle_session(),
        c.tutorial_broken,
        final(inv).selected_slot == old(inv).selected_slot,
        final(inv).max_stack == old(inv).max_stack,
        match target {
            BreakTarget::WorldBlock(p, k) => {
                &&& c.edit == Some(WorldEdit { pos: p, block: None })
                &&& c.broken == Some(BlockEvent { pos: p, block: k, source: spec_source_of(player) })
                &&& c.despawn is None
                &&& c.despawn_visuals@.len() == 0
                &&& final(inv).slots@ == store_all(old(inv).slots@, seq![(k, 1u32)], old(inv).max_stack, 1)
            },
            BreakTarget::Machine(e, k) => {
                &&& c.edit is None
                &&& c.broken is None
                &&& c.despawn == (if spec_machine_returns(k, holdings) is Some { Some(e) } else { None })
                &&& c.despawn_visuals@ == spec_broken_visuals(k, holdings)
                &&& final(inv).slots@ == (match spec_machine_returns(k, holdings) {
                    Some(items) => store_all(old(inv).slots@, items, old(inv).max_stack, items.len() as int),
                    None => old(inv).slots@,
                })
            },
        },
{
    s.reset();
    match target {
        BreakTarget::WorldBlock(p, k) => {
            let items = vec![(k, 1u32)];
            proof {
                assert(items@ =~= seq![(k, 1u32)]);
            }
            give_break_returns(inv, &items);
            BreakCompletion {
                edit: Some(WorldEdit { pos: p, block: None }),
                broken: Some(BlockEvent { pos: p, block: k, source: source_of(player) }),
                despawn: None,
                despawn_visuals: Vec::new(),
                tutorial_broken: true,
            }
        },
        BreakTarget::Machine(e, k) => {
            let ghost h = holdings;
            let is_slot_machine = k == BlockType::MinerBlock || k == BlockType::CrusherBlock || k == BlockType::FurnaceBlock;
            if k == BlockType::ConveyorBlock {
                let (items, visuals) = match holdings {
                    MachineHoldings::Belt { items, visuals } => (items, visuals),
                    _ => (Vec::new(), Vec::new()),
                };
                proof {
                    assert(items@ == (match h {
                        MachineHoldings::Belt { items, .. } => items@,
                        _ => Seq::<BlockType>::empty(),
                    }));
                    assert(visuals@ =~= spec_broken_visuals(k, h));
                }
                let back = conveyor_break_returns(&items);
                give_break_returns(inv, &back);
                BreakCompletion { edit: None, broken: None, despawn: Some(e), despawn_visuals: visuals, tutorial_broken: true }
            } else if is_slot_machine {
                let back = match holdings {
                    MachineHoldings::Slots { fuel, inputs, outputs } => {
                        match machine_break_returns(k, fuel, &inputs, &outputs) {
                            Some(v) => v,
                            None => Vec::new(),
                        }
                    },
                    _ => {
                        let v = vec![(k, 1u32)];
                        proof {
                            assert(v@ =~= seq![(k, 1u32)]);
                        }
                        v
                    },
                };
                give_break_returns(inv, &back);
                proof {
                    assert(spec_broken_visuals(k, h) =~= Seq::<u64>::empty());
                }
                BreakCompletion { edit: None, broken: None, despawn: Some(e), despawn_visuals: Vec::new(), tutorial_broken: true }
            } else {
                proof {
                    assert(spec_broken_visuals(k, h) =~= Seq::<u64>::empty());
                }
                BreakCompletion { edit: None, broken: None, despawn: None, despawn_visuals: Vec::new(), tutorial_broken: true }
            }
        },
    }
}

/// Aiming again at the target of the session that just started starts nothing.
pub proof fn law_aim_twice(t: BreakTarget)
    ensures
        !spec_target_changed(session_for(t), t),
{
}

/// From no session, every target starts a new one.
pub proof fn law_idle_always_starts(t: BreakTarget)
    ensures
        spec_target_changed(idle_session(), t),
{
}

} // verus!
