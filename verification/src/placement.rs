//! Right-click placement: where a block goes, whether the spot is free, what it
//! costs, and which way a machine or belt faces.

use vstd::prelude::*;
use crate::edits::{source_of, spec_source_of, BlockEvent, WorldEdit};
use crate::conveyor::{first_at, first_conveyor_at, occupied, spec_placed_shape, placed_conveyor_shape, contains_pos, ConveyorShape};
use crate::geometry::{Direction, Pos};
use crate::inventory::{take_pass, total, PlayerInventory};
use crate::items::{spec_is_machine, spec_is_placeable, BlockType};

verus! {

/// A face normal of the hit block: each coordinate is -1, 0 or 1.
pub open spec fn unit_offset(n: Pos) -> bool {
    -1 <= n.x <= 1 && -1 <= n.y <= 1 && -1 <= n.z <= 1
}

/// A step along one axis: one coordinate is 1 or -1, the others 0.
pub open spec fn axis_unit(n: Pos) -> bool {
    ||| n.x == 0 && n.y == 0 && (n.z == 1 || n.z == -1)
    ||| n.x == 0 && n.z == 0 && (n.y == 1 || n.y == -1)
    ||| n.y == 0 && n.z == 0 && (n.x == 1 || n.x == -1)
}

pub open spec fn spec_place_position(hit: Pos, normal: Pos) -> Pos {
    hit.spec_shifted(normal.x as int, normal.y as int, normal.z as int)
}

/// The block goes on the face of the hit block that the ray came through.
pub fn place_position(hit: Pos, normal: Pos) -> (p: Pos)
    requires
        hit.interior(),
        unit_offset(normal),
    ensures
        p == spec_place_position(hit, normal),
{
    Pos { x: hit.x + normal.x, y: hit.y + normal.y, z: hit.z + normal.z }
}

/// The spot is taken by a world block, a belt or a machine.
pub open spec fn spot_taken(p: Pos, world_occupied: bool, convs: Seq<(Pos, Direction)>, machines: Seq<Pos>) -> bool {
    world_occupied || occupied(convs, p) || machines.contains(p)
}

pub fn is_spot_taken(p: Pos, world_occupied: bool, convs: &Vec<(Pos, Direction)>, machines: &Vec<Pos>) -> (r: bool)
    ensures
        r == spot_taken(p, world_occupied, convs@, machines@),
{
    if world_occupied {
        return true;
    }
    if first_conveyor_at(convs, p).is_some() {
        return true;
    }
    contains_pos(machines, p)
}

/// The facing a newly placed item takes: a belt takes the automatic belt
/// direction, a machine the player's facing, each turned clockwise by the R-key
/// offset; anything else takes the player's facing.
pub open spec fn spec_placement_facing(kind: BlockType, player_facing: Direction, auto_direction: Direction, offset: u8) -> Direction {
    if kind == BlockType::ConveyorBlock {
        auto_direction.spec_rotate_cw_n(offset as nat)
    } else if spec_is_machine(kind) {
        player_facing.spec_rotate_cw_n(offset as nat)
    } else {
        player_facing
    }
}

pub fn placement_facing(kind: BlockType, player_facing: Direction, auto_direction: Direction, offset: u8) -> (d: Direction)
    ensures
        d == spec_placement_facing(kind, player_facing, auto_direction, offset),
{
    if kind == BlockType::ConveyorBlock {
        auto_direction.rotate_cw_n(offset)
    } else if kind.is_machine() {
        player_facing.rotate_cw_n(offset)
    } else {
        player_facing
    }
}

/// What a right-click placement put into the world.
#[derive(Clone, Copy, Debug, PartialEq, Eq, Structural)]
pub enum PlaceOutcome {
    /// Nothing was placed.
    Nothing,
    /// A miner, furnace or crusher now stands at `pos`, facing `facing`.
    Machine { kind: BlockType, pos: Pos, facing: Direction },
    /// A belt now stands at `pos`, facing `dir`, with the given shape.
    Conveyor { pos: Pos, dir: Direction, shape: ConveyorShape },
    /// A world block was set (see [`WorldEdit`]: only that position changes and
    /// its chunk is marked dirty) and one block-placed event is sent.
    Block { edit: WorldEdit, event: BlockEvent },
}

/// A block hit by the view ray, with the normal of the face the ray came through.
#[derive(Clone, Copy, Debug, PartialEq, Eq, Structural)]
pub struct RayHit {
    pub block: Pos,
    pub normal: Pos,
}

/// What the placement system sees this frame, besides the inventory and the
/// belts and machines already standing.
#[derive(Clone, Copy, Debug, PartialEq, Eq, Structural)]
pub struct PlaceRequest {
    /// No menu or pause blocks block actions and the cursor is grabbed.
    pub actions_allowed: bool,
    /// Right button just pressed, or held with the repeat timer run out.
    pub can_place: bool,
    /// The view ray meets a miner, furnace or crusher within reach.
    pub looking_at_machine: bool,
    /// The nearest block hit by the view ray and the normal of the face the ray
    /// came through, if anything was hit; the new block goes in front of that face.
    pub hit: Option<RayHit>,
    /// A world block already fills the cell in front of the hit face.
    pub world_occupied: bool,
    /// The local player's entity, the source of a placed block's event.
    pub player: Option<u64>,
    pub creative: bool,
    /// The player's compass facing.
    pub player_facing: Direction,
    /// The direction the automatic belt rule picks at `target`.
    pub auto_direction: Direction,
}

/// The kind in the selected hotbar slot.
pub open spec fn selected_kind(inv: PlayerInventory) -> Option<BlockType> {
    if inv.selected_slot < inv.slots@.len() {
        match inv.slots@[inv.selected_slot as int] {
            Some((t, _)) => Some(t),
            None => None,
        }
    } else {
        None
    }
}

/// Placement does not even look for a spot: actions are blocked, the button is
/// not down, nothing placeable is selected, a machine is in the way or the ray
/// hit nothing.
pub open spec fn place_skipped(req: PlaceRequest, sel: Option<BlockType>) -> bool {
    ||| !req.actions_allowed
    ||| !req.can_place
    ||| sel is None
    ||| !spec_is_placeable(sel.unwrap())
    ||| req.looking_at_machine
    ||| req.hit is None
}

/// The cell a placement goes into.
pub open spec fn place_cell(req: PlaceRequest) -> Pos {
    spec_place_position(req.hit.unwrap().block, req.hit.unwrap().normal)
}

/// The position a placement outcome puts something at.
pub open spec fn outcome_pos(out: PlaceOutcome) -> Option<Pos> {
    match out {
        PlaceOutcome::Nothing => None,
        PlaceOutcome::Machine { pos, .. } => Some(pos),
        PlaceOutcome::Conveyor { pos, .. } => Some(pos),
        PlaceOutcome::Block { edit, .. } => Some(edit.pos),
    }
}

/// What is put into the world once the spot is free and paid for.
pub open spec fn spec_place_outcome(
    kind: BlockType,
    p: Pos,
    req: PlaceRequest,
    convs: Seq<(Pos, Direction)>,
    offset: u8,
) -> PlaceOutcome {
    match kind {
        BlockType::MinerBlock | BlockType::FurnaceBlock | BlockType::CrusherBlock =>
            PlaceOutcome::Machine { kind, pos: p, facing: req.player_facing },
        BlockType::ConveyorBlock => {
            let dir = spec_placement_facing(kind, req.player_facing, req.auto_direction, offset);
            PlaceOutcome::Conveyor { pos: p, dir, shape: spec_placed_shape(dir, first_at(convs, p.spec_step(dir))) }
        },
        _ => PlaceOutcome::Block {
            edit: WorldEdit { pos: p, block: Some(kind) },
            event: BlockEvent { pos: p, block: kind, source: spec_source_of(req.player) },
        },
    }
}

/// One frame of right-click placement.
///
/// When placement goes ahead, survival mode takes one of the selected kind from
/// the inventory (placement fails without it); creative mode takes nothing.
/// Miners, furnaces and crushers face the player; a belt faces the automatic
/// belt direction turned by the R-key offset, bends towards a belt in front of it
/// that faces sideways, and resets the offset; any other kind becomes a world
/// block, reported by one block-placed event from the local player (or from the
/// game when there is none). The cell is the hit block moved one step along
/// one axis, through the face the ray came in by.
pub fn block_place(
    req: &PlaceRequest,
    inv: &mut PlayerInventory,
    convs: &Vec<(Pos, Direction)>,
    machines: &Vec<Pos>,
    offset: &mut u8,
) -> (out: PlaceOutcome)
    requires
        req.hit matches Some(h) ==> h.block.interior() && axis_unit(h.normal)
            && spec_place_position(h.block, h.normal).interior(),
    ensures
        ({
            let sel = selected_kind(*old(inv));
            let p = place_cell(*req);
            let kind = sel.unwrap();
            if place_skipped(*req, sel) || spot_taken(p, req.world_occupied, convs@, machines@)
                || (!req.creative && total(old(inv).slots@, kind) < 1) {
                &&& out == PlaceOutcome::Nothing
                &&& final(inv).slots@ == old(inv).slots@
                &&& *final(offset) == *old(offset)
            } else {
                &&& out == spec_place_outcome(kind, p, *req, convs@, *old(offset))
                &&& final(inv).slots@ == (if req.creative { old(inv).slots@ } else { take_pass(old(inv).slots@, kind, 1, 0) })
                &&& *final(offset) == (if kind == BlockType::ConveyorBlock { 0 } else { *old(offset) })
            }
        }),
        out !is Nothing ==> req.hit is Some && axis_unit(req.hit.unwrap().normal)
            && outcome_pos(out) == Some(spec_place_position(req.hit.unwrap().block, req.hit.unwrap().normal)),
        final(inv).selected_slot == old(inv).selected_slot,
        final(inv).max_stack == old(inv).max_stack,
{
    if !req.actions_allowed || !req.can_place {
        return PlaceOutcome::Nothing;
    }
    let kind = match inv.selected_item_id() {
        Some(k) => k,
        None => return PlaceOutcome::Nothing,
    };
    if !kind.is_placeable() || req.looking_at_machine {
        return PlaceOutcome::Nothing;
    }
    let p = match req.hit {
        Some(h) => place_position(h.block, h.normal),
        None => return PlaceOutcome::Nothing,
    };
    if is_spot_taken(p, req.world_occupied, convs, machines) {
        return PlaceOutcome::Nothing;
    }
    if !req.creative && !inv.consume_item_by_id(kind, 1) {
        return PlaceOutcome::Nothing;
    }
    match kind {
        BlockType::MinerBlock | BlockType::FurnaceBlock | BlockType::CrusherBlock => {
            PlaceOutcome::Machine { kind, pos: p, facing: req.player_facing }
        },
        BlockType::ConveyorBlock => {
            let dir = placement_facing(kind, req.player_facing, req.auto_direction, *offset);
            let shape = placed_conveyor_shape(p, dir, convs);
            *offset = 0;
            PlaceOutcome::Conveyor { pos: p, dir, shape }
        },
        _ => PlaceOutcome::Block {
            edit: WorldEdit { pos: p, block: Some(kind) },
            event: BlockEvent { pos: p, block: kind, source: source_of(req.player) },
        },
    }
}

/// The R key turns the belt placement a quarter turn clockwise; holding anything
/// but a belt resets the turn.
pub fn rotate_conveyor_placement(selected: Option<BlockType>, actions_allowed: bool, r_pressed: bool, offset: &mut u8)
    requires
        *old(offset) < 4,
    ensures
        *final(offset) == (if selected != Some(BlockType::ConveyorBlock) {
            0
        } else if actions_allowed && r_pressed {
            ((*old(offset) + 1) % 4) as u8
        } else {
            *old(offset)
        }),
        *final(offset) < 4,
{
    if selected != Some(BlockType::ConveyorBlock) {
        *offset = 0;
        return;
    }
    if !actions_allowed {
        return;
    }
    if r_pressed {
        *offset = (*offset + 1) % 4;
    }
}

/// The facing shown by the placement preview: the facing the item would get if
/// placed (see [`spec_placement_facing`]) when a belt or a miner, furnace or
/// crusher is selected and there is a place target and a known player facing;
/// the player's facing when one of those is selected but that is not all known;
/// nothing otherwise.
pub open spec fn spec_preview_direction(
    selected: Option<BlockType>,
    has_place_target: bool,
    player_facing: Option<Direction>,
    auto_direction: Direction,
    offset: u8,
) -> Option<Direction> {
    let placing = selected == Some(BlockType::ConveyorBlock) || selected == Some(BlockType::MinerBlock)
        || selected == Some(BlockType::FurnaceBlock) || selected == Some(BlockType::CrusherBlock);
    if !placing {
        None
    } else if has_place_target && player_facing is Some {
        Some(spec_placement_facing(selected.unwrap(), player_facing.unwrap(), auto_direction, offset))
    } else {
        player_facing
    }
}

pub fn preview_direction(
    selected: Option<BlockType>,
    has_place_target: bool,
    player_facing: Option<Direction>,
    auto_direction: Direction,
    offset: u8,
) -> (d: Option<Direction>)
    ensures
        d == spec_preview_direction(selected, has_place_target, player_facing, auto_direction, offset),
{
    let kind = match selected {
        Some(k) => k,
        None => return None,
    };
    let placing = match kind {
        BlockType::ConveyorBlock | BlockType::MinerBlock | BlockType::FurnaceBlock | BlockType::CrusherBlock => true,
        _ => false,
    };
    if !placing {
        return None;
    }
    match player_facing {
        Some(f) => if has_place_target {
            Some(placement_facing(kind, f, auto_direction, offset))
        } else {
            Some(f)
        },
        None => None,
    }
}

/// The blocks the player aims at: the one to break and the cell to place into.
#[derive(Clone, Copy, Debug, PartialEq, Eq, Structural)]
pub struct TargetBlock {
    pub break_target: Option<Pos>,
    pub place_target: Option<Pos>,
}

/// Aim update for one frame. While a machine window is open, the game is
/// paused or the cursor is free, nothing is aimed at. Otherwise the first solid
/// block on the view ray (`hit`, with the normal of the face the ray enters) is
/// the break target and the cell in front of that face the place target.
pub fn update_target_block(t: &mut TargetBlock, ui_blocked: bool, cursor_locked: bool, hit: Option<(Pos, Pos)>)
    requires
        hit matches Some(h) ==> h.0.interior() && unit_offset(h.1),
    ensures
        *final(t) == (if ui_blocked || !cursor_locked {
            TargetBlock { break_target: None, place_target: None }
        } else {
            match hit {
                Some(h) => TargetBlock { break_target: Some(h.0), place_target: Some(spec_place_position(h.0, h.1)) },
                None => TargetBlock { break_target: None, place_target: None },
            }
        }),
{
    if ui_blocked || !cursor_locked {
        t.break_target = None;
        t.place_target = None;
        return;
    }
    match hit {
        Some((p, n)) => {
            t.break_target = Some(p);
            t.place_target = Some(place_position(p, n));
        },
        None => {
            t.break_target = None;
            t.place_target = None;
        },
    }
}

/// The break highlight takes the shape of a belt when a belt stands at the
/// break target (the first one listed there, with its facing), else of a cube.
pub fn break_highlight_direction(break_target: Option<Pos>, convs: &Vec<(Pos, Direction)>) -> (d: Option<Direction>)
    ensures
        d == (match break_target {
            Some(p) => first_at(convs@, p),
            None => None,
        }),
{
    match break_target {
        Some(p) => first_conveyor_at(convs, p),
        None => None,
    }
}

} // verus!
