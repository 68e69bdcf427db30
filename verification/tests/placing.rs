use idle_factory::breaking::{aim_at, break_item, target_changed, world_block_breakable, BreakSession, BreakTarget};
use idle_factory::conveyor::ConveyorShape;
use idle_factory::geometry::{Direction, Pos};
use idle_factory::guide::{generate_conveyor_guide_positions, generate_processor_guide_positions, guide_kind, guide_refresh, GuideKind};
use idle_factory::inventory::PlayerInventory;
use idle_factory::items::BlockType;
use idle_factory::placement::{
    block_place, break_highlight_direction, is_spot_taken, place_position, placement_facing, preview_direction,
    rotate_conveyor_placement, update_target_block, PlaceOutcome, PlaceRequest, RayHit, TargetBlock,
};
use idle_factory::edits::{BlockEvent, EventSource, WorldEdit};

fn p(x: i32, y: i32, z: i32) -> Pos {
    Pos { x, y, z }
}

/// A request whose ray hit the top face of the block below `target`.
fn request(target: Option<Pos>) -> PlaceRequest {
    PlaceRequest {
        actions_allowed: true,
        can_place: true,
        looking_at_machine: false,
        hit: target.map(|t| RayHit { block: p(t.x, t.y - 1, t.z), normal: p(0, 1, 0) }),
        world_occupied: false,
        player: Some(7),
        creative: false,
        player_facing: Direction::North,
        auto_direction: Direction::East,
    }
}

fn inventory_with(kind: BlockType, n: u32) -> PlayerInventory {
    let mut inv = PlayerInventory::new(36, 64);
    inv.add_item_by_id(kind, n);
    inv
}

#[test]
fn place_position_adds_face_normal() {
    assert_eq!(place_position(p(3, 8, -2), p(0, 1, 0)), p(3, 9, -2));
    assert_eq!(place_position(p(3, 8, -2), p(-1, 0, 0)), p(2, 8, -2));
}

#[test]
fn placing_stone_consumes_one_and_sets_block() {
    let mut inv = inventory_with(BlockType::Stone, 3);
    let mut offset: u8 = 2;
    let out = block_place(&request(Some(p(1, 9, 1))), &mut inv, &vec![], &vec![], &mut offset);
    assert_eq!(
        out,
        PlaceOutcome::Block {
            edit: WorldEdit { pos: p(1, 9, 1), block: Some(BlockType::Stone) },
            event: BlockEvent { pos: p(1, 9, 1), block: BlockType::Stone, source: EventSource::Player(7) },
        }
    );
    assert_eq!(inv.get_total_count_by_id(BlockType::Stone), 2);
    assert_eq!(offset, 2);
}

#[test]
fn placing_machine_faces_player_not_offset() {
    let mut inv = inventory_with(BlockType::FurnaceBlock, 1);
    let mut offset: u8 = 1;
    let out = block_place(&request(Some(p(0, 9, 0))), &mut inv, &vec![], &vec![], &mut offset);
    assert_eq!(out, PlaceOutcome::Machine { kind: BlockType::FurnaceBlock, pos: p(0, 9, 0), facing: Direction::North });
    assert_eq!(inv.get_total_count_by_id(BlockType::FurnaceBlock), 0);
    assert_eq!(offset, 1);
}

#[test]
fn placing_conveyor_turns_by_offset_and_resets_it() {
    let mut inv = inventory_with(BlockType::ConveyorBlock, 5);
    let mut offset: u8 = 1;
    // auto direction East turned once clockwise is South; the belt in front (south) faces East,
    // which is to the left of South, so the new belt bends left.
    let convs = vec![(p(0, 9, 1), Direction::East)];
    let out = block_place(&request(Some(p(0, 9, 0))), &mut inv, &convs, &vec![], &mut offset);
    assert_eq!(out, PlaceOutcome::Conveyor { pos: p(0, 9, 0), dir: Direction::South, shape: ConveyorShape::CornerLeft });
    assert_eq!(offset, 0);
    assert_eq!(inv.get_total_count_by_id(BlockType::ConveyorBlock), 4);
}

#[test]
fn placing_refused_cases_change_nothing() {
    let mut offset: u8 = 3;
    // occupied by a belt
    let mut inv = inventory_with(BlockType::Stone, 1);
    let out = block_place(&request(Some(p(0, 9, 0))), &mut inv, &vec![(p(0, 9, 0), Direction::North)], &vec![], &mut offset);
    assert_eq!(out, PlaceOutcome::Nothing);
    assert_eq!(inv.get_total_count_by_id(BlockType::Stone), 1);
    // occupied by a machine
    let out = block_place(&request(Some(p(0, 9, 0))), &mut inv, &vec![], &vec![p(0, 9, 0)], &mut offset);
    assert_eq!(out, PlaceOutcome::Nothing);
    // ingots cannot be placed
    let mut ingots = inventory_with(BlockType::IronIngot, 4);
    let out = block_place(&request(Some(p(0, 9, 0))), &mut ingots, &vec![], &vec![], &mut offset);
    assert_eq!(out, PlaceOutcome::Nothing);
    assert_eq!(ingots.get_total_count_by_id(BlockType::IronIngot), 4);
    // nothing hit
    let out = block_place(&request(None), &mut inv, &vec![], &vec![], &mut offset);
    assert_eq!(out, PlaceOutcome::Nothing);
    // looking at a machine
    let mut req = request(Some(p(0, 9, 0)));
    req.looking_at_machine = true;
    assert_eq!(block_place(&req, &mut inv, &vec![], &vec![], &mut offset), PlaceOutcome::Nothing);
    assert_eq!(offset, 3);
}

#[test]
fn creative_places_without_items_and_survival_needs_them() {
    let mut offset: u8 = 0;
    let mut empty = PlayerInventory::new(36, 64);
    empty.slots[0] = Some((BlockType::Stone, 1));
    empty.consume_item_by_id(BlockType::Stone, 1);
    // the selected slot is empty now: nothing to place
    assert_eq!(block_place(&request(Some(p(0, 9, 0))), &mut empty, &vec![], &vec![], &mut offset), PlaceOutcome::Nothing);

    let mut inv = inventory_with(BlockType::Coal, 1);
    let mut req = request(Some(p(0, 9, 0)));
    req.creative = true;
    req.player = None;
    // the ray came in through the west face of the block at (1, 9, 0)
    req.hit = Some(RayHit { block: p(1, 9, 0), normal: p(-1, 0, 0) });
    let out = block_place(&req, &mut inv, &vec![], &vec![], &mut offset);
    assert_eq!(
        out,
        PlaceOutcome::Block {
            edit: WorldEdit { pos: p(0, 9, 0), block: Some(BlockType::Coal) },
            event: BlockEvent { pos: p(0, 9, 0), block: BlockType::Coal, source: EventSource::System },
        }
    );
    assert_eq!(inv.get_total_count_by_id(BlockType::Coal), 1);
}

#[test]
fn spot_taken_checks_world_belts_and_machines() {
    assert!(is_spot_taken(p(0, 0, 0), true, &vec![], &vec![]));
    assert!(!is_spot_taken(p(0, 0, 0), false, &vec![(p(1, 0, 0), Direction::East)], &vec![p(0, 1, 0)]));
}

#[test]
fn facing_rules() {
    assert_eq!(placement_facing(BlockType::ConveyorBlock, Direction::North, Direction::West, 2), Direction::East);
    assert_eq!(placement_facing(BlockType::MinerBlock, Direction::North, Direction::West, 3), Direction::West);
    assert_eq!(placement_facing(BlockType::Stone, Direction::South, Direction::West, 3), Direction::South);
    assert_eq!(preview_direction(Some(BlockType::CrusherBlock), true, Some(Direction::East), Direction::North, 1), Some(Direction::South));
    assert_eq!(preview_direction(Some(BlockType::ConveyorBlock), false, Some(Direction::East), Direction::North, 1), Some(Direction::East));
    assert_eq!(preview_direction(Some(BlockType::Stone), true, Some(Direction::East), Direction::North, 1), None);
    assert_eq!(preview_direction(None, true, Some(Direction::East), Direction::North, 1), None);
}

#[test]
fn r_key_rotation() {
    let mut offset: u8 = 3;
    rotate_conveyor_placement(Some(BlockType::ConveyorBlock), true, true, &mut offset);
    assert_eq!(offset, 0);
    rotate_conveyor_placement(Some(BlockType::ConveyorBlock), true, true, &mut offset);
    assert_eq!(offset, 1);
    rotate_conveyor_placement(Some(BlockType::ConveyorBlock), false, true, &mut offset);
    assert_eq!(offset, 1);
    rotate_conveyor_placement(Some(BlockType::Stone), true, true, &mut offset);
    assert_eq!(offset, 0);
}

#[test]
fn target_block_update() {
    let mut t = TargetBlock { break_target: None, place_target: None };
    update_target_block(&mut t, false, true, Some((p(4, 7, 4), p(0, 1, 0))));
    assert_eq!(t, TargetBlock { break_target: Some(p(4, 7, 4)), place_target: Some(p(4, 8, 4)) });
    update_target_block(&mut t, true, true, Some((p(4, 7, 4), p(0, 1, 0))));
    assert_eq!(t, TargetBlock { break_target: None, place_target: None });
    update_target_block(&mut t, false, true, None);
    assert_eq!(t.break_target, None);
}

#[test]
fn break_highlight_follows_belt() {
    let convs = vec![(p(1, 1, 1), Direction::West), (p(1, 1, 1), Direction::East)];
    assert_eq!(break_highlight_direction(Some(p(1, 1, 1)), &convs), Some(Direction::West));
    assert_eq!(break_highlight_direction(Some(p(2, 1, 1)), &convs), None);
    assert_eq!(break_highlight_direction(None, &convs), None);
}

#[test]
fn break_session_starts_once_per_target() {
    let mut s = BreakSession::new();
    let t = BreakTarget::WorldBlock(p(1, 2, 3), BlockType::Stone);
    assert!(aim_at(&mut s, t));
    assert!(!aim_at(&mut s, t));
    assert_eq!(s.target_pos, Some(p(1, 2, 3)));
    let m = BreakTarget::Machine(9, BlockType::MinerBlock);
    assert!(target_changed(&s, m));
    assert!(aim_at(&mut s, m));
    assert!(s.is_machine);
    assert_eq!(s.target_pos, None);
    assert!(target_changed(&s, t));
    s.reset();
    assert_eq!(s, BreakSession::new());
    assert_eq!(break_item(m), BlockType::MinerBlock);
}

#[test]
fn machines_are_not_broken_as_world_blocks() {
    assert!(world_block_breakable(BlockType::Stone, true, false));
    assert!(!world_block_breakable(BlockType::FurnaceBlock, true, false));
    assert!(!world_block_breakable(BlockType::Stone, false, false));
    assert!(!world_block_breakable(BlockType::Stone, true, true));
}

#[test]
fn belt_guides_ahead_of_belts_then_beside_miners() {
    let machines = vec![(p(10, 8, 10), BlockType::MinerBlock), (p(20, 8, 20), BlockType::FurnaceBlock)];
    let convs = vec![(p(0, 8, 0), Direction::North), (p(0, 8, -1), Direction::North), (p(5, 8, 5), Direction::East)];
    let g = generate_conveyor_guide_positions(&machines, &convs);
    // the first belt points at the second one, which is taken
    assert_eq!(g, vec![p(0, 8, -2), p(6, 8, 5), p(11, 8, 10)]);
}

#[test]
fn belt_guides_are_capped_at_eight() {
    let mut convs = Vec::new();
    for i in 0..12 {
        convs.push((p(i * 10, 8, 0), Direction::South));
    }
    let g = generate_conveyor_guide_positions(&vec![], &convs);
    assert_eq!(g.len(), 8);
    assert_eq!(g[7], p(70, 8, 1));
}

#[test]
fn processor_guides_beside_belts() {
    let convs = vec![(p(0, 8, 0), Direction::North), (p(1, 8, 0), Direction::East)];
    let g = generate_processor_guide_positions(&convs);
    // north belt: +X is a belt, -X free; east belt: +Z, -Z free
    assert_eq!(g, vec![p(-1, 8, 0), p(1, 8, 1), p(1, 8, -1)]);
    assert_eq!(guide_kind(Some(BlockType::ConveyorBlock)), GuideKind::Belt);
    assert_eq!(guide_kind(Some(BlockType::CrusherBlock)), GuideKind::Processor);
    assert_eq!(guide_kind(Some(BlockType::MinerBlock)), GuideKind::NoGuide);
    assert_eq!(guide_refresh(true, false, false), (true, true));
    assert_eq!(guide_refresh(false, false, false), (false, false));
}
