use idle_factory::conveyor::{
    allowed_source, conveyor_shape, output_positions, placed_conveyor_shape, plan_belt_transfers, platform_bounds,
    port_positions, route_item, sorted_unique, target_at, zipper_pick, BeltState, ConveyorShape, TransferTarget,
};
use idle_factory::geometry::{Direction, Pos};
use idle_factory::items::BlockType;
use idle_factory::machines::{
    conveyor_break_returns, crusher_accept_from_conveyor, crusher_finish, crusher_ready, furnace_accept_from_conveyor,
    furnace_finish_smelt, furnace_ready, machine_break_returns, mine_complete, mine_step, Crusher, Furnace, MineStep,
    SlotContents,
};

fn p(x: i32, y: i32, z: i32) -> Pos {
    Pos { x, y, z }
}

#[test]
fn belt_shapes_from_neighbours() {
    let me = p(0, 0, 0);
    // fed from behind, front belt waiting: straight
    let convs = vec![(p(0, 0, 1), Direction::North), (me, Direction::North), (p(0, 0, -1), Direction::North)];
    assert_eq!(conveyor_shape(me, Direction::North, &convs, &vec![]), ConveyorShape::Straight);
    // fed from behind, only the right side waits: corner right
    let convs = vec![(p(0, 0, 1), Direction::North), (me, Direction::North), (p(1, 0, 0), Direction::East)];
    assert_eq!(conveyor_shape(me, Direction::North, &convs, &vec![]), ConveyorShape::CornerRight);
    // fed from behind, both sides wait: splitter
    let convs = vec![
        (p(0, 0, 1), Direction::North),
        (me, Direction::North),
        (p(1, 0, 0), Direction::East),
        (p(-1, 0, 0), Direction::West),
    ];
    assert_eq!(conveyor_shape(me, Direction::North, &convs, &vec![]), ConveyorShape::Splitter);
    // fed from both sides: T-junction
    let convs = vec![(p(1, 0, 0), Direction::West), (p(-1, 0, 0), Direction::East), (me, Direction::North)];
    assert_eq!(conveyor_shape(me, Direction::North, &convs, &vec![]), ConveyorShape::TJunction);
    // nothing around: straight
    assert_eq!(conveyor_shape(me, Direction::North, &vec![(me, Direction::North)], &vec![]), ConveyorShape::Straight);
    // fed from the left, a furnace ahead: corner left (left in, front out)
    let convs = vec![(p(-1, 0, 0), Direction::East), (me, Direction::North)];
    assert_eq!(conveyor_shape(me, Direction::North, &convs, &vec![p(0, 0, -1)]), ConveyorShape::CornerLeft);
}

#[test]
fn placed_belt_bends_toward_side_facing_front() {
    let convs = vec![(p(0, 0, -1), Direction::West)];
    assert_eq!(placed_conveyor_shape(p(0, 0, 0), Direction::North, &convs), ConveyorShape::CornerLeft);
    let convs = vec![(p(0, 0, -1), Direction::East)];
    assert_eq!(placed_conveyor_shape(p(0, 0, 0), Direction::North, &convs), ConveyorShape::CornerRight);
    let convs = vec![(p(0, 0, -1), Direction::South)];
    assert_eq!(placed_conveyor_shape(p(0, 0, 0), Direction::North, &convs), ConveyorShape::Straight);
}

#[test]
fn platform_and_ports() {
    let (lo, hi) = platform_bounds(p(24, 8, 14), 8);
    assert_eq!((lo, hi), (p(20, 8, 10), p(28, 8, 18)));
    let ports = port_positions(p(20, 8, 10), 8);
    assert_eq!(ports.len(), 24);
    assert_eq!(ports[0], p(21, 8, 10));
    assert_eq!(ports[6], p(21, 8, 17));
    assert_eq!(ports[12], p(20, 8, 11));
    assert_eq!(ports[23], p(27, 8, 16));
}

#[test]
fn routing_prefers_platform_then_belt_then_furnace_then_crusher() {
    let bounds = Some((p(0, 0, 0), p(3, 0, 3)));
    assert_eq!(target_at(p(1, 0, 1), bounds, &vec![p(1, 0, 1)], &vec![], &vec![]), Some(TransferTarget::Delivery));
    assert_eq!(target_at(p(5, 0, 5), bounds, &vec![p(9, 0, 9), p(5, 0, 5)], &vec![p(5, 0, 5)], &vec![]), Some(TransferTarget::Conveyor(1)));
    assert_eq!(target_at(p(5, 0, 5), None, &vec![], &vec![p(5, 0, 5)], &vec![p(5, 0, 5)]), Some(TransferTarget::Furnace(p(5, 0, 5))));
    assert_eq!(target_at(p(5, 0, 5), None, &vec![], &vec![], &vec![p(5, 0, 5)]), Some(TransferTarget::Crusher(p(5, 0, 5))));
    assert_eq!(target_at(p(5, 0, 5), None, &vec![], &vec![], &vec![]), None);
    let outs = vec![p(7, 0, 7), p(5, 0, 5)];
    assert_eq!(route_item(&outs, None, &vec![], &vec![], &vec![p(5, 0, 5)]), Some(TransferTarget::Crusher(p(5, 0, 5))));
}

#[test]
fn splitter_outputs_rotate() {
    let o = output_positions(p(0, 0, 0), Direction::North, Direction::North, ConveyorShape::Splitter, 1);
    // front, left, right = (0,0,-1), (-1,0,0), (1,0,0); starting at index 1
    assert_eq!(o, vec![p(-1, 0, 0), p(1, 0, 0), p(0, 0, -1)]);
    let o = output_positions(p(0, 0, 0), Direction::North, Direction::East, ConveyorShape::CornerRight, 0);
    assert_eq!(o, vec![p(1, 0, 0)]);
}

#[test]
fn belt_transfer_plan() {
    let belt = BeltState {
        pos: p(0, 0, 0),
        dir: Direction::North,
        output_dir: Direction::North,
        shape: ConveyorShape::Splitter,
        last_output_index: 0,
    };
    // items 0 and 2 are at the end; item 1 is still moving
    let at_end = vec![true, false, true];
    let convs = vec![p(-1, 0, 0)];
    let (acts, idx) = plan_belt_transfers(&belt, &at_end, None, &convs, &vec![], &vec![]);
    // item 0 tries front (nothing), left (belt 0); item 2 starts at index 1: left again
    assert_eq!(acts, vec![(0, TransferTarget::Conveyor(0)), (2, TransferTarget::Conveyor(0))]);
    assert_eq!(idx, 2);
    let straight = BeltState { shape: ConveyorShape::Straight, last_output_index: 7, ..belt };
    let (acts, idx) = plan_belt_transfers(&straight, &vec![true], None, &vec![], &vec![], &vec![]);
    assert!(acts.is_empty());
    assert_eq!(idx, 7);
}

#[test]
fn zipper_merge_takes_turns() {
    assert_eq!(sorted_unique(&vec![5, 3, 5, 9, 3]), vec![3, 5, 9]);
    assert_eq!(zipper_pick(&vec![3, 5, 9], 4), 5);
    assert_eq!(allowed_source(&vec![9, 3, 9], 1), Some(9));
    assert_eq!(allowed_source(&vec![9, 3, 9], 2), Some(3));
    assert_eq!(allowed_source(&vec![], 2), None);
}

fn furnace(fuel: u32, input: Option<(BlockType, u32)>, output: Option<(BlockType, u32)>) -> Furnace {
    Furnace {
        position: p(0, 8, 0),
        facing: Direction::North,
        fuel,
        input_type: input.map(|x| x.0),
        input_count: input.map(|x| x.1).unwrap_or(0),
        output_type: output.map(|x| x.0),
        output_count: output.map(|x| x.1).unwrap_or(0),
    }
}

#[test]
fn furnace_smelts_ore_with_coal() {
    let mut f = furnace(2, Some((BlockType::IronOre, 1)), None);
    assert!(furnace_ready(&f));
    furnace_finish_smelt(&mut f);
    assert_eq!(f.fuel, 1);
    assert_eq!(f.input_type, None);
    assert_eq!(f.output_type, Some(BlockType::IronIngot));
    assert_eq!(f.output_count, 1);
    assert!(!furnace_ready(&furnace(0, Some((BlockType::IronOre, 1)), None)));
    assert!(!furnace_ready(&furnace(1, Some((BlockType::CopperOre, 1)), Some((BlockType::IronIngot, 1)))));
    assert!(!furnace_ready(&furnace(1, Some((BlockType::IronOre, 1)), Some((BlockType::IronIngot, 64)))));
}

#[test]
fn furnace_takes_belt_items_only_from_behind() {
    // facing north, the input port is south of it
    let mut f = furnace(0, None, None);
    assert!(!furnace_accept_from_conveyor(&mut f, p(1, 8, 0), BlockType::Coal));
    assert!(furnace_accept_from_conveyor(&mut f, p(0, 8, 1), BlockType::Coal));
    assert_eq!(f.fuel, 1);
    assert!(furnace_accept_from_conveyor(&mut f, p(0, 8, 1), BlockType::CopperOre));
    assert!(!furnace_accept_from_conveyor(&mut f, p(0, 8, 1), BlockType::IronOre));
    assert!(!furnace_accept_from_conveyor(&mut f, p(0, 8, 1), BlockType::Stone));
    assert_eq!((f.input_type, f.input_count), (Some(BlockType::CopperOre), 1));
}

#[test]
fn crusher_doubles_ore() {
    let mut c = Crusher {
        position: p(0, 8, 0),
        facing: Direction::East,
        input_type: None,
        input_count: 0,
        output_type: None,
        output_count: 0,
    };
    assert!(!crusher_ready(&c));
    assert!(crusher_accept_from_conveyor(&mut c, p(-1, 8, 0), BlockType::IronOre));
    assert!(!crusher_accept_from_conveyor(&mut c, p(-1, 8, 0), BlockType::CopperOre));
    assert!(crusher_ready(&c));
    crusher_finish(&mut c);
    assert_eq!((c.output_type, c.output_count), (Some(BlockType::IronOre), 2));
    assert_eq!(c.input_type, None);
}

#[test]
fn miner_steps() {
    assert_eq!(mine_step(None, Some(BlockType::IronOre)), MineStep::Mine(BlockType::IronOre));
    assert_eq!(mine_step(None, None), MineStep::Reset);
    assert_eq!(mine_step(Some((BlockType::Stone, 64)), Some(BlockType::Stone)), MineStep::Wait);
    assert_eq!(mine_complete(None, BlockType::Coal), Some((BlockType::Coal, 1)));
    assert_eq!(mine_complete(Some((BlockType::Coal, 3)), BlockType::Coal), Some((BlockType::Coal, 4)));
    assert_eq!(mine_complete(Some((BlockType::Coal, 3)), BlockType::Stone), Some((BlockType::Coal, 3)));
}

#[test]
fn breaking_machines_returns_contents() {
    let inputs = vec![SlotContents { item_id: Some(BlockType::IronOre), count: 3 }, SlotContents { item_id: None, count: 5 }];
    let outputs = vec![SlotContents { item_id: Some(BlockType::IronIngot), count: 0 }];
    let r = machine_break_returns(BlockType::FurnaceBlock, 4, &inputs, &outputs).unwrap();
    assert_eq!(r, vec![(BlockType::Coal, 4), (BlockType::IronOre, 3), (BlockType::FurnaceBlock, 1)]);
    assert!(machine_break_returns(BlockType::ConveyorBlock, 0, &vec![], &vec![]).is_none());
    let r = conveyor_break_returns(&vec![BlockType::Coal, BlockType::Coal]);
    assert_eq!(r, vec![(BlockType::Coal, 1), (BlockType::Coal, 1), (BlockType::ConveyorBlock, 1)]);
}
