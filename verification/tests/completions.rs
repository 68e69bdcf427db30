use idle_factory::slot_ui::inventory_slot_click;
use idle_factory::breaking::{complete_break, BreakSession, BreakTarget, MachineHoldings};
use idle_factory::chunks::{plan_dirty_chunks, receive_chunks, ChunkCoord};
use idle_factory::command::{lower_word, spawn_line_events};
use idle_factory::conveyor::TransferTarget;
use idle_factory::edits::{BlockEvent, EventSource, WorldEdit};
use idle_factory::geometry::{Direction, Pos};
use idle_factory::inventory::PlayerInventory;
use idle_factory::items::BlockType;
use idle_factory::machines::{crusher_frame, furnace_frame, miner_frame, Crusher, Furnace, MineStep, SlotContents};
use idle_factory::store::ItemStore;
use idle_factory::transfer::{apply_transfers, land_arrivals, BeltNetwork};

fn p(x: i32, y: i32, z: i32) -> Pos {
    Pos { x, y, z }
}

fn c(x: i32, z: i32) -> ChunkCoord {
    ChunkCoord { x, z }
}

#[test]
fn breaking_a_world_block_removes_it_and_reports_it() {
    let mut s = BreakSession::new();
    let mut inv = PlayerInventory::new(36, 64);
    let t = BreakTarget::WorldBlock(p(2, 7, 3), BlockType::Stone);
    let done = complete_break(&mut s, &mut inv, t, MachineHoldings::Unknown, Some(11));
    assert_eq!(done.edit, Some(WorldEdit { pos: p(2, 7, 3), block: None }));
    assert_eq!(done.broken, Some(BlockEvent { pos: p(2, 7, 3), block: BlockType::Stone, source: EventSource::Player(11) }));
    assert_eq!(done.despawn, None);
    assert!(done.tutorial_broken);
    assert_eq!(inv.get_total_count_by_id(BlockType::Stone), 1);
    assert_eq!(s, BreakSession::new());
    // without a local player the game is the source
    let done = complete_break(&mut s, &mut inv, t, MachineHoldings::Unknown, None);
    assert_eq!(done.broken.unwrap().source, EventSource::System);
}

#[test]
fn breaking_a_belt_returns_its_items_and_itself() {
    let mut s = BreakSession::new();
    let mut inv = PlayerInventory::new(36, 64);
    let holdings = MachineHoldings::Belt { items: vec![BlockType::Coal, BlockType::IronOre], visuals: vec![40, 41] };
    let done = complete_break(&mut s, &mut inv, BreakTarget::Machine(9, BlockType::ConveyorBlock), holdings, Some(1));
    assert_eq!(done.edit, None);
    assert_eq!(done.broken, None);
    assert_eq!(done.despawn, Some(9));
    assert_eq!(done.despawn_visuals, vec![40, 41]);
    assert_eq!(inv.get_total_count_by_id(BlockType::Coal), 1);
    assert_eq!(inv.get_total_count_by_id(BlockType::IronOre), 1);
    assert_eq!(inv.get_total_count_by_id(BlockType::ConveyorBlock), 1);
}

#[test]
fn breaking_a_furnace_returns_fuel_slots_and_itself() {
    let mut s = BreakSession::new();
    let mut inv = PlayerInventory::new(36, 64);
    let holdings = MachineHoldings::Slots {
        fuel: 3,
        inputs: vec![SlotContents { item_id: Some(BlockType::IronOre), count: 2 }],
        outputs: vec![SlotContents { item_id: Some(BlockType::IronIngot), count: 5 }],
    };
    let done = complete_break(&mut s, &mut inv, BreakTarget::Machine(4, BlockType::FurnaceBlock), holdings, None);
    assert_eq!(done.despawn, Some(4));
    assert_eq!(inv.get_total_count_by_id(BlockType::Coal), 3);
    assert_eq!(inv.get_total_count_by_id(BlockType::IronOre), 2);
    assert_eq!(inv.get_total_count_by_id(BlockType::IronIngot), 5);
    assert_eq!(inv.get_total_count_by_id(BlockType::FurnaceBlock), 1);
    // an entity of another kind is left alone
    let done = complete_break(&mut s, &mut inv, BreakTarget::Machine(5, BlockType::Stone), MachineHoldings::Unknown, None);
    assert_eq!(done.despawn, None);
    assert!(done.tutorial_broken);
}

#[test]
fn finished_chunks_leave_pending_two_at_a_time() {
    let mut pending = vec![c(0, 0), c(1, 0), c(2, 0), c(3, 0)];
    let finished = vec![false, true, true, true];
    let loaded = vec![c(2, 0)];
    let a = receive_chunks(&mut pending, &finished, &loaded);
    assert_eq!(a.taken, vec![c(1, 0), c(2, 0)]);
    assert_eq!(a.to_load, vec![c(1, 0)]);
    assert_eq!(pending, vec![c(0, 0), c(3, 0)]);
}

#[test]
fn dirty_chunks_beyond_four_wait() {
    let dirty = vec![c(0, 0), c(9, 9), c(1, 0), c(2, 0), c(3, 0), c(4, 0), c(5, 0)];
    let loaded = vec![c(0, 0), c(1, 0), c(2, 0), c(3, 0), c(4, 0), c(5, 0)];
    let plan = plan_dirty_chunks(&dirty, &loaded);
    assert_eq!(plan.regenerate, vec![c(0, 0), c(1, 0), c(2, 0), c(3, 0)]);
    assert_eq!(plan.remaining, vec![c(4, 0), c(5, 0)]);
    let plan = plan_dirty_chunks(&vec![c(9, 9)], &loaded);
    assert!(plan.regenerate.is_empty() && plan.remaining.is_empty());
}

#[test]
fn spawn_line_gives_count_events_in_a_line() {
    let v = spawn_line_events(5, -2, 3, 4, BlockType::MinerBlock);
    assert_eq!(v.len(), 4);
    assert_eq!(v[3].position, p(2, 8, -2));
    assert!(v.iter().all(|e| e.machine_id == BlockType::MinerBlock && e.direction == Some(3)));
    assert!(spawn_line_events(0, 0, 0, 0, BlockType::ConveyorBlock).is_empty());
}

#[test]
fn lower_word_lowers_ascii() {
    assert_eq!(lower_word(&"IrOn_Ore".chars().collect()), "iron_ore".chars().collect::<Vec<char>>());
}

fn furnace() -> Furnace {
    Furnace {
        position: p(0, 8, 0),
        facing: Direction::North,
        fuel: 2,
        input_type: Some(BlockType::IronOre),
        input_count: 1,
        output_type: None,
        output_count: 0,
    }
}

#[test]
fn machine_frames_do_one_step_or_nothing() {
    let mut f = furnace();
    assert!(!furnace_frame(&mut f, false));
    assert_eq!(f, furnace());
    assert!(furnace_frame(&mut f, true));
    assert_eq!((f.fuel, f.input_type, f.input_count, f.output_type, f.output_count), (1, None, 0, Some(BlockType::IronIngot), 1));
    assert!(!furnace_frame(&mut f, true));

    let mut cr = Crusher {
        position: p(1, 8, 0),
        facing: Direction::East,
        input_type: Some(BlockType::CopperOre),
        input_count: 2,
        output_type: None,
        output_count: 0,
    };
    assert!(crusher_frame(&mut cr, true));
    assert_eq!((cr.input_count, cr.output_type, cr.output_count), (1, Some(BlockType::CopperOre), 2));

    assert_eq!(miner_frame(None, Some(BlockType::IronOre), true), (MineStep::Mine(BlockType::IronOre), Some((BlockType::IronOre, 1))));
    assert_eq!(miner_frame(Some((BlockType::IronOre, 3)), Some(BlockType::IronOre), false).1, Some((BlockType::IronOre, 3)));
    assert_eq!(miner_frame(Some((BlockType::IronOre, 64)), Some(BlockType::IronOre), true), (MineStep::Wait, Some((BlockType::IronOre, 64))));
}

#[test]
fn a_tick_keeps_every_item() {
    let mut net = BeltNetwork {
        belt_items: vec![vec![BlockType::Coal, BlockType::IronOre], vec![BlockType::Stone]],
        belt_pos: vec![p(0, 8, 1), p(5, 8, 5)],
        belt_ids: vec![30, 10],
        furnaces: vec![Furnace { fuel: 0, input_type: None, input_count: 0, ..furnace() }],
        crushers: vec![],
        store: ItemStore::new(),
        arrivals: vec![],
        received: vec![false, false],
        taken: vec![],
    };
    // coal to the furnace behind it, stone to the platform, iron ore on to belt 1
    let actions = vec![(1, 0, TransferTarget::Delivery), (0, 1, TransferTarget::Conveyor(1)), (0, 0, TransferTarget::Furnace(p(0, 8, 0)))];
    apply_transfers(&mut net, &actions, &vec![None, Some(30)], &vec![true, true, true]);
    land_arrivals(&mut net);
    assert!(net.arrivals.is_empty());
    assert_eq!(net.belt_items, vec![vec![], vec![BlockType::IronOre]]);
    assert_eq!(net.furnaces[0].fuel, 1);
    assert_eq!(net.store.get_count(BlockType::Stone), 1);
}

#[test]
fn nine_dirty_chunks_take_three_frames() {
    let loaded: Vec<ChunkCoord> = (0..9).map(|i| c(i, 0)).collect();
    let mut dirty = loaded.clone();
    let mut frames = 0;
    let mut done: Vec<ChunkCoord> = Vec::new();
    while !dirty.is_empty() {
        let plan = plan_dirty_chunks(&dirty, &loaded);
        assert!(plan.regenerate.len() <= 4);
        done.extend(plan.regenerate);
        dirty = plan.remaining;
        frames += 1;
    }
    assert_eq!(frames, 3);
    assert_eq!(done, loaded);
}

#[test]
fn slot_presses_keep_every_item() {
    let mut inv = PlayerInventory::new(36, 64);
    inv.slots[0] = Some((BlockType::Stone, 50));
    inv.slots[10] = Some((BlockType::Stone, 60));
    let mut held = Some((BlockType::Stone, 30));
    // merge into slot 0 up to the limit; the rest stays in hand
    inventory_slot_click(&mut inv, &mut held, 0, false, 9);
    assert_eq!(inv.slots[0], Some((BlockType::Stone, 64)));
    assert_eq!(held, Some((BlockType::Stone, 16)));
    // shift-move slot 0 (hotbar) into the main area: slot 10 fills first
    inventory_slot_click(&mut inv, &mut held, 0, true, 9);
    assert_eq!(inv.slots[10], Some((BlockType::Stone, 64)));
    assert_eq!(inv.get_total_count_by_id(BlockType::Stone) + 16, 50 + 60 + 30);
    assert_eq!(held, Some((BlockType::Stone, 16)));
}
