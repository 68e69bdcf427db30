use idle_factory::conveyor::TransferTarget;
use idle_factory::geometry::{Direction, Pos};
use idle_factory::items::BlockType;
use idle_factory::machines::{Crusher, Furnace};
use idle_factory::store::ItemStore;
use idle_factory::transfer::{apply_transfers, finish_transfers, order_transfers, zipper_allowed, BeltNetwork};

fn p(x: i32, y: i32, z: i32) -> Pos {
    Pos { x, y, z }
}

fn network() -> BeltNetwork {
    BeltNetwork {
        belt_items: vec![vec![BlockType::Coal, BlockType::IronOre], vec![BlockType::Stone], vec![]],
        belt_pos: vec![p(0, 8, 1), p(5, 8, 5), p(9, 8, 9)],
        belt_ids: vec![30, 10, 20],
        furnaces: vec![Furnace {
            position: p(0, 8, 0),
            facing: Direction::North,
            fuel: 0,
            input_type: None,
            input_count: 0,
            output_type: None,
            output_count: 0,
        }],
        crushers: vec![Crusher {
            position: p(5, 8, 4),
            facing: Direction::East,
            input_type: None,
            input_count: 0,
            output_type: None,
            output_count: 0,
        }],
        store: ItemStore::new(),
        arrivals: vec![],
        received: vec![false, false, false],
        taken: vec![],
    }
}

#[test]
fn order_puts_higher_item_indices_first_keeping_ties() {
    let actions = vec![
        (0, 0, TransferTarget::Delivery),
        (1, 2, TransferTarget::Delivery),
        (2, 0, TransferTarget::Conveyor(1)),
        (0, 1, TransferTarget::Delivery),
    ];
    let ordered = order_transfers(&actions);
    assert_eq!(
        ordered,
        vec![
            (1, 2, TransferTarget::Delivery),
            (0, 1, TransferTarget::Delivery),
            (0, 0, TransferTarget::Delivery),
            (2, 0, TransferTarget::Conveyor(1)),
        ]
    );
}

#[test]
fn zipper_picks_by_counter_among_sorted_ids() {
    let actions = vec![(0, 0, TransferTarget::Conveyor(2)), (1, 0, TransferTarget::Conveyor(2))];
    let ids = vec![30, 10, 20];
    assert_eq!(zipper_allowed(&actions, &ids, &vec![0, 0, 0]), vec![None, None, Some(10)]);
    assert_eq!(zipper_allowed(&actions, &ids, &vec![0, 0, 1]), vec![None, None, Some(30)]);
}

#[test]
fn hand_overs_move_items_into_machines_belts_and_storage() {
    let mut net = network();
    let actions = vec![
        (0, 1, TransferTarget::Delivery),
        (0, 0, TransferTarget::Furnace(p(0, 8, 0))),
        (1, 0, TransferTarget::Crusher(p(5, 8, 4))),
    ];
    let allowed = vec![None, None, None];
    apply_transfers(&mut net, &actions, &allowed, &vec![true, true, true]);
    // the iron ore is delivered, the coal fuels the furnace (the belt is at its back),
    // the stone is refused by the crusher (not ore, and the belt is not at its back)
    assert_eq!(net.store.get_count(BlockType::IronOre), 1);
    assert_eq!(net.furnaces[0].fuel, 1);
    assert_eq!(net.belt_items[0], Vec::<BlockType>::new());
    assert_eq!(net.belt_items[1], vec![BlockType::Stone]);
    assert_eq!(net.crushers[0].input_count, 0);
    assert_eq!(net.taken, vec![0, 1]);
}

#[test]
fn belt_to_belt_needs_permission_and_room() {
    let mut net = network();
    let actions = vec![(0, 0, TransferTarget::Conveyor(2)), (1, 0, TransferTarget::Conveyor(2))];
    let allowed = zipper_allowed(&actions, &net.belt_ids, &vec![0, 0, 0]);
    apply_transfers(&mut net, &actions, &allowed, &vec![true, true]);
    // only belt 1 (id 10) may feed belt 2 this tick
    assert_eq!(net.arrivals, vec![(2, BlockType::Stone, 1)]);
    assert_eq!(net.received, vec![false, false, true]);
    assert_eq!(net.belt_items[1], Vec::<BlockType>::new());
    assert_eq!(net.belt_items[0].len(), 2);

    let mut blocked = network();
    apply_transfers(&mut blocked, &actions, &allowed, &vec![true, false]);
    assert!(blocked.arrivals.is_empty());

    let mut counters = vec![4, 0, 7];
    finish_transfers(&mut counters, &net.received);
    assert_eq!(counters, vec![4, 0, 8]);
}
