use idle_factory::chunks::{chunks_to_spawn, chunks_to_unload, ChunkCoord};
use idle_factory::conveyor::{output_positions, next_splitter_index, ConveyorShape};
use idle_factory::debug::machine_connections;
use idle_factory::geometry::{Direction, Pos};
use idle_factory::inventory::{add_item, total_count, Slot};
use idle_factory::items::BlockType;
use idle_factory::text::{decimal_string, parse_u32, split_words};

#[test]
fn four_quarter_turns_and_step_back() {
    for d in [Direction::North, Direction::East, Direction::South, Direction::West] {
        assert_eq!(d.rotate_cw_n(4), d);
        assert_eq!(d.right().left(), d);
        assert_eq!(d.opposite(), d.rotate_cw().rotate_cw());
        let p = Pos { x: 3, y: 4, z: 5 };
        assert_eq!(p.step(d).step(d.opposite()), p);
    }
    assert_eq!(Direction::from_code(2), Direction::South);
    assert_eq!(Direction::from_code(9), Direction::North);
}

#[test]
fn decimal_reads_back() {
    for n in [0u32, 7, 10, 4096, u32::MAX] {
        let s: Vec<char> = decimal_string(n as u64).chars().collect();
        assert_eq!(parse_u32(&s), Some(n));
    }
    let w = split_words("  a\tbc  ");
    assert_eq!(w, vec![vec!['a'], vec!['b', 'c']]);
}

#[test]
fn splitter_serves_each_side_in_turn() {
    let pos = Pos { x: 0, y: 0, z: 0 };
    let mut idx: usize = 5;
    let mut firsts = Vec::new();
    for _ in 0..3 {
        firsts.push(output_positions(pos, Direction::East, Direction::East, ConveyorShape::Splitter, idx)[0]);
        idx = next_splitter_index(idx);
    }
    firsts.sort_by_key(|p| (p.x, p.z));
    assert_eq!(firsts, vec![Pos { x: 0, y: 0, z: -1 }, Pos { x: 0, y: 0, z: 1 }, Pos { x: 1, y: 0, z: 0 }]);
    assert_eq!(idx, 5 % 3);
}

#[test]
fn spawned_chunks_are_never_unloaded_at_once() {
    let player = ChunkCoord { x: -7, z: 12 };
    let spawned = chunks_to_spawn(player, 3, &vec![], &vec![]);
    assert_eq!(spawned.len(), 4);
    assert!(chunks_to_unload(&spawned, player, 3).is_empty());
}

#[test]
fn storing_conserves_items() {
    let mut slots: Vec<Slot> = vec![Some((BlockType::Coal, 50)), None, Some((BlockType::Stone, 3))];
    let before = total_count(&slots, BlockType::Coal);
    let rem = add_item(&mut slots, BlockType::Coal, 100, 64);
    assert_eq!(total_count(&slots, BlockType::Coal) + rem as u128, before + 100);
    assert_eq!(total_count(&slots, BlockType::Stone), 3);
}

#[test]
fn connection_dump_finds_ports() {
    let belts = vec![Pos { x: 1, y: 8, z: 0 }, Pos { x: -1, y: 8, z: 0 }];
    // facing east: input behind at -x, output ahead at +x
    assert_eq!(machine_connections(Pos { x: 0, y: 8, z: 0 }, Direction::East, &belts), (Some(1), Some(0)));
    assert_eq!(machine_connections(Pos { x: 0, y: 8, z: 0 }, Direction::North, &belts), (None, None));
}
