//! Placement guides: the free spots suggested when a belt or a processing
//! machine is selected.

use vstd::prelude::*;
use crate::conveyor::{contains_pos, first_conveyor_at, occupied};
use crate::geometry::{Direction, Pos};
use crate::items::BlockType;

verus! {

/// `acc` with `p` added at the end, unless `p` is blocked or already listed.
pub open spec fn add_if_new(acc: Seq<Pos>, p: Pos, blocked: bool) -> Seq<Pos> {
    if blocked || acc.contains(p) {
        acc
    } else {
        acc.push(p)
    }
}

/// Some machine stands at `p`.
pub open spec fn machine_at(machines: Seq<(Pos, BlockType)>, p: Pos) -> bool {
    exists|i: int| 0 <= i < machines.len() && (#[trigger] machines[i]).0 == p
}

/// A machine or a belt stands at `p`.
pub open spec fn taken(machines: Seq<(Pos, BlockType)>, convs: Seq<(Pos, Direction)>, p: Pos) -> bool {
    machine_at(machines, p) || occupied(convs, p)
}

/// The spots just ahead of the first `n` belts, in belt order, skipping taken
/// spots and repeats.
pub open spec fn belt_end_spots(machines: Seq<(Pos, BlockType)>, convs: Seq<(Pos, Direction)>, n: int) -> Seq<Pos>
    decreases n,
{
    if n <= 0 {
        Seq::empty()
    } else {
        let c = convs[n - 1];
        let next = c.0.spec_step(c.1);
        add_if_new(belt_end_spots(machines, convs, n - 1), next, taken(machines, convs, next))
    }
}

/// The order in which the sides of a miner are tried: +X, -X, +Z, -Z.
pub open spec fn miner_side(k: int) -> Direction {
    if k == 0 {
        Direction::East
    } else if k == 1 {
        Direction::West
    } else if k == 2 {
        Direction::South
    } else {
        Direction::North
    }
}

/// The first side of the miner at `p`, from side `k` on, that is neither taken
/// nor already suggested; that one side is added.
pub open spec fn miner_spot_from(
    machines: Seq<(Pos, BlockType)>,
    convs: Seq<(Pos, Direction)>,
    acc: Seq<Pos>,
    p: Pos,
    k: int,
) -> Seq<Pos>
    decreases 4 - k,
{
    if k < 0 || k >= 4 {
        acc
    } else {
        let adj = p.spec_step(miner_side(k));
        if !taken(machines, convs, adj) && !acc.contains(adj) {
            acc.push(adj)
        } else {
            miner_spot_from(machines, convs, acc, p, k + 1)
        }
    }
}

/// After the belt spots, one free side for each of the first `n` machines that is a miner.
pub open spec fn miner_spots(machines: Seq<(Pos, BlockType)>, convs: Seq<(Pos, Direction)>, n: int) -> Seq<Pos>
    decreases n,
{
    if n <= 0 {
        belt_end_spots(machines, convs, convs.len() as int)
    } else {
        let m = machines[n - 1];
        let acc = miner_spots(machines, convs, n - 1);
        if m.1 == BlockType::MinerBlock {
            miner_spot_from(machines, convs, acc, m.0, 0)
        } else {
            acc
        }
    }
}

/// All belt guides before the cut to eight.
pub open spec fn all_belt_guides(machines: Seq<(Pos, BlockType)>, convs: Seq<(Pos, Direction)>) -> Seq<Pos> {
    miner_spots(machines, convs, machines.len() as int)
}

/// At most `n` elements from the front.
pub open spec fn keep_first(s: Seq<Pos>, n: int) -> Seq<Pos> {
    if s.len() <= n {
        s
    } else {
        s.subrange(0, n)
    }
}

/// Every position is a step away from the grid's edge.
pub open spec fn all_interior(machines: Seq<(Pos, BlockType)>, convs: Seq<(Pos, Direction)>) -> bool {
    &&& forall|i: int| 0 <= i < machines.len() ==> (#[trigger] machines[i]).0.interior()
    &&& forall|i: int| 0 <= i < convs.len() ==> (#[trigger] convs[i]).0.interior()
}

fn machine_at_exec(machines: &Vec<(Pos, BlockType)>, p: Pos) -> (r: bool)
    ensures
        r == machine_at(machines@, p),
{
    let mut i: usize = 0;
    while i < machines.len()
        invariant
            i <= machines.len(),
            forall|j: int| 0 <= j < i ==> machines@[j].0 != p,
        decreases machines.len() - i,
    {
        if machines[i].0 == p {
            assert(machines@[i as int].0 == p);
            return true;
        }
        i = i + 1;
    }
    false
}

fn is_taken(machines: &Vec<(Pos, BlockType)>, convs: &Vec<(Pos, Direction)>, p: Pos) -> (r: bool)
    ensures
        r == taken(machines@, convs@, p),
{
    machine_at_exec(machines, p) || first_conveyor_at(convs, p).is_some()
}

fn miner_side_exec(k: usize) -> (d: Direction)
    requires
        k < 4,
    ensures
        d == miner_side(k as int),
{
    if k == 0 {
        Direction::East
    } else if k == 1 {
        Direction::West
    } else if k == 2 {
        Direction::South
    } else {
        Direction::North
    }
}

/// Suggested belt spots: the spot ahead of every belt, then one free side of
/// every miner (tried +X, -X, +Z, -Z), never a spot where a machine or belt
/// stands and never twice; at most eight.
pub fn generate_conveyor_guide_positions(machines: &Vec<(Pos, BlockType)>, convs: &Vec<(Pos, Direction)>) -> (v: Vec<Pos>)
    requires
        all_interior(machines@, convs@),
    ensures
        v@ == keep_first(all_belt_guides(machines@, convs@), 8),
{
    let mut v: Vec<Pos> = Vec::new();
    let mut i: usize = 0;
    while i < convs.len()
        invariant
            i <= convs.len(),
            all_interior(machines@, convs@),
            v@ == belt_end_spots(machines@, convs@, i as int),
        decreases convs.len() - i,
    {
        let (p, d) = convs[i];
        assert(convs@[i as int].0.interior());
        let next = p.step(d);
        if !is_taken(machines, convs, next) && !contains_pos(&v, next) {
            v.push(next);
        }
        i = i + 1;
    }
    let mut j: usize = 0;
    while j < machines.len()
        invariant
            j <= machines.len(),
            all_interior(machines@, convs@),
            v@ == miner_spots(machines@, convs@, j as int),
        decreases machines.len() - j,
    {
        let (p, kind) = machines[j];
        assert(machines@[j as int].0.interior());
        if kind == BlockType::MinerBlock {
            let ghost acc = v@;
            let mut k: usize = 0;
            while k < 4
                invariant_except_break
                    k <= 4,
                    p.interior(),
                    v@ == acc,
                    miner_spot_from(machines@, convs@, acc, p, k as int) == miner_spot_from(machines@, convs@, acc, p, 0),
                ensures
                    v@ == miner_spot_from(machines@, convs@, acc, p, 0),
                decreases 4 - k,
            {
                let adj = p.step(miner_side_exec(k));
                if !is_taken(machines, convs, adj) && !contains_pos(&v, adj) {
                    v.push(adj);
                    break;
                }
                k = k + 1;
            }
        }
        j = j + 1;
    }
    v.truncate(8);
    v
}

/// The two sides across a belt: +X then -X for a north or south belt, +Z then -Z
/// for an east or west one.
pub open spec fn across(d: Direction) -> (Direction, Direction) {
    match d {
        Direction::North | Direction::South => (Direction::East, Direction::West),
        Direction::East | Direction::West => (Direction::South, Direction::North),
    }
}

/// The free spots beside the first `n` belts, in belt order, skipping belts and repeats.
pub open spec fn beside_belt_spots(convs: Seq<(Pos, Direction)>, n: int) -> Seq<Pos>
    decreases n,
{
    if n <= 0 {
        Seq::empty()
    } else {
        let c = convs[n - 1];
        let a = c.0.spec_step(across(c.1).0);
        let b = c.0.spec_step(across(c.1).1);
        let acc = add_if_new(beside_belt_spots(convs, n - 1), a, occupied(convs, a));
        add_if_new(acc, b, occupied(convs, b))
    }
}

/// Suggested spots for a furnace or crusher: beside each belt, across its
/// direction, where no belt stands, never twice; at most six.
pub fn generate_processor_guide_positions(convs: &Vec<(Pos, Direction)>) -> (v: Vec<Pos>)
    requires
        forall|i: int| 0 <= i < convs@.len() ==> (#[trigger] convs@[i]).0.interior(),
    ensures
        v@ == keep_first(beside_belt_spots(convs@, convs@.len() as int), 6),
{
    let mut v: Vec<Pos> = Vec::new();
    let mut i: usize = 0;
    while i < convs.len()
        invariant
            i <= convs.len(),
            forall|k: int| 0 <= k < convs@.len() ==> (#[trigger] convs@[k]).0.interior(),
            v@ == beside_belt_spots(convs@, i as int),
        decreases convs.len() - i,
    {
        let (p, d) = convs[i];
        assert(convs@[i as int].0.interior());
        let (da, db) = match d {
            Direction::North | Direction::South => (Direction::East, Direction::West),
            Direction::East | Direction::West => (Direction::South, Direction::North),
        };
        let a = p.step(da);
        if first_conveyor_at(convs, a).is_none() && !contains_pos(&v, a) {
            v.push(a);
        }
        let b = p.step(db);
        if first_conveyor_at(convs, b).is_none() && !contains_pos(&v, b) {
            v.push(b);
        }
        i = i + 1;
    }
    v.truncate(6);
    v
}

/// Which guides show for the selected item: belt guides for a belt, processor
/// guides for a furnace or crusher, none otherwise (miners are left without).
#[derive(Clone, Copy, Debug, PartialEq, Eq, Structural)]
pub enum GuideKind {
    Belt,
    Processor,
    NoGuide,
}

pub open spec fn spec_guide_kind(selected: Option<BlockType>) -> GuideKind {
    match selected {
        Some(BlockType::ConveyorBlock) => GuideKind::Belt,
        Some(BlockType::FurnaceBlock) | Some(BlockType::CrusherBlock) => GuideKind::Processor,
        _ => GuideKind::NoGuide,
    }
}

pub fn guide_kind(selected: Option<BlockType>) -> (g: GuideKind)
    ensures
        g == spec_guide_kind(selected),
{
    match selected {
        Some(BlockType::ConveyorBlock) => GuideKind::Belt,
        Some(BlockType::FurnaceBlock) | Some(BlockType::CrusherBlock) => GuideKind::Processor,
        _ => GuideKind::NoGuide,
    }
}

/// The marker list is cleared when the selection changes; new markers are only
/// spawned into an empty list, and only when there are positions to show.
pub open spec fn spec_guide_refresh(selection_changed: bool, markers_empty: bool, positions_empty: bool) -> (bool, bool) {
    let clear = selection_changed;
    let spawn = (markers_empty || selection_changed) && !positions_empty;
    (clear, spawn)
}

/// Returns (clear the old markers, spawn markers for the positions).
pub fn guide_refresh(selection_changed: bool, markers_empty: bool, positions_empty: bool) -> (r: (bool, bool))
    ensures
        r == spec_guide_refresh(selection_changed, markers_empty, positions_empty),
{
    (selection_changed, (markers_empty || selection_changed) && !positions_empty)
}

/// No spot is taken and none repeats.
pub open spec fn free_distinct(s: Seq<Pos>, machines: Seq<(Pos, BlockType)>, convs: Seq<(Pos, Direction)>) -> bool {
    &&& forall|i: int| 0 <= i < s.len() ==> !taken(machines, convs, #[trigger] s[i])
    &&& forall|i: int, j: int| 0 <= i < j < s.len() ==> s[i] != s[j]
}

proof fn lemma_belt_end_free(machines: Seq<(Pos, BlockType)>, convs: Seq<(Pos, Direction)>, n: int)
    requires
        n <= convs.len(),
    ensures
        free_distinct(belt_end_spots(machines, convs, n), machines, convs),
    decreases n,
{
    if n > 0 {
        lemma_belt_end_free(machines, convs, n - 1);
    }
}

proof fn lemma_miner_spot_free(
    machines: Seq<(Pos, BlockType)>,
    convs: Seq<(Pos, Direction)>,
    acc: Seq<Pos>,
    p: Pos,
    k: int,
)
    requires
        free_distinct(acc, machines, convs),
    ensures
        free_distinct(miner_spot_from(machines, convs, acc, p, k), machines, convs),
    decreases 4 - k,
{
    if 0 <= k < 4 {
        let adj = p.spec_step(miner_side(k));
        if !taken(machines, convs, adj) && !acc.contains(adj) {
            let r = acc.push(adj);
            assert forall|i: int, j: int| 0 <= i < j < r.len() implies r[i] != r[j] by {
                if j == acc.len() {
                    assert(acc.contains(acc[i]));
                }
            }
        } else {
            lemma_miner_spot_free(machines, convs, acc, p, k + 1);
        }
    }
}

proof fn lemma_miner_spots_free(machines: Seq<(Pos, BlockType)>, convs: Seq<(Pos, Direction)>, n: int)
    requires
        n <= machines.len(),
    ensures
        free_distinct(miner_spots(machines, convs, n), machines, convs),
    decreases n,
{
    if n <= 0 {
        lemma_belt_end_free(machines, convs, convs.len() as int);
    } else {
        lemma_miner_spots_free(machines, convs, n - 1);
        let m = machines[n - 1];
        if m.1 == BlockType::MinerBlock {
            lemma_miner_spot_free(machines, convs, miner_spots(machines, convs, n - 1), m.0, 0);
        }
    }
}

/// Belt guides never point at a spot where a machine or belt stands, never name
/// a spot twice, and are at most eight.
pub proof fn law_belt_guides_free(machines: Seq<(Pos, BlockType)>, convs: Seq<(Pos, Direction)>)
    ensures
        free_distinct(keep_first(all_belt_guides(machines, convs), 8), machines, convs),
        keep_first(all_belt_guides(machines, convs), 8).len() <= 8,
{
    lemma_miner_spots_free(machines, convs, machines.len() as int);
}

} // verus!
