//! Conveyor belts: how a belt's shape follows its neighbours, where an item at
//! the end of a belt goes next, and which of several feeding belts may hand over
//! an item in a tick.

use vstd::prelude::*;
use crate::geometry::{Direction, Pos};

verus! {

/// The visual and routing shape of a belt.
#[derive(Clone, Copy, Debug, PartialEq, Eq, Structural)]
pub enum ConveyorShape {
    Straight,
    CornerLeft,
    CornerRight,
    TJunction,
    Splitter,
}

/// `b` is one step from `a` in direction `d` (exact integer arithmetic).
pub open spec fn adj(a: Pos, d: Direction, b: Pos) -> bool {
    &&& b.x == a.x + d.dx()
    &&& b.y == a.y
    &&& b.z == a.z + d.dz()
}

/// A belt at `c.0` facing `c.1` delivers onto `target`.
pub open spec fn feeds(c: (Pos, Direction), target: Pos) -> bool {
    adj(c.0, c.1, target)
}

/// Some belt at `src` delivers onto `pos`.
pub open spec fn input_from(convs: Seq<(Pos, Direction)>, pos: Pos, src: Pos) -> bool {
    exists|i: int| 0 <= i < convs.len() && (#[trigger] convs[i]).0 == src && feeds(convs[i], pos)
}

/// Some belt stands at `p`.
pub open spec fn occupied(convs: Seq<(Pos, Direction)>, p: Pos) -> bool {
    exists|i: int| 0 <= i < convs.len() && (#[trigger] convs[i]).0 == p
}

/// The facing of the first belt in the list standing at `p`, searching from `i`.
pub open spec fn first_at_from(convs: Seq<(Pos, Direction)>, p: Pos, i: int) -> Option<Direction>
    decreases convs.len() - i,
{
    if i < 0 || i >= convs.len() {
        None
    } else if convs[i].0 == p {
        Some(convs[i].1)
    } else {
        first_at_from(convs, p, i + 1)
    }
}

pub open spec fn first_at(convs: Seq<(Pos, Direction)>, p: Pos) -> Option<Direction> {
    first_at_from(convs, p, 0)
}

/// The neighbour at `nb` would take items from `from`: a belt takes them from its
/// back, left and right (not its front); a machine position in `acceptors` takes
/// them from anywhere.
pub open spec fn receives(
    convs: Seq<(Pos, Direction)>,
    acceptors: Seq<Pos>,
    nb: Pos,
    from: Pos,
) -> bool {
    match first_at(convs, nb) {
        Some(d) => adj(from, d, nb) || adj(from, d.spec_rotate_cw(), nb) || adj(
            from,
            d.spec_rotate_ccw(),
            nb,
        ),
        None => acceptors.contains(nb),
    }
}

/// The shape a belt at `pos` facing `dir` takes among the belts `convs` and the
/// machines at `acceptors`.
///
/// Two or more feeding neighbours make a T-junction. With one feed from behind,
/// two or more waiting neighbours make a splitter, else a corner towards a single
/// waiting side when the front is not waiting, else straight. A feed from one side
/// makes a splitter when the front and the other side both wait, a corner towards
/// the other side when only that side waits, else a corner from the feeding side.
/// A feed from the front, or no feed, leaves it straight.
pub open spec fn spec_conveyor_shape(
    pos: Pos,
    dir: Direction,
    convs: Seq<(Pos, Direction)>,
    acceptors: Seq<Pos>,
) -> ConveyorShape {
    let back = pos.spec_step(dir.spec_opposite());
    let left = pos.spec_step(dir.spec_rotate_ccw());
    let right = pos.spec_step(dir.spec_rotate_cw());
    let front = pos.spec_step(dir);
    let back_in = input_from(convs, pos, back);
    let left_in = input_from(convs, pos, left);
    let right_in = input_from(convs, pos, right);
    let front_in = input_from(convs, pos, front);
    let left_wait = !left_in && occupied(convs, left) && receives(convs, acceptors, left, pos);
    let right_wait = !right_in && occupied(convs, right) && receives(convs, acceptors, right, pos);
    let front_wait = !front_in && ((occupied(convs, front) && receives(convs, acceptors, front, pos))
        || acceptors.contains(front));
    let inputs = (if back_in { 1int } else { 0 }) + (if left_in { 1int } else { 0 }) + (if right_in {
        1int
    } else {
        0
    }) + (if front_in { 1int } else { 0 });
    let waits = (if left_wait { 1int } else { 0 }) + (if right_wait { 1int } else { 0 }) + (
    if front_wait {
        1int
    } else {
        0
    });
    if inputs >= 2 {
        ConveyorShape::TJunction
    } else if inputs == 1 {
        if back_in {
            if waits >= 2 {
                ConveyorShape::Splitter
            } else if right_wait && !front_wait {
                ConveyorShape::CornerRight
            } else if left_wait && !front_wait {
                ConveyorShape::CornerLeft
            } else {
                ConveyorShape::Straight
            }
        } else if left_in {
            if front_wait && right_wait {
                ConveyorShape::Splitter
            } else if right_wait && !front_wait {
                ConveyorShape::CornerRight
            } else {
                ConveyorShape::CornerLeft
            }
        } else if right_in {
            if front_wait && left_wait {
                ConveyorShape::Splitter
            } else if left_wait && !front_wait {
                ConveyorShape::CornerLeft
            } else {
                ConveyorShape::CornerRight
            }
        } else {
            ConveyorShape::Straight
        }
    } else {
        ConveyorShape::Straight
    }
}

/// Whether `p` is in the list.
pub fn contains_pos(v: &Vec<Pos>, p: Pos) -> (r: bool)
    ensures
        r == v@.contains(p),
{
    let mut i: usize = 0;
    while i < v.len()
        invariant
            i <= v.len(),
            forall|j: int| 0 <= j < i ==> v@[j] != p,
        decreases v.len() - i,
    {
        if v[i] == p {
            assert(v@[i as int] == p);
            return true;
        }
        i = i + 1;
    }
    false
}

/// The facing of the first belt standing at `p`.
pub fn first_conveyor_at(convs: &Vec<(Pos, Direction)>, p: Pos) -> (r: Option<Direction>)
    ensures
        r == first_at(convs@, p),
        r is Some <==> occupied(convs@, p),
{
    let mut i: usize = 0;
    while i < convs.len()
        invariant
            i <= convs.len(),
            first_at_from(convs@, p, i as int) == first_at(convs@, p),
            forall|j: int| 0 <= j < i ==> convs@[j].0 != p,
        decreases convs.len() - i,
    {
        if convs[i].0 == p {
            proof {
                lemma_first_at_some(convs@, p, 0);
            }
            return Some(convs[i].1);
        }
        i = i + 1;
    }
    proof {
        lemma_first_at_some(convs@, p, 0);
    }
    None
}

proof fn lemma_first_at_some(convs: Seq<(Pos, Direction)>, p: Pos, i: int)
    requires
        0 <= i <= convs.len(),
    ensures
        first_at_from(convs, p, i) is Some <==> exists|j: int| i <= j < convs.len() && (#[trigger] convs[j]).0 == p,
    decreases convs.len() - i,
{
    if i < convs.len() {
        lemma_first_at_some(convs, p, i + 1);
        if convs[i].0 == p {
        } else {
            assert forall|j: int| i <= j < convs.len() && (#[trigger] convs[j]).0 == p implies i + 1 <= j by {}
        }
    }
}

/// Whether the neighbour at `nb` takes items from `from` (see [`receives`]).
fn neighbour_receives(
    convs: &Vec<(Pos, Direction)>,
    acceptors: &Vec<Pos>,
    nb: Pos,
    from: Pos,
) -> (r: bool)
    requires
        from.interior(),
    ensures
        r == receives(convs@, acceptors@, nb, from),
{
    match first_conveyor_at(convs, nb) {
        Some(d) => nb == from.step(d) || nb == from.step(d.right()) || nb == from.step(d.left()),
        None => contains_pos(acceptors, nb),
    }
}

/// The shape of the belt at `pos` facing `dir` (see [`spec_conveyor_shape`]).
pub fn conveyor_shape(
    pos: Pos,
    dir: Direction,
    convs: &Vec<(Pos, Direction)>,
    acceptors: &Vec<Pos>,
) -> (shape: ConveyorShape)
    requires
        pos.interior(),
    ensures
        shape == spec_conveyor_shape(pos, dir, convs@, acceptors@),
{
    let back = pos.step(dir.opposite());
    let left = pos.step(dir.left());
    let right = pos.step(dir.right());
    let front = pos.step(dir);
    let mut back_in = false;
    let mut left_in = false;
    let mut right_in = false;
    let mut front_in = false;
    let mut i: usize = 0;
    while i < convs.len()
        invariant
            i <= convs.len(),
            pos.interior(),
            back == pos.spec_step(dir.spec_opposite()),
            left == pos.spec_step(dir.spec_rotate_ccw()),
            right == pos.spec_step(dir.spec_rotate_cw()),
            front == pos.spec_step(dir),
            back_in == exists|j: int| 0 <= j < i && (#[trigger] convs@[j]).0 == back && feeds(convs@[j], pos),
            left_in == exists|j: int| 0 <= j < i && (#[trigger] convs@[j]).0 == left && feeds(convs@[j], pos),
            right_in == exists|j: int| 0 <= j < i && (#[trigger] convs@[j]).0 == right && feeds(convs@[j], pos),
            front_in == exists|j: int| 0 <= j < i && (#[trigger] convs@[j]).0 == front && feeds(convs@[j], pos),
        decreases convs.len() - i,
    {
        let (p, d) = convs[i];
        let feeds_us = p == pos.step(d.opposite());
        proof {
            assert(feeds_us == feeds(convs@[i as int], pos));
        }
        if feeds_us {
            if p == back {
                back_in = true;
            } else if p == left {
                left_in = true;
            } else if p == right {
                right_in = true;
            } else if p == front {
                front_in = true;
            }
        }
        i = i + 1;
    }
    let left_wait = !left_in && first_conveyor_at(convs, left).is_some()
        && neighbour_receives(convs, acceptors, left, pos);
    let right_wait = !right_in && first_conveyor_at(convs, right).is_some()
        && neighbour_receives(convs, acceptors, right, pos);
    let front_wait = !front_in && ((first_conveyor_at(convs, front).is_some()
        && neighbour_receives(convs, acceptors, front, pos)) || contains_pos(acceptors, front));
    let inputs: u8 = (if back_in { 1u8 } else { 0 }) + (if left_in { 1u8 } else { 0 }) + (if right_in {
        1u8
    } else {
        0
    }) + (if front_in { 1u8 } else { 0 });
    let waits: u8 = (if left_wait { 1u8 } else { 0 }) + (if right_wait { 1u8 } else { 0 }) + (
    if front_wait {
        1u8
    } else {
        0
    });
    if inputs >= 2 {
        ConveyorShape::TJunction
    } else if inputs == 1 {
        if back_in {
            if waits >= 2 {
                ConveyorShape::Splitter
            } else if right_wait && !front_wait {
                ConveyorShape::CornerRight
            } else if left_wait && !front_wait {
                ConveyorShape::CornerLeft
            } else {
                ConveyorShape::Straight
            }
        } else if left_in {
            if front_wait && right_wait {
                ConveyorShape::Splitter
            } else if right_wait && !front_wait {
                ConveyorShape::CornerRight
            } else {
                ConveyorShape::CornerLeft
            }
        } else if right_in {
            if front_wait && left_wait {
                ConveyorShape::Splitter
            } else if left_wait && !front_wait {
                ConveyorShape::CornerLeft
            } else {
                ConveyorShape::CornerRight
            }
        } else {
            ConveyorShape::Straight
        }
    } else {
        ConveyorShape::Straight
    }
}


/// Shape of a belt just placed at `place` facing `facing`: when the first belt
/// found in front of it faces to the left or right of `facing`, it bends that way.
pub open spec fn spec_placed_shape(facing: Direction, front_dir: Option<Direction>) -> ConveyorShape {
    match front_dir {
        Some(fd) => if fd != facing && fd == facing.spec_rotate_ccw() {
            ConveyorShape::CornerLeft
        } else if fd != facing && fd == facing.spec_rotate_cw() {
            ConveyorShape::CornerRight
        } else {
            ConveyorShape::Straight
        },
        None => ConveyorShape::Straight,
    }
}

/// The shape a newly placed belt gets from the belt in front of it.
pub fn placed_conveyor_shape(place: Pos, facing: Direction, convs: &Vec<(Pos, Direction)>) -> (shape:
    ConveyorShape)
    requires
        place.interior(),
    ensures
        shape == spec_placed_shape(facing, first_at(convs@, place.spec_step(facing))),
{
    let front = place.step(facing);
    match first_conveyor_at(convs, front) {
        Some(fd) => {
            if fd != facing {
                if fd == facing.left() {
                    ConveyorShape::CornerLeft
                } else if fd == facing.right() {
                    ConveyorShape::CornerRight
                } else {
                    ConveyorShape::Straight
                }
            } else {
                ConveyorShape::Straight
            }
        },
        None => ConveyorShape::Straight,
    }
}

/// Where an item leaving a belt can go.
#[derive(Clone, Copy, Debug, PartialEq, Eq, Structural)]
pub enum TransferTarget {
    /// The belt at this index of the belt list.
    Conveyor(usize),
    Furnace(Pos),
    Crusher(Pos),
    Delivery,
}

/// `p` lies in the box `lo..=hi` (all three axes inclusive).
pub open spec fn in_bounds(p: Pos, lo: Pos, hi: Pos) -> bool {
    lo.x <= p.x <= hi.x && lo.y <= p.y <= hi.y && lo.z <= p.z <= hi.z
}

pub fn within_bounds(p: Pos, lo: Pos, hi: Pos) -> (r: bool)
    ensures
        r == in_bounds(p, lo, hi),
{
    p.x >= lo.x && p.x <= hi.x && p.y >= lo.y && p.y <= hi.y && p.z >= lo.z && p.z <= hi.z
}

/// The delivery box of a platform centred on `center`: `size / 2` blocks out on
/// both horizontal axes, on the centre's level.
pub open spec fn spec_platform_bounds(center: Pos, size: i32) -> (Pos, Pos) {
    let half = size / 2;
    (
        Pos { x: (center.x - half) as i32, y: center.y, z: (center.z - half) as i32 },
        Pos { x: (center.x + half) as i32, y: center.y, z: (center.z + half) as i32 },
    )
}

pub fn platform_bounds(center: Pos, size: i32) -> (b: (Pos, Pos))
    requires
        size >= 0,
        center.x - size / 2 >= i32::MIN,
        center.x + size / 2 <= i32::MAX,
        center.z - size / 2 >= i32::MIN,
        center.z + size / 2 <= i32::MAX,
    ensures
        b == spec_platform_bounds(center, size),
{
    let half = size / 2;
    (
        Pos { x: center.x - half, y: center.y, z: center.z - half },
        Pos { x: center.x + half, y: center.y, z: center.z + half },
    )
}

/// The index of the first position in `v` equal to `p`.
pub open spec fn first_index_from(v: Seq<Pos>, p: Pos, i: int) -> Option<int>
    decreases v.len() - i,
{
    if i < 0 || i >= v.len() {
        None
    } else if v[i] == p {
        Some(i)
    } else {
        first_index_from(v, p, i + 1)
    }
}

pub fn first_index(v: &Vec<Pos>, p: Pos) -> (r: Option<usize>)
    ensures
        match r {
            Some(i) => first_index_from(v@, p, 0) == Some(i as int),
            None => first_index_from(v@, p, 0) is None,
        },
        first_index_from(v@, p, 0) is None <==> !v@.contains(p),
{
    let mut i: usize = 0;
    while i < v.len()
        invariant
            i <= v.len(),
            first_index_from(v@, p, i as int) == first_index_from(v@, p, 0),
            forall|j: int| 0 <= j < i ==> v@[j] != p,
        decreases v.len() - i,
    {
        if v[i] == p {
            proof {
                assert(v@[i as int] == p);
            }
            return Some(i);
        }
        i = i + 1;
    }
    proof {
        lemma_first_index_none(v@, p, 0);
    }
    None
}

proof fn lemma_first_index_none(v: Seq<Pos>, p: Pos, i: int)
    requires
        0 <= i <= v.len(),
        forall|j: int| i <= j < v.len() ==> v[j] != p,
    ensures
        first_index_from(v, p, i) is None,
    decreases v.len() - i,
{
    if i < v.len() {
        lemma_first_index_none(v, p, i + 1);
    }
}

proof fn lemma_first_index_found(v: Seq<Pos>, p: Pos, i: int)
    requires
        0 <= i <= v.len(),
    ensures
        first_index_from(v, p, i) is None ==> forall|j: int| i <= j < v.len() ==> v[j] != p,
        first_index_from(v, p, i) matches Some(k) ==> i <= k < v.len() && v[k] == p,
    decreases v.len() - i,
{
    if i < v.len() {
        lemma_first_index_found(v, p, i + 1);
    }
}

/// What an output position holds, in the order the transfer checks them: the
/// delivery platform, then a belt (the first one listed there), then a furnace,
/// then a crusher.
pub open spec fn spec_target_at(
    next: Pos,
    platform: Option<(Pos, Pos)>,
    conveyors: Seq<Pos>,
    furnaces: Seq<Pos>,
    crushers: Seq<Pos>,
) -> Option<TransferTarget> {
    if platform matches Some(b) && in_bounds(next, b.0, b.1) {
        Some(TransferTarget::Delivery)
    } else if first_index_from(conveyors, next, 0) is Some {
        Some(TransferTarget::Conveyor(first_index_from(conveyors, next, 0).unwrap() as usize))
    } else if furnaces.contains(next) {
        Some(TransferTarget::Furnace(next))
    } else if crushers.contains(next) {
        Some(TransferTarget::Crusher(next))
    } else {
        None
    }
}

pub fn target_at(
    next: Pos,
    platform: Option<(Pos, Pos)>,
    conveyors: &Vec<Pos>,
    furnaces: &Vec<Pos>,
    crushers: &Vec<Pos>,
) -> (r: Option<TransferTarget>)
    ensures
        r == spec_target_at(next, platform, conveyors@, furnaces@, crushers@),
{
    if let Some((lo, hi)) = platform {
        if within_bounds(next, lo, hi) {
            return Some(TransferTarget::Delivery);
        }
    }
    if let Some(k) = first_index(conveyors, next) {
        return Some(TransferTarget::Conveyor(k));
    }
    if contains_pos(furnaces, next) {
        return Some(TransferTarget::Furnace(next));
    }
    if contains_pos(crushers, next) {
        return Some(TransferTarget::Crusher(next));
    }
    None
}

/// The first output position (in the given order) that holds a target, with that target.
pub open spec fn spec_route(
    outputs: Seq<Pos>,
    platform: Option<(Pos, Pos)>,
    conveyors: Seq<Pos>,
    furnaces: Seq<Pos>,
    crushers: Seq<Pos>,
) -> Option<TransferTarget>
    decreases outputs.len(),
{
    if outputs.len() == 0 {
        None
    } else {
        match spec_target_at(outputs[0], platform, conveyors, furnaces, crushers) {
            Some(t) => Some(t),
            None => spec_route(outputs.drop_first(), platform, conveyors, furnaces, crushers),
        }
    }
}

/// Try the output positions in order and return the first target found.
pub fn route_item(
    outputs: &Vec<Pos>,
    platform: Option<(Pos, Pos)>,
    conveyors: &Vec<Pos>,
    furnaces: &Vec<Pos>,
    crushers: &Vec<Pos>,
) -> (r: Option<TransferTarget>)
    ensures
        r == spec_route(outputs@, platform, conveyors@, furnaces@, crushers@),
{
    let mut i: usize = 0;
    assert(outputs@.subrange(0, outputs@.len() as int) =~= outputs@);
    while i < outputs.len()
        invariant
            i <= outputs.len(),
            spec_route(outputs@.subrange(i as int, outputs@.len() as int), platform, conveyors@, furnaces@, crushers@)
                == spec_route(outputs@, platform, conveyors@, furnaces@, crushers@),
        decreases outputs.len() - i,
    {
        proof {
            let rest = outputs@.subrange(i as int, outputs@.len() as int);
            assert(rest[0] == outputs@[i as int]);
            assert(rest.drop_first() =~= outputs@.subrange(i as int + 1, outputs@.len() as int));
        }
        if let Some(t) = target_at(outputs[i], platform, conveyors, furnaces, crushers) {
            return Some(t);
        }
        i = i + 1;
    }
    assert(outputs@.subrange(i as int, outputs@.len() as int).len() == 0);
    None
}

/// Output positions of a belt. A splitter offers front, left and right, starting at
/// its round-robin index; any other belt offers the position ahead along its output facing.
pub open spec fn spec_output_positions(
    pos: Pos,
    dir: Direction,
    output_dir: Direction,
    shape: ConveyorShape,
    start: usize,
) -> Seq<Pos> {
    if shape == ConveyorShape::Splitter {
        let outs = seq![pos.spec_step(dir), pos.spec_step(dir.spec_rotate_ccw()), pos.spec_step(dir.spec_rotate_cw())];
        seq![outs[(start % 3) as int], outs[((start + 1) % 3) as int], outs[((start + 2) % 3) as int]]
    } else {
        seq![pos.spec_step(output_dir)]
    }
}

pub fn output_positions(
    pos: Pos,
    dir: Direction,
    output_dir: Direction,
    shape: ConveyorShape,
    start: usize,
) -> (v: Vec<Pos>)
    requires
        pos.interior(),
    ensures
        v@ == spec_output_positions(pos, dir, output_dir, shape, start),
{
    if shape == ConveyorShape::Splitter {
        let outs = [pos.step(dir), pos.step(dir.left()), pos.step(dir.right())];
        let mut v: Vec<Pos> = Vec::new();
        v.push(outs[start % 3]);
        v.push(outs[(start % 3 + 1) % 3]);
        v.push(outs[(start % 3 + 2) % 3]);
        proof {
            assert((start % 3 + 1) % 3 == (start + 1) % 3);
            assert((start % 3 + 2) % 3 == (start + 2) % 3);
            assert(v@ =~= spec_output_positions(pos, dir, output_dir, shape, start));
        }
        v
    } else {
        let mut v: Vec<Pos> = Vec::new();
        v.push(pos.step(output_dir));
        proof {
            assert(v@ =~= spec_output_positions(pos, dir, output_dir, shape, start));
        }
        v
    }
}

/// Every item that reaches the end of a splitter moves its round-robin index on
/// by one, whether or not the item found a target.
pub fn next_splitter_index(current: usize) -> (n: usize)
    ensures
        n == (current + 1) % 3,
        n < 3,
{
    (current % 3 + 1) % 3
}

/// Which of the belts feeding one target belt may hand over an item this tick:
/// the sources are taken in increasing id order, and the target's input counter
/// picks one of them in turn.
pub open spec fn spec_zipper_pick(sorted_sources: Seq<u64>, last_input_source: usize) -> u64 {
    sorted_sources[(last_input_source as int) % (sorted_sources.len() as int)]
}

pub fn zipper_pick(sorted_sources: &Vec<u64>, last_input_source: usize) -> (r: u64)
    requires
        sorted_sources.len() > 0,
    ensures
        r == spec_zipper_pick(sorted_sources@, last_input_source),
        sorted_sources@.contains(r),
{
    let r = sorted_sources[last_input_source % sorted_sources.len()];
    assert(sorted_sources@[(last_input_source as int) % (sorted_sources.len() as int)] == r);
    r
}

/// The strictly increasing list of the distinct ids in `ids`.
pub fn sorted_unique(ids: &Vec<u64>) -> (r: Vec<u64>)
    ensures
        forall|i: int, j: int| 0 <= i < j < r@.len() ==> r@[i] < r@[j],
        forall|x: u64| r@.contains(x) <==> ids@.contains(x),
{
    let mut r: Vec<u64> = Vec::new();
    let mut k: usize = 0;
    while k < ids.len()
        invariant
            k <= ids.len(),
            forall|i: int, j: int| 0 <= i < j < r@.len() ==> r@[i] < r@[j],
            forall|x: u64| r@.contains(x) <==> ids@.take(k as int).contains(x),
        decreases ids.len() - k,
    {
        let x = ids[k];
        let ghost before = r@;
        // find insertion point
        let mut pos: usize = 0;
        while pos < r.len() && r[pos] < x
            invariant
                pos <= r.len(),
                r@ == before,
                forall|j: int| 0 <= j < pos ==> r@[j] < x,
            decreases r.len() - pos,
        {
            pos = pos + 1;
        }
        let dup = pos < r.len() && r[pos] == x;
        if dup {
        } else {
            r.insert(pos, x);
            proof {
                assert forall|i: int, j: int| 0 <= i < j < r@.len() implies r@[i] < r@[j] by {
                    if j < pos {
                    } else if j == pos {
                    } else if i < pos {
                        assert(before[j - 1] > x || before[j - 1] >= x);
                    } else if i == pos {
                        if pos < before.len() {
                            assert(before[pos as int] > x);
                            if j - 1 > pos {
                                assert(before[pos as int] < before[j - 1]);
                            }
                        }
                    } else {
                    }
                }
            }
        }
        proof {
            assert(ids@.take(k as int + 1) =~= ids@.take(k as int).push(x));
            assert forall|y: u64| r@.contains(y) <==> ids@.take(k as int + 1).contains(y) by {
                if r@.contains(y) {
                    let i = choose|i: int| 0 <= i < r@.len() && r@[i] == y;
                    if y != x {
                        if dup {
                            assert(before[i] == y);
                        } else if i < pos {
                            assert(before[i] == y);
                        } else {
                            assert(before[i - 1] == y);
                        }
                        assert(before.contains(y));
                    }
                    assert(ids@.take(k as int + 1)[k as int] == x);
                }
                if ids@.take(k as int + 1).contains(y) {
                    if y == x {
                        if pos < before.len() && before[pos as int] == x {
                            assert(r@[pos as int] == x);
                        } else {
                            assert(r@[pos as int] == x);
                        }
                    } else {
                        let i = choose|i: int| 0 <= i < k + 1 && #[trigger] ids@.take(k as int + 1)[i] == y;
                        assert(ids@.take(k as int)[i] == y);
                        assert(before.contains(y));
                        let j = choose|j: int| 0 <= j < before.len() && before[j] == y;
                        if dup {
                            assert(r@[j] == y);
                        } else if j < pos {
                            assert(r@[j] == y);
                        } else {
                            assert(r@[j + 1] == y);
                        }
                    }
                }
            }
        }
        k = k + 1;
    }
    assert(ids@.take(k as int) =~= ids@);
    r
}

/// The north edge of a square platform with its corner at `origin`, corners excluded.
pub open spec fn north_ports(origin: Pos, size: int) -> Seq<Pos> {
    Seq::new(inner_len(size), |i: int| Pos { x: (origin.x + 1 + i) as i32, y: origin.y, z: origin.z })
}

pub open spec fn south_ports(origin: Pos, size: int) -> Seq<Pos> {
    Seq::new(
        inner_len(size),
        |i: int| Pos { x: (origin.x + 1 + i) as i32, y: origin.y, z: (origin.z + size - 1) as i32 },
    )
}

pub open spec fn west_ports(origin: Pos, size: int) -> Seq<Pos> {
    Seq::new(inner_len(size), |i: int| Pos { x: origin.x, y: origin.y, z: (origin.z + 1 + i) as i32 })
}

pub open spec fn east_ports(origin: Pos, size: int) -> Seq<Pos> {
    Seq::new(
        inner_len(size),
        |i: int| Pos { x: (origin.x + size - 1) as i32, y: origin.y, z: (origin.z + 1 + i) as i32 },
    )
}

/// Number of non-corner blocks along one edge.
pub open spec fn inner_len(size: int) -> nat {
    if size >= 2 { (size - 2) as nat } else { 0 }
}

/// Delivery ports of a square platform with its corner at `origin`: the edge
/// blocks on the origin's level, corners excluded, listed north edge, south edge,
/// west edge, east edge.
pub open spec fn spec_port_positions(origin: Pos, size: int) -> Seq<Pos> {
    north_ports(origin, size) + south_ports(origin, size) + west_ports(origin, size) + east_ports(
        origin,
        size,
    )
}

pub fn port_positions(origin: Pos, size: i32) -> (v: Vec<Pos>)
    requires
        size >= 0,
        origin.x + size <= i32::MAX,
        origin.z + size <= i32::MAX,
    ensures
        v@ == spec_port_positions(origin, size as int),
        size >= 2 ==> v@.len() == 4 * (size - 2),
{
    let n: i32 = if size >= 2 { size - 2 } else { 0 };
    let mut v: Vec<Pos> = Vec::new();
    let mut i: i32 = 0;
    while i < n
        invariant
            0 <= i <= n,
            n == inner_len(size as int),
            origin.x + size <= i32::MAX,
            v@ =~= north_ports(origin, size as int).take(i as int),
        decreases n - i,
    {
        v.push(Pos { x: origin.x + 1 + i, y: origin.y, z: origin.z });
        i = i + 1;
    }
    let mut i: i32 = 0;
    while i < n
        invariant
            0 <= i <= n,
            n == inner_len(size as int),
            origin.x + size <= i32::MAX,
            origin.z + size <= i32::MAX,
            v@ =~= north_ports(origin, size as int) + south_ports(origin, size as int).take(i as int),
        decreases n - i,
    {
        v.push(Pos { x: origin.x + 1 + i, y: origin.y, z: origin.z + size - 1 });
        i = i + 1;
    }
    let mut i: i32 = 0;
    while i < n
        invariant
            0 <= i <= n,
            n == inner_len(size as int),
            origin.z + size <= i32::MAX,
            v@ =~= north_ports(origin, size as int) + south_ports(origin, size as int) + west_ports(
                origin,
                size as int,
            ).take(i as int),
        decreases n - i,
    {
        v.push(Pos { x: origin.x, y: origin.y, z: origin.z + 1 + i });
        i = i + 1;
    }
    let mut i: i32 = 0;
    while i < n
        invariant
            0 <= i <= n,
            n == inner_len(size as int),
            origin.x + size <= i32::MAX,
            origin.z + size <= i32::MAX,
            v@ =~= north_ports(origin, size as int) + south_ports(origin, size as int) + west_ports(
                origin,
                size as int,
            ) + east_ports(origin, size as int).take(i as int),
        decreases n - i,
    {
        v.push(Pos { x: origin.x + size - 1, y: origin.y, z: origin.z + 1 + i });
        i = i + 1;
    }
    v
}


/// One belt as the transfer sees it.
#[derive(Clone, Copy, Debug, PartialEq, Eq, Structural)]
pub struct BeltState {
    pub pos: Pos,
    pub dir: Direction,
    /// Where a non-splitter belt hands items on (differs from `dir` on corners).
    pub output_dir: Direction,
    pub shape: ConveyorShape,
    /// The splitter's round-robin index.
    pub last_output_index: usize,
}

/// The transfers planned for the first `n` items of a belt, with the splitter
/// index after them. Items that have not reached the end of the belt are passed
/// over. Each item at the end tries the belt's output positions (a splitter's
/// starting at its current index) and is planned to go to the first target found;
/// a splitter's index moves on by one for each such item, found or not.
pub open spec fn spec_plan_belt(
    belt: BeltState,
    at_end: Seq<bool>,
    platform: Option<(Pos, Pos)>,
    convs: Seq<Pos>,
    furnaces: Seq<Pos>,
    crushers: Seq<Pos>,
    n: int,
) -> (Seq<(usize, TransferTarget)>, usize)
    decreases n,
{
    if n <= 0 {
        (Seq::empty(), belt.last_output_index)
    } else {
        let prev = spec_plan_belt(belt, at_end, platform, convs, furnaces, crushers, n - 1);
        if !at_end[n - 1] {
            prev
        } else {
            let outs = spec_output_positions(belt.pos, belt.dir, belt.output_dir, belt.shape, prev.1);
            let acts = match spec_route(outs, platform, convs, furnaces, crushers) {
                Some(t) => prev.0.push(((n - 1) as usize, t)),
                None => prev.0,
            };
            let idx = if belt.shape == ConveyorShape::Splitter { ((prev.1 + 1) % 3) as usize } else { prev.1 };
            (acts, idx)
        }
    }
}

/// Plan where the items at the end of one belt go this tick (see
/// [`spec_plan_belt`]): the list of (item index, target) in item order, and the
/// belt's splitter index afterwards.
pub fn plan_belt_transfers(
    belt: &BeltState,
    at_end: &Vec<bool>,
    platform: Option<(Pos, Pos)>,
    convs: &Vec<Pos>,
    furnaces: &Vec<Pos>,
    crushers: &Vec<Pos>,
) -> (r: (Vec<(usize, TransferTarget)>, usize))
    requires
        belt.pos.interior(),
    ensures
        (r.0@, r.1) == spec_plan_belt(*belt, at_end@, platform, convs@, furnaces@, crushers@, at_end@.len() as int),
{
    let mut acts: Vec<(usize, TransferTarget)> = Vec::new();
    let mut idx: usize = belt.last_output_index;
    let mut i: usize = 0;
    while i < at_end.len()
        invariant
            i <= at_end.len(),
            belt.pos.interior(),
            (acts@, idx) == spec_plan_belt(*belt, at_end@, platform, convs@, furnaces@, crushers@, i as int),
        decreases at_end.len() - i,
    {
        if at_end[i] {
            let outs = output_positions(belt.pos, belt.dir, belt.output_dir, belt.shape, idx);
            match route_item(&outs, platform, convs, furnaces, crushers) {
                Some(t) => acts.push((i, t)),
                None => {},
            }
            if belt.shape == ConveyorShape::Splitter {
                idx = next_splitter_index(idx);
            }
        }
        i = i + 1;
    }
    (acts, idx)
}

/// `s` lists exactly the ids of `ids`, each once, in increasing order.
pub open spec fn sorted_ids_of(s: Seq<u64>, ids: Seq<u64>) -> bool {
    &&& forall|i: int, j: int| 0 <= i < j < s.len() ==> s[i] < s[j]
    &&& forall|x: u64| s.contains(x) <==> ids.contains(x)
}

/// The belt allowed to hand an item to a target belt this tick, among the belts
/// (by id, repeats allowed) that want to: with one distinct source it is that
/// one; with several, the target's input counter picks among them in increasing
/// id order (see [`spec_zipper_pick`]); with none, no belt.
pub fn allowed_source(sources: &Vec<u64>, last_input_source: usize) -> (r: Option<u64>)
    ensures
        sources@.len() == 0 ==> r is None,
        sources@.len() > 0 ==> exists|s: Seq<u64>| sorted_ids_of(s, sources@) && s.len() > 0
            && r == Some(#[trigger] spec_zipper_pick(s, last_input_source)),
{
    if sources.len() == 0 {
        return None;
    }
    let sorted = sorted_unique(sources);
    assert(sources@.contains(sources@[0]));
    assert(sorted@.contains(sources@[0]));
    let r = zipper_pick(&sorted, last_input_source);
    assert(sorted_ids_of(sorted@, sources@));
    Some(r)
}

/// Two increasing lists of the same ids are the same list, so the belt that
/// [`allowed_source`] picks is fixed by the sources and the counter.
pub proof fn law_sorted_ids_unique(a: Seq<u64>, b: Seq<u64>, ids: Seq<u64>)
    requires
        sorted_ids_of(a, ids),
        sorted_ids_of(b, ids),
    ensures
        a == b,
    decreases a.len() + b.len(),
{
    if a.len() == 0 {
        if b.len() > 0 {
            assert(b.contains(b[0]));
            assert(ids.contains(b[0]));
            assert(false);
        }
        assert(a =~= b);
    } else if b.len() == 0 {
        assert(a.contains(a[0]));
        assert(false);
    } else {
        // both start with the least id
        assert(a.contains(a[0]));
        assert(b.contains(b[0]));
        assert(b.contains(a[0]));
        assert(a.contains(b[0]));
        let ia = choose|i: int| 0 <= i < b.len() && b[i] == a[0];
        let ib = choose|i: int| 0 <= i < a.len() && a[i] == b[0];
        if ia > 0 {
            assert(b[0] < b[ia]);
            if ib > 0 {
                assert(a[0] < a[ib]);
            }
            assert(false);
        }
        assert(a[0] == b[0]);
        let a2 = a.drop_first();
        let b2 = b.drop_first();
        assert forall|x: u64| a2.contains(x) <==> b2.contains(x) by {
            if a2.contains(x) {
                let i = choose|i: int| 0 <= i < a2.len() && a2[i] == x;
                assert(a[i + 1] == x);
                assert(a[0] < x);
                assert(a.contains(x));
                assert(b.contains(x));
                let j = choose|j: int| 0 <= j < b.len() && b[j] == x;
                assert(j != 0);
                assert(b2[j - 1] == x);
            }
            if b2.contains(x) {
                let i = choose|i: int| 0 <= i < b2.len() && b2[i] == x;
                assert(b[i + 1] == x);
                assert(b[0] < x);
                assert(b.contains(x));
                assert(a.contains(x));
                let j = choose|j: int| 0 <= j < a.len() && a[j] == x;
                assert(j != 0);
                assert(a2[j - 1] == x);
            }
        }
        assert(sorted_ids_of(a2, a2));
        assert(sorted_ids_of(b2, a2));
        law_sorted_ids_unique(a2, b2, a2);
        assert(a =~= seq![a[0]] + a2);
        assert(b =~= seq![b[0]] + b2);
    }
}

/// A splitter hands successive items to its front, left and right in turn: the
/// first output tried for three items in a row, starting at any index, are the
/// three outputs, each once, and the index is back where it started.
pub proof fn law_splitter_cycles(pos: Pos, dir: Direction, start: usize)
    ensures
        ({
            let i0 = start;
            let i1 = ((i0 + 1) % 3) as usize;
            let i2 = ((i1 + 1) % 3) as usize;
            let f0 = spec_output_positions(pos, dir, dir, ConveyorShape::Splitter, i0)[0];
            let f1 = spec_output_positions(pos, dir, dir, ConveyorShape::Splitter, i1)[0];
            let f2 = spec_output_positions(pos, dir, dir, ConveyorShape::Splitter, i2)[0];
            let outs = seq![pos.spec_step(dir), pos.spec_step(dir.spec_rotate_ccw()), pos.spec_step(dir.spec_rotate_cw())];
            &&& seq![f0, f1, f2].to_multiset() =~= outs.to_multiset()
            &&& (i2 + 1) % 3 == start % 3
        }),
{
    let i0 = start;
    let i1 = ((i0 + 1) % 3) as usize;
    let i2 = ((i1 + 1) % 3) as usize;
    let f0 = spec_output_positions(pos, dir, dir, ConveyorShape::Splitter, i0)[0];
    let f1 = spec_output_positions(pos, dir, dir, ConveyorShape::Splitter, i1)[0];
    let f2 = spec_output_positions(pos, dir, dir, ConveyorShape::Splitter, i2)[0];
    let outs = seq![pos.spec_step(dir), pos.spec_step(dir.spec_rotate_ccw()), pos.spec_step(dir.spec_rotate_cw())];
    broadcast use vstd::multiset::group_multiset_axioms;
    let x = seq![outs[0]];
    let yz = seq![outs[1], outs[2]];
    let xy = seq![outs[0], outs[1]];
    let z = seq![outs[2]];
    if start % 3 == 0 {
        assert(seq![f0, f1, f2] =~= outs);
    } else if start % 3 == 1 {
        assert(seq![f0, f1, f2] =~= yz + x);
        assert(outs =~= x + yz);
        vstd::seq_lib::lemma_multiset_commutative(yz, x);
        vstd::seq_lib::lemma_multiset_commutative(x, yz);
    } else {
        assert(seq![f0, f1, f2] =~= z + xy);
        assert(outs =~= xy + z);
        vstd::seq_lib::lemma_multiset_commutative(z, xy);
        vstd::seq_lib::lemma_multiset_commutative(xy, z);
    }
}

/// The indices, among the first `n` belts, whose shape differs from the one
/// their neighbours now call for, in order.
pub open spec fn changed_shapes(
    shapes: Seq<ConveyorShape>,
    convs: Seq<(Pos, Direction)>,
    acceptors: Seq<Pos>,
    n: int,
) -> Seq<usize>
    decreases n,
{
    if n <= 0 {
        Seq::empty()
    } else {
        let prev = changed_shapes(shapes, convs, acceptors, n - 1);
        if shapes[n - 1] != spec_conveyor_shape(convs[n - 1].0, convs[n - 1].1, convs, acceptors) {
            prev.push((n - 1) as usize)
        } else {
            prev
        }
    }
}

/// Give every belt the shape its neighbours call for (see
/// [`spec_conveyor_shape`]); all shapes are worked out from the same belt
/// layout. Returns the belts whose shape changed (their model or mesh is
/// swapped), in order.
pub fn update_conveyor_shapes(
    shapes: &mut Vec<ConveyorShape>,
    convs: &Vec<(Pos, Direction)>,
    acceptors: &Vec<Pos>,
) -> (changed: Vec<usize>)
    requires
        old(shapes)@.len() == convs@.len(),
        forall|i: int| 0 <= i < convs@.len() ==> (#[trigger] convs@[i]).0.interior(),
    ensures
        final(shapes)@.len() == convs@.len(),
        forall|i: int| 0 <= i < convs@.len() ==> #[trigger] final(shapes)@[i]
            == spec_conveyor_shape(convs@[i].0, convs@[i].1, convs@, acceptors@),
        changed@ == changed_shapes(old(shapes)@, convs@, acceptors@, convs@.len() as int),
{
    let ghost start = shapes@;
    let mut changed: Vec<usize> = Vec::new();
    let mut i: usize = 0;
    while i < convs.len()
        invariant
            i <= convs.len(),
            shapes@.len() == convs@.len(),
            start.len() == convs@.len(),
            forall|k: int| 0 <= k < convs@.len() ==> (#[trigger] convs@[k]).0.interior(),
            forall|k: int| 0 <= k < i ==> #[trigger] shapes@[k] == spec_conveyor_shape(convs@[k].0, convs@[k].1, convs@, acceptors@),
            forall|k: int| i <= k < convs@.len() ==> #[trigger] shapes@[k] == start[k],
            changed@ == changed_shapes(start, convs@, acceptors@, i as int),
        decreases convs.len() - i,
    {
        let (pos, dir) = convs[i];
        assert(convs@[i as int].0.interior());
        let new_shape = conveyor_shape(pos, dir, convs, acceptors);
        if shapes[i] != new_shape {
            changed.push(i);
        }
        shapes.set(i, new_shape);
        i = i + 1;
    }
    changed
}

/// The transfers planned for the first `n` belts, belt by belt (each item with
/// its belt's index), and the splitter indices afterwards.
pub open spec fn spec_plan_all(
    belts: Seq<BeltState>,
    at_end: Seq<Seq<bool>>,
    platform: Option<(Pos, Pos)>,
    convs: Seq<Pos>,
    furnaces: Seq<Pos>,
    crushers: Seq<Pos>,
    n: int,
) -> (Seq<(usize, usize, TransferTarget)>, Seq<usize>)
    decreases n,
{
    if n <= 0 {
        (Seq::empty(), Seq::empty())
    } else {
        let prev = spec_plan_all(belts, at_end, platform, convs, furnaces, crushers, n - 1);
        let b = spec_plan_belt(belts[n - 1], at_end[n - 1], platform, convs, furnaces, crushers, at_end[n - 1].len() as int);
        (prev.0 + b.0.map_values(|a: (usize, TransferTarget)| ((n - 1) as usize, a.0, a.1)), prev.1.push(b.1))
    }
}

/// Plan this tick's hand-overs for every belt (see [`spec_plan_belt`]): for
/// each belt in order, the items at its end with the target each goes to, as
/// (belt, item, target); and each belt's splitter index afterwards. The belts
/// are listed with `convs` holding their positions in the same order.
pub fn conveyor_transfer(
    belts: &Vec<BeltState>,
    at_end: &Vec<Vec<bool>>,
    platform: Option<(Pos, Pos)>,
    convs: &Vec<Pos>,
    furnaces: &Vec<Pos>,
    crushers: &Vec<Pos>,
) -> (r: (Vec<(usize, usize, TransferTarget)>, Vec<usize>))
    requires
        at_end@.len() == belts@.len(),
        forall|i: int| 0 <= i < belts@.len() ==> (#[trigger] belts@[i]).pos.interior(),
    ensures
        (r.0@, r.1@) == spec_plan_all(belts@, at_end@.map_values(|v: Vec<bool>| v@), platform, convs@, furnaces@, crushers@, belts@.len() as int),
{
    let ghost ends = at_end@.map_values(|v: Vec<bool>| v@);
    let mut acts: Vec<(usize, usize, TransferTarget)> = Vec::new();
    let mut indices: Vec<usize> = Vec::new();
    let mut b: usize = 0;
    while b < belts.len()
        invariant
            b <= belts.len(),
            at_end@.len() == belts@.len(),
            ends == at_end@.map_values(|v: Vec<bool>| v@),
            forall|i: int| 0 <= i < belts@.len() ==> (#[trigger] belts@[i]).pos.interior(),
            (acts@, indices@) == spec_plan_all(belts@, ends, platform, convs@, furnaces@, crushers@, b as int),
        decreases belts.len() - b,
    {
        assert(belts@[b as int].pos.interior());
        let (belt_acts, idx) = plan_belt_transfers(&belts[b], &at_end[b], platform, convs, furnaces, crushers);
        let ghost before = acts@;
        let mut k: usize = 0;
        while k < belt_acts.len()
            invariant
                k <= belt_acts.len(),
                acts@ == before + belt_acts@.take(k as int).map_values(|a: (usize, TransferTarget)| (b, a.0, a.1)),
            decreases belt_acts.len() - k,
        {
            let (item, t) = belt_acts[k];
            acts.push((b, item, t));
            assert(belt_acts@.take(k as int + 1).map_values(|a: (usize, TransferTarget)| (b, a.0, a.1))
                =~= belt_acts@.take(k as int).map_values(|a: (usize, TransferTarget)| (b, a.0, a.1)).push((b, item, t)));
            k = k + 1;
        }
        assert(belt_acts@.take(k as int) =~= belt_acts@);
        indices.push(idx);
        proof {
            assert(ends[b as int] == at_end@[b as int]@);
        }
        b = b + 1;
    }
    (acts, indices)
}

/// A belt fed only from behind, whose only neighbour waiting to take its items
/// is on its left (the front does not wait and the right does not), bends left;
/// mirrored, with only the right neighbour waiting, it bends right.
pub proof fn law_corner_bends_towards_waiting_side(pos: Pos, dir: Direction, convs: Seq<(Pos, Direction)>, acceptors: Seq<Pos>)
    ensures
        ({
            let back = pos.spec_step(dir.spec_opposite());
            let left = pos.spec_step(dir.spec_rotate_ccw());
            let right = pos.spec_step(dir.spec_rotate_cw());
            let front = pos.spec_step(dir);
            let fed_only_from_back = input_from(convs, pos, back) && !input_from(convs, pos, left)
                && !input_from(convs, pos, right) && !input_from(convs, pos, front);
            let left_waits = occupied(convs, left) && receives(convs, acceptors, left, pos);
            let right_waits = occupied(convs, right) && receives(convs, acceptors, right, pos);
            let front_waits = (occupied(convs, front) && receives(convs, acceptors, front, pos)) || acceptors.contains(front);
            &&& fed_only_from_back && left_waits && !right_waits && !front_waits
                ==> spec_conveyor_shape(pos, dir, convs, acceptors) == ConveyorShape::CornerLeft
            &&& fed_only_from_back && right_waits && !left_waits && !front_waits
                ==> spec_conveyor_shape(pos, dir, convs, acceptors) == ConveyorShape::CornerRight
            &&& fed_only_from_back && !left_waits && !right_waits
                ==> spec_conveyor_shape(pos, dir, convs, acceptors) == ConveyorShape::Straight
            &&& fed_only_from_back && left_waits && right_waits
                ==> spec_conveyor_shape(pos, dir, convs, acceptors) == ConveyorShape::Splitter
            &&& (input_from(convs, pos, back) && input_from(convs, pos, left)
                || input_from(convs, pos, back) && input_from(convs, pos, right)
                || input_from(convs, pos, left) && input_from(convs, pos, right))
                ==> spec_conveyor_shape(pos, dir, convs, acceptors) == ConveyorShape::TJunction
            &&& !input_from(convs, pos, back) && !input_from(convs, pos, left) && !input_from(convs, pos, right)
                && !input_from(convs, pos, front)
                ==> spec_conveyor_shape(pos, dir, convs, acceptors) == ConveyorShape::Straight
        }),
{
}

/// A belt placed behind a belt that faces to its left bends left, behind one
/// facing to its right bends right, and otherwise (nothing in front, or a belt
/// facing the same way or back) is straight.
pub proof fn law_placed_bends_towards_front_belt(facing: Direction, front: Option<Direction>)
    ensures
        front == Some(facing.spec_rotate_ccw()) ==> spec_placed_shape(facing, front) == ConveyorShape::CornerLeft,
        front == Some(facing.spec_rotate_cw()) ==> spec_placed_shape(facing, front) == ConveyorShape::CornerRight,
        (front is None || front == Some(facing) || front == Some(facing.spec_opposite()))
            ==> spec_placed_shape(facing, front) == ConveyorShape::Straight,
{
}

} // verus!
